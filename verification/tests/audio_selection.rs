use oscmidi::audio_select::{
    asio_retry_delay_ms, backend_candidates, candidates_for_preference, host_attempts,
    retained_device_matches, select_device, DeviceChoice, HostKind,
};

fn names(list: &[&str]) -> Vec<Option<String>> {
    list.iter().map(|n| Some(n.to_string())).collect()
}

#[test]
fn auto_backend_tries_asio_with_retries_then_wasapi() {
    let device = Some("Speakers".to_string());
    let (preferred, list) = backend_candidates(&None, &device, true);
    assert_eq!(preferred, "auto");
    assert_eq!(list.len(), 7);
    for (i, c) in list.iter().take(6).enumerate() {
        assert_eq!(c.backend.as_deref(), Some("asio"));
        assert_eq!(c.device.as_deref(), Some("Speakers"));
        assert_eq!(c.attempt as usize, i);
        assert!(c.prefer_low_latency);
    }
    assert_eq!(list[6].backend.as_deref(), Some("wasapi"));
    assert_eq!(list[6].attempt, 0);
    assert!(!list[6].prefer_low_latency);
    let (_, without_asio) = backend_candidates(&None, &None, false);
    assert_eq!(without_asio.len(), 1);
    assert_eq!(without_asio[0].backend.as_deref(), Some("wasapi"));
}

#[test]
fn named_backends_are_matched_case_insensitively() {
    let (preferred, list) = backend_candidates(&Some("ASIO4ALL".to_string()), &None, true);
    assert_eq!(preferred, "asio4all");
    assert_eq!(list.len(), 6);
    let (_, fallback) = backend_candidates(&Some("ASIO".to_string()), &None, false);
    assert_eq!(fallback.len(), 1);
    assert_eq!(fallback[0].backend.as_deref(), Some("wasapi"));
    let (_, wasapi) = backend_candidates(&Some("WASAPI".to_string()), &None, true);
    assert_eq!(wasapi.len(), 1);
    let other = candidates_for_preference("jack", &Some("Jack".to_string()), &None, true);
    assert_eq!(other.len(), 1);
    assert_eq!(other[0].backend.as_deref(), Some("Jack"));
    assert!(!other[0].prefer_low_latency);
    assert_eq!(candidates_for_preference("", &Some(String::new()), &None, false).len(), 1);
}

#[test]
fn asio_retries_back_off() {
    let delays: Vec<u64> = (0..6).map(asio_retry_delay_ms).collect();
    assert_eq!(delays, vec![0, 100, 250, 500, 1000, 1500]);
}

#[test]
fn retained_device_is_reused_only_when_it_matches() {
    assert!(retained_device_matches("asio", "Focusrite", "auto", &None));
    assert!(retained_device_matches("WASAPI", "Focusrite", "wasapi", &Some("Focusrite".to_string())));
    assert!(!retained_device_matches("wasapi", "Focusrite", "auto", &None));
    assert!(!retained_device_matches("asio", "Focusrite", "asio", &Some("Other".to_string())));
}

#[test]
fn preferred_device_is_found_by_exact_then_partial_name() {
    let list = names(&["Speakers (Realtek)", "Focusrite USB", "Focusrite"]);
    assert_eq!(select_device(&list, Some("Focusrite"), false), DeviceChoice::Listed(2));
    assert_eq!(select_device(&list, Some("USB"), false), DeviceChoice::Listed(1));
}

#[test]
fn virtual_devices_are_preferred_then_speakers_then_default() {
    let list = names(&["Microphone Speakers", "Steam Streaming", "VoiceMeeter Input"]);
    assert_eq!(select_device(&list, None, false), DeviceChoice::Listed(2));
    let list = names(&["Headphones", "Haut-parleurs (USB)"]);
    assert_eq!(select_device(&list, Some("Missing"), false), DeviceChoice::Listed(1));
    let list = vec![None, Some("Line Out".to_string())];
    assert_eq!(select_device(&list, None, false), DeviceChoice::HostDefault);
}

#[test]
fn asio_hosts_fall_back_to_their_first_device() {
    let list = names(&["Focusrite USB ASIO", "Virtual ASIO Cable"]);
    assert_eq!(select_device(&list, None, true), DeviceChoice::Listed(1));
    let list = names(&["Focusrite USB ASIO"]);
    assert_eq!(select_device(&list, None, true), DeviceChoice::Listed(0));
    assert_eq!(select_device(&[], None, true), DeviceChoice::NoDevice);
}

#[test]
fn hosts_are_tried_in_preference_order() {
    assert_eq!(host_attempts(Some("Wasapi"), true, true), vec![HostKind::Wasapi]);
    assert_eq!(host_attempts(Some("asio"), false, true), vec![HostKind::Wasapi]);
    assert_eq!(host_attempts(None, true, true), vec![HostKind::Asio, HostKind::Wasapi]);
    assert_eq!(host_attempts(Some("jack"), false, false), Vec::<HostKind>::new());
}
