# oscmidi

The decision-making core of a MIDI bridge that forwards MIDI from hardware
ports and RTP-MIDI sessions to OSC targets, MIDI outputs and an embedded VST
host, written in Verus and proved against its contracts.

## Layout

- `src/` — the verified library.
  - MIDI: `midi`, `port_selector`, `midi_io`, `routing`, `activity`.
  - Bridge pipeline and OSC: `pipeline`, `osc`, `bridge_config`, `config`.
  - RTP-MIDI: `rtp`, `rtp_session`.
  - Audio side: `midi_queue` (the callback's MIDI queue), `callback_plan`
    (what one audio callback does), `stream_config`,
    `audio_select` (backend and device choice), `audio_types`, `telemetry`.
  - Plug-in loading: `plugin_load` (backend choice, VST2 shell identifier,
    channel limit).
  - Isolated DSP worker: `dsp_slots` (shared-slot protocol and control
    commands), `worker_protocol` (the worker's replies), `dsp_launch`
    (names and command line), `remote` (slot contents, parameter batches).
  - Plug-in state: `state_codec` (binary format), `state_laws` (round-trip
    laws), `state_restore` (what is written back, which files are tried).
  - Helpers: `text`, `le`, `fnv`, `platform`, `services`.
- `tests/` — tests run against the compiled library with the real
  `crossbeam-channel` and `rtrb` crates.
- `app/` — a small command-line front end: the YAML configuration file,
  atomic file replacement, host-name resolution for RTP-MIDI remotes,
  reading state files, the pre-flight check, and dry runs of the test
  message and of a stress test (the bridge's MIDI and audio runtime is not
  part of it).
