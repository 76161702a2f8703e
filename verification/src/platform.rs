//! Platform services for the audio engine: plug-in path rules, the plug-in
//! editor window, and process tuning. On platforms other than Windows the
//! window and priority services report that they are unavailable or do
//! nothing, as here.

use vstd::prelude::*;
use vstd::utf8::encode_utf8;

verus! {

// ---------------------------------------------------------------------------
// Plug-in path rules
// ---------------------------------------------------------------------------

pub open spec fn lower(b: u8) -> u8 {
    if 0x41 <= b <= 0x5a {
        (b + 0x20) as u8
    } else {
        b
    }
}

pub open spec fn lower_seq(s: Seq<u8>) -> Seq<u8> {
    s.map_values(|b: u8| lower(b))
}

pub open spec fn is_separator(b: u8) -> bool {
    b == 0x2f || b == 0x5c
}

/// The index just after the last path separator (`/` or `\`), or 0.
pub open spec fn name_start(s: Seq<u8>, n: int) -> int
    decreases n,
{
    if n <= 0 {
        0
    } else if is_separator(s[n - 1]) {
        n
    } else {
        name_start(s, n - 1)
    }
}

/// The last component of a path.
pub open spec fn file_name(s: Seq<u8>) -> Seq<u8> {
    s.subrange(name_start(s, s.len() as int), s.len() as int)
}

/// `needle` occurs in `hay`.
pub open spec fn contains(hay: Seq<u8>, needle: Seq<u8>) -> bool {
    exists|i: int| 0 <= i && i + needle.len() <= hay.len() && #[trigger] hay.subrange(i, i + needle.len()) == needle
}

pub open spec fn ends_with(s: Seq<u8>, suffix: Seq<u8>) -> bool {
    suffix.len() <= s.len() && s.subrange(s.len() - suffix.len(), s.len() as int) == suffix
}

/// The extension of a file name: what follows its last dot, when that dot
/// is not the name's first byte.
pub open spec fn has_extension(name: Seq<u8>, ext: Seq<u8>) -> bool {
    name.len() > ext.len() + 1 && ends_with(name, ext) && name[name.len() - ext.len() - 1] == 0x2e
        && !contains(ext, seq![0x2eu8])
}

pub open spec fn sforzando() -> Seq<u8> {
    seq![0x73u8, 0x66, 0x6f, 0x72, 0x7a, 0x61, 0x6e, 0x64, 0x6f]
}

pub open spec fn vst3_ext() -> Seq<u8> {
    seq![0x76u8, 0x73, 0x74, 0x33]
}

/// A Sforzando VST3 plug-in: the file name contains "sforzando" and its
/// extension is "vst3", both ignoring ASCII case.
pub open spec fn spec_is_sforzando_vst3(path: Seq<u8>) -> bool {
    let name = lower_seq(file_name(path));
    contains(name, sforzando()) && has_extension(name, vst3_ext())
}

pub fn lower_bytes(s: &[u8]) -> (r: Vec<u8>)
    ensures
        r@ == lower_seq(s@),
{
    let mut r: Vec<u8> = Vec::new();
    let mut i: usize = 0;
    while i < s.len()
        invariant
            i <= s@.len(),
            r@ == lower_seq(s@.take(i as int)),
        decreases s@.len() - i,
    {
        let b = s[i];
        let l = if 0x41 <= b && b <= 0x5a { b + 0x20 } else { b };
        r.push(l);
        i = i + 1;
        assert(r@ =~= lower_seq(s@.take(i as int)));
    }
    assert(s@.take(i as int) =~= s@);
    r
}

fn file_name_start(s: &[u8]) -> (r: usize)
    ensures
        r == name_start(s@, s@.len() as int),
        r <= s@.len(),
{
    let mut n: usize = s.len();
    while n > 0
        invariant
            n <= s@.len(),
            name_start(s@, s@.len() as int) == name_start(s@, n as int),
        decreases n,
    {
        if s[n - 1] == 0x2f || s[n - 1] == 0x5c {
            return n;
        }
        n = n - 1;
    }
    0
}

fn slice_from(s: &[u8], start: usize) -> (r: Vec<u8>)
    requires
        start <= s@.len(),
    ensures
        r@ == s@.subrange(start as int, s@.len() as int),
{
    let mut r: Vec<u8> = Vec::new();
    let mut i: usize = start;
    while i < s.len()
        invariant
            start <= i <= s@.len(),
            r@ == s@.subrange(start as int, i as int),
        decreases s@.len() - i,
    {
        r.push(s[i]);
        i = i + 1;
        assert(r@ =~= s@.subrange(start as int, i as int));
    }
    r
}

pub fn contains_bytes(hay: &[u8], needle: &[u8]) -> (r: bool)
    ensures
        r == contains(hay@, needle@),
{
    let n = hay.len();
    let m = needle.len();
    if m > n {
        proof {
            assert forall|i: int| 0 <= i && i + needle@.len() <= hay@.len() implies #[trigger] hay@.subrange(i, i + needle@.len()) != needle@ by {}
        }
        return false;
    }
    let last = n - m;
    let mut i: usize = 0;
    while i <= last
        invariant
            n == hay@.len(),
            m == needle@.len(),
            m <= n,
            last == n - m,
            i <= last + 1,
            forall|k: int| 0 <= k < i ==> #[trigger] hay@.subrange(k, k + needle@.len()) != needle@,
        decreases last + 1 - i,
    {
        let mut j: usize = 0;
        let mut same = true;
        while j < m
            invariant
                n == hay@.len(),
                m == needle@.len(),
                i <= last,
                last == n - m,
                j <= m,
                same == (forall|q: int| 0 <= q < j ==> #[trigger] hay@[i + q] == needle@[q]),
            decreases m - j,
        {
            if hay[i + j] != needle[j] {
                same = false;
            }
            j = j + 1;
        }
        if same {
            assert forall|q: int| 0 <= q < needle@.len() implies #[trigger] hay@.subrange(i as int, i + needle@.len())[q] == needle@[q] by {
                assert(hay@[i + q] == needle@[q]);
            }
            assert(hay@.subrange(i as int, i + needle@.len()) =~= needle@);
            return true;
        }
        proof {
            let k = choose|q: int| 0 <= q < needle@.len() && hay@[i + q] != needle@[q];
            assert(hay@.subrange(i as int, i + needle@.len())[k] != needle@[k]);
        }
        i = i + 1;
    }
    proof {
        assert forall|k: int| 0 <= k && k + needle@.len() <= hay@.len() implies #[trigger] hay@.subrange(k, k + needle@.len()) != needle@ by {
            assert(k < i);
        }
    }
    false
}

fn ends_with_bytes(s: &[u8], suffix: &[u8]) -> (r: bool)
    ensures
        r == ends_with(s@, suffix@),
{
    if suffix.len() > s.len() {
        return false;
    }
    let start = s.len() - suffix.len();
    let tail = slice_from(s, start);
    crate::text::bytes_eq(tail.as_slice(), suffix)
}

fn has_extension_bytes(name: &[u8], ext: &[u8]) -> (r: bool)
    ensures
        r == has_extension(name@, ext@),
{
    let dot: Vec<u8> = vec![0x2eu8];
    assert(dot@ =~= seq![0x2eu8]);
    if !(ext.len() < name.len() && name.len() - ext.len() > 1) {
        return false;
    }
    if !ends_with_bytes(name, ext) {
        return false;
    }
    if name[name.len() - ext.len() - 1] != 0x2e {
        return false;
    }
    !contains_bytes(ext, dot.as_slice())
}

/// Whether `path` (its bytes) names a Sforzando VST3 plug-in.
pub fn is_sforzando_vst3(path: &str) -> (r: bool)
    ensures
        r == spec_is_sforzando_vst3(encode_utf8(path@)),
{
    let bytes = path.as_bytes();
    let start = file_name_start(bytes);
    let name = slice_from(bytes, start);
    let lname = lower_bytes(name.as_slice());
    let needle: Vec<u8> = vec![0x73u8, 0x66, 0x6f, 0x72, 0x7a, 0x61, 0x6e, 0x64, 0x6f];
    let ext: Vec<u8> = vec![0x76u8, 0x73, 0x74, 0x33];
    assert(needle@ =~= sforzando());
    assert(ext@ =~= vst3_ext());
    contains_bytes(lname.as_slice(), needle.as_slice()) && has_extension_bytes(lname.as_slice(), ext.as_slice())
}

pub open spec fn splice_dir() -> Seq<u8> {
    seq![0x5cu8, 0x73, 0x70, 0x6c, 0x69, 0x63, 0x65, 0x5c]
}

pub open spec fn splice_instrument_vst3() -> Seq<u8> {
    seq![
        0x73u8, 0x70, 0x6c, 0x69, 0x63, 0x65, 0x20, 0x69, 0x6e, 0x73, 0x74, 0x72, 0x75, 0x6d, 0x65,
        0x6e, 0x74, 0x2e, 0x76, 0x73, 0x74, 0x33,
    ]
}

pub open spec fn dot_vst3() -> Seq<u8> {
    seq![0x2eu8, 0x76, 0x73, 0x74, 0x33]
}

pub open spec fn sforzando_vst3_name() -> Seq<u8> {
    seq![0x73u8, 0x66, 0x6f, 0x72, 0x7a, 0x61, 0x6e, 0x64, 0x6f, 0x2e, 0x76, 0x73, 0x74, 0x33]
}

pub open spec fn sforzando_vst3_file() -> Seq<u8> {
    seq![0x5cu8, 0x73, 0x66, 0x6f, 0x72, 0x7a, 0x61, 0x6e, 0x64, 0x6f, 0x2e, 0x76, 0x73, 0x74, 0x33]
}

/// VST3 plug-ins whose destructor is known to block, judged on the whole
/// path ignoring ASCII case: a path ending in "sforzando.vst3" or holding
/// "\sforzando.vst3", and Splice plug-ins (a `\splice\` directory or a
/// path ending in "splice instrument.vst3").
pub open spec fn spec_requires_quarantine(path: Seq<u8>) -> bool {
    let p = lower_seq(path);
    ends_with(p, sforzando_vst3_name()) || contains(p, sforzando_vst3_file()) || (ends_with(
        p,
        dot_vst3(),
    ) && (contains(p, splice_dir()) || ends_with(p, splice_instrument_vst3())))
}

/// Whether the plug-in at `path` must never be destroyed on the audio
/// engine's threads.
pub fn requires_vst3_destructor_quarantine(path: &str) -> (r: bool)
    ensures
        r == spec_requires_quarantine(encode_utf8(path@)),
{
    let p = lower_bytes(path.as_bytes());
    let sfz_name: Vec<u8> = vec![
        0x73u8, 0x66, 0x6f, 0x72, 0x7a, 0x61, 0x6e, 0x64, 0x6f, 0x2e, 0x76, 0x73, 0x74, 0x33,
    ];
    let sfz_file: Vec<u8> = vec![
        0x5cu8, 0x73, 0x66, 0x6f, 0x72, 0x7a, 0x61, 0x6e, 0x64, 0x6f, 0x2e, 0x76, 0x73, 0x74, 0x33,
    ];
    assert(sfz_name@ =~= sforzando_vst3_name());
    assert(sfz_file@ =~= sforzando_vst3_file());
    if ends_with_bytes(p.as_slice(), sfz_name.as_slice()) || contains_bytes(
        p.as_slice(),
        sfz_file.as_slice(),
    ) {
        return true;
    }
    let ext: Vec<u8> = vec![0x2eu8, 0x76, 0x73, 0x74, 0x33];
    let dir: Vec<u8> = vec![0x5cu8, 0x73, 0x70, 0x6c, 0x69, 0x63, 0x65, 0x5c];
    let file: Vec<u8> = vec![
        0x73u8, 0x70, 0x6c, 0x69, 0x63, 0x65, 0x20, 0x69, 0x6e, 0x73, 0x74, 0x72, 0x75, 0x6d, 0x65,
        0x6e, 0x74, 0x2e, 0x76, 0x73, 0x74, 0x33,
    ];
    assert(ext@ =~= dot_vst3());
    assert(dir@ =~= splice_dir());
    assert(file@ =~= splice_instrument_vst3());
    ends_with_bytes(p.as_slice(), ext.as_slice()) && (contains_bytes(p.as_slice(), dir.as_slice())
        || ends_with_bytes(p.as_slice(), file.as_slice()))
}

// ---------------------------------------------------------------------------
// Editor window and process tuning
// ---------------------------------------------------------------------------

/// Errors of the platform services.
#[derive(Clone, Debug)]
pub enum WindowsError {
    PriorityError(String),
    WindowError(String),
    HwndError(String),
}

pub open spec fn unsupported_message() -> Seq<char> {
    "Non supporté sur cette plateforme"@
}

/// Gives the audio thread real-time priority; nothing to do here.
pub fn apply_realtime_priority() -> (r: Result<(), WindowsError>)
    ensures
        r is Ok,
{
    Ok(())
}

/// Opens a window for a plug-in editor: not available on this platform.
pub fn create_vst_window(title: &str, width: i32, height: i32) -> (r: Result<usize, WindowsError>)
    ensures
        r matches Err(WindowsError::WindowError(m)) && m@ == unsupported_message(),
{
    Err(WindowsError::WindowError("Non supporté sur cette plateforme".to_string()))
}

/// The handle of the application's main window: not available on this
/// platform.
pub fn get_main_window_hwnd() -> (r: Result<usize, WindowsError>)
    ensures
        r matches Err(WindowsError::HwndError(m)) && m@ == unsupported_message(),
{
    Err(WindowsError::HwndError("Non supporté sur cette plateforme".to_string()))
}

/// A window handle as a parent pointer: none on this platform.
pub fn hwnd_to_nonnull(hwnd: usize) -> (r: Option<usize>)
    ensures
        r is None,
{
    None
}

/// Closes a plug-in editor window: nothing to close on this platform.
pub fn close_vst_window(hwnd: usize) -> (r: Result<(), WindowsError>)
    ensures
        r is Ok,
{
    Ok(())
}

/// Raises the process priority for audio; nothing to do here.
pub fn apply_process_priority() {
}

/// Restores the process priority after the application loses focus;
/// nothing to do here.
pub fn reapply_process_priority_on_focus_loss() {
}

/// The time allowed to a plug-in to shut down, in seconds: the configured
/// value (5 when absent) kept between 1 and 30.
pub fn vst_shutdown_timeout_secs(configured: Option<u64>) -> (r: u64)
    ensures
        r == (match configured {
            Some(v) => if v < 1 {
                1
            } else if v > 30 {
                30
            } else {
                v
            },
            None => 5,
        }),
        1 <= r <= 30,
{
    let secs = match configured {
        Some(v) => v,
        None => 5,
    };
    if secs < 1 {
        1
    } else if secs > 30 {
        30
    } else {
        secs
    }
}

/// Win32 ERROR_ALREADY_REGISTERED.
pub const ERROR_ALREADY_REGISTERED_RAW: u32 = 1242;

/// Whether an error code is ERROR_ALREADY_REGISTERED, raw or wrapped as an
/// HRESULT of the Win32 facility: the thread is already under MMCSS.
pub fn is_already_registered_error(code: u32) -> (r: bool)
    ensures
        r == (code == 1242 || code == 0x8007_04DA),
{
    let wrapped: u32 = 0x8007_0000u32 | ERROR_ALREADY_REGISTERED_RAW;
    assert(0x8007_0000u32 | 1242u32 == 0x8007_04DAu32) by (bit_vector);
    code == ERROR_ALREADY_REGISTERED_RAW || code == wrapped
}

/// A flag that may be unknown, as stored in one byte: 0 unknown, 1 false,
/// 2 true.
pub fn encode_tri_state(value: bool) -> (r: u8)
    ensures
        r == (if value { 2u8 } else { 1u8 }),
{
    if value { 2 } else { 1 }
}

/// Reads a flag stored by `encode_tri_state`; other bytes are unknown.
pub fn decode_tri_state(cell: u8) -> (r: Option<bool>)
    ensures
        r == (if cell == 1 {
            Some(false)
        } else if cell == 2 {
            Some(true)
        } else {
            None
        }),
{
    if cell == 1 {
        Some(false)
    } else if cell == 2 {
        Some(true)
    } else {
        None
    }
}

/// The editor window of a plug-in.
pub struct VstWindowManager {
    hwnd: Option<usize>,
    title: String,
    width: i32,
    height: i32,
}

impl VstWindowManager {
    pub closed spec fn spec_hwnd(&self) -> Option<usize> {
        self.hwnd
    }

    pub closed spec fn spec_title(&self) -> Seq<char> {
        self.title@
    }

    pub closed spec fn spec_size(&self) -> (i32, i32) {
        (self.width, self.height)
    }

    /// A manager for a window not yet opened.
    pub fn new(title: String, width: i32, height: i32) -> (r: VstWindowManager)
        ensures
            r.spec_hwnd() is None,
            r.spec_title() == title@,
            r.spec_size() == (width, height),
    {
        VstWindowManager { hwnd: None, title, width, height }
    }

    /// Opens the window; fails as `create_vst_window` does here.
    pub fn create(&mut self) -> (r: Result<(), WindowsError>)
        ensures
            r matches Err(WindowsError::WindowError(m)) && m@ == unsupported_message(),
            final(self).spec_hwnd() == old(self).spec_hwnd(),
            final(self).spec_title() == old(self).spec_title(),
            final(self).spec_size() == old(self).spec_size(),
    {
        match create_vst_window(self.title.as_str(), self.width, self.height) {
            Err(e) => Err(e),
            Ok(_) => Ok(()),
        }
    }

    /// Closes the window if it is open.
    pub fn close(&mut self) -> (r: Result<(), WindowsError>)
        ensures
            r is Ok,
            final(self).spec_hwnd() is None,
            final(self).spec_title() == old(self).spec_title(),
            final(self).spec_size() == old(self).spec_size(),
    {
        if let Some(h) = self.hwnd {
            let _ = close_vst_window(h);
            self.hwnd = None;
        }
        Ok(())
    }

    /// The window's handle while it is open.
    pub fn hwnd(&self) -> (r: Option<usize>)
        ensures
            r == self.spec_hwnd(),
    {
        self.hwnd
    }

    /// Brings the window to the front; nothing to do here.
    pub fn bring_to_front(&self) -> (r: Result<(), WindowsError>)
        ensures
            r is Ok,
    {
        Ok(())
    }

    /// Whether the window is open.
    pub fn is_open(&self) -> (r: bool)
        ensures
            r == self.spec_hwnd() is Some,
    {
        self.hwnd.is_some()
    }
}

} // verus!
