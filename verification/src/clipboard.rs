//! Single-slot snapshot cache keyed by the OS clipboard sequence number,
//! and synthesis of the path pair for each newly captured image.
//!
//! The cache is replaced wholesale on every successful capture and is
//! never touched by a failed one; callers always receive independent
//! copies, never aliases into the cache.

use vstd::prelude::*;
use vstd::string::*;

use crate::dib::dib_decodable;
use crate::png::{convert_dib_to_png, png_of_dib};
use crate::wslpath::{convert_path_to_wsl, wsl_path_spec};

verus! {

/// One cached capture: the sequence number it belongs to, the encoded
/// image bytes, and the two path forms of the generated file.
pub struct ImageCache {
    pub seq: u32,
    pub png_data: Vec<u8>,
    pub win_path: String,
    pub wsl_path: String,
}

/// Clipboard capture manager: the temporary directory in both path
/// conventions (the remapped form precomputed once), and at most one
/// cached snapshot.
pub struct ClipboardManager {
    pub temp_dir: String,
    pub wsl_temp_dir: String,
    pub cache: Option<ImageCache>,
}

/// Generated file name for one capture: `clip_<timestamp>.png`.
pub open spec fn capture_filename(ts: Seq<char>) -> Seq<char> {
    "clip_"@ + ts + ".png"@
}

/// Native path of the generated file: the temporary directory, a native
/// separator, the file name.
pub open spec fn capture_win_path(temp_dir: Seq<char>, ts: Seq<char>) -> Seq<char> {
    temp_dir + "\\"@ + capture_filename(ts)
}

/// Remapped path of the generated file: the precomputed remapped
/// directory with the file name appended, or, when the directory was
/// unmappable, the remapping of the whole native path.
pub open spec fn capture_wsl_path(
    wsl_temp_dir: Seq<char>,
    temp_dir: Seq<char>,
    ts: Seq<char>,
) -> Seq<char> {
    if wsl_temp_dir.len() > 0 {
        wsl_temp_dir + "/"@ + capture_filename(ts)
    } else {
        wsl_path_spec(capture_win_path(temp_dir, ts))
    }
}

/// Relates the manager states before and after a successful capture:
/// the directories are untouched and the snapshot is replaced wholesale
/// by one built from this sequence number, timestamp and image.
pub open spec fn store_capture_post(
    pre: ClipboardManager,
    post: ClipboardManager,
    seq: u32,
    ts: Seq<char>,
    png: Seq<u8>,
) -> bool {
    &&& post.temp_dir == pre.temp_dir
    &&& post.wsl_temp_dir == pre.wsl_temp_dir
    &&& post.cache is Some
    &&& post.cache->Some_0.seq == seq
    &&& post.cache->Some_0.png_data@ == png
    &&& post.cache->Some_0.win_path@ == capture_win_path(pre.temp_dir@, ts)
    &&& post.cache->Some_0.wsl_path@ == capture_wsl_path(pre.wsl_temp_dir@, pre.temp_dir@, ts)
}

/// The capture the cache serves for a sequence number: a copy of the
/// snapshot exactly when the cache holds that same nonzero number (a zero
/// sequence number means the counter is unusable and is never served).
pub open spec fn cached_capture_spec(m: ClipboardManager, seq: u32) -> Option<
    (Seq<char>, Seq<char>, Seq<u8>),
> {
    if m.cache is Some && m.cache->Some_0.seq == seq && seq != 0 {
        Some((m.cache->Some_0.win_path@, m.cache->Some_0.wsl_path@, m.cache->Some_0.png_data@))
    } else {
        None
    }
}

/// Copies a byte buffer.
fn clone_bytes(data: &Vec<u8>) -> (r: Vec<u8>)
    ensures
        r@ == data@,
{
    let r = data.clone();
    proof {
        assert(r@ =~= data@);
    }
    r
}

/// Relies on `chrono::Local::now` and `DateTime::format` with a
/// `year month day _ hour minute second _ milliseconds` pattern: the
/// result depends on the wall clock at the moment of the call, so nothing
/// is claimed about its value.
#[verifier::external_body]
fn now_timestamp() -> (r: String) {
    chrono::Local::now().format("%Y%m%d_%H%M%S_%3f").to_string()
}

impl ClipboardManager {
    /// Creates a manager for the given temporary directory, precomputing
    /// its remapped form once; the cache starts empty.
    pub fn new(temp_dir: String) -> (r: Self)
        ensures
            r.temp_dir@ == temp_dir@,
            r.wsl_temp_dir@ == wsl_path_spec(temp_dir@),
            r.cache is None,
    {
        let wsl_temp_dir = convert_path_to_wsl(temp_dir.as_str());
        ClipboardManager { temp_dir, wsl_temp_dir, cache: None }
    }

    /// Serves a capture from the cache without touching the clipboard
    /// source: a copy of the snapshot exactly when the cache is populated
    /// with this nonzero sequence number.
    pub fn cached_capture(&self, seq: u32) -> (r: Option<(String, String, Vec<u8>)>)
        ensures
            r is Some <==> cached_capture_spec(*self, seq) is Some,
            r matches Some(t) ==> ({
                &&& t.0@ == cached_capture_spec(*self, seq)->Some_0.0
                &&& t.1@ == cached_capture_spec(*self, seq)->Some_0.1
                &&& t.2@ == cached_capture_spec(*self, seq)->Some_0.2
            }),
    {
        match &self.cache {
            Some(cached) => {
                if cached.seq == seq && seq != 0 {
                    Some(
                        (
                            cached.win_path.clone(),
                            cached.wsl_path.clone(),
                            clone_bytes(&cached.png_data),
                        ),
                    )
                } else {
                    None
                }
            },
            None => None,
        }
    }

    /// Builds the path pair for a newly decoded image and replaces the
    /// cached snapshot wholesale with the new capture. Returns copies of
    /// exactly what was stored.
    pub fn store_capture(&mut self, seq: u32, timestamp: &str, png_data: Vec<u8>) -> (r: (
        String,
        String,
        Vec<u8>,
    ))
        ensures
            store_capture_post(*old(self), *final(self), seq, timestamp@, png_data@),
            r.0@ == capture_win_path(old(self).temp_dir@, timestamp@),
            r.1@ == capture_wsl_path(old(self).wsl_temp_dir@, old(self).temp_dir@, timestamp@),
            r.2@ == png_data@,
    {
        let mut filename = String::from_str("clip_");
        filename.append(timestamp);
        filename.append(".png");

        let mut win_path = self.temp_dir.clone();
        win_path.append("\\");
        win_path.append(filename.as_str());

        let wsl_path = if !self.wsl_temp_dir.as_str().is_empty() {
            let mut p = self.wsl_temp_dir.clone();
            p.append("/");
            p.append(filename.as_str());
            p
        } else {
            convert_path_to_wsl(win_path.as_str())
        };

        let result = (win_path.clone(), wsl_path.clone(), clone_bytes(&png_data));
        self.cache = Some(ImageCache { seq, png_data, win_path, wsl_path });
        result
    }

    /// Stamps a freshly encoded image with the wall clock and replaces
    /// the cached snapshot wholesale with the new capture under this
    /// sequence number. Returns copies of exactly what was stored.
    pub fn cache_encoded(&mut self, seq: u32, png_data: Vec<u8>) -> (r: (String, String, Vec<u8>))
        ensures
            r.2@ == png_data@,
            exists|ts: Seq<char>|
                {
                    &&& #[trigger] store_capture_post(*old(self), *final(self), seq, ts, png_data@)
                    &&& r.0@ == capture_win_path(old(self).temp_dir@, ts)
                    &&& r.1@ == capture_wsl_path(old(self).wsl_temp_dir@, old(self).temp_dir@, ts)
                },
    {
        let ts = now_timestamp();
        self.store_capture(seq, ts.as_str(), png_data)
    }

    /// Decodes a raw DIB buffer, encodes it as PNG, and replaces the
    /// cached snapshot with the new capture under this sequence number.
    /// Succeeds exactly on the decodable buffers; a failure reports
    /// `None` and leaves the previous snapshot untouched.
    pub fn decode_and_cache(&mut self, seq: u32, dib_data: &Vec<u8>) -> (r: Option<
        (String, String, Vec<u8>),
    >)
        ensures
            r is Some <==> dib_decodable(dib_data@),
            r is None ==> *final(self) == *old(self),
            r matches Some(t) ==> ({
                &&& t.2@ == png_of_dib(dib_data@)
                &&& exists|ts: Seq<char>|
                    {
                        &&& #[trigger] store_capture_post(
                            *old(self),
                            *final(self),
                            seq,
                            ts,
                            png_of_dib(dib_data@),
                        )
                        &&& t.0@ == capture_win_path(old(self).temp_dir@, ts)
                        &&& t.1@ == capture_wsl_path(
                            old(self).wsl_temp_dir@,
                            old(self).temp_dir@,
                            ts,
                        )
                    }
            }),
    {
        let png = match convert_dib_to_png(dib_data) {
            Some(p) => p,
            None => {
                return None;
            },
        };

        Some(self.cache_encoded(seq, png))
    }
}

/// An unchanged nonzero sequence number is served from the cache: the
/// capture returned for the number the cache holds is exactly the stored
/// snapshot, so no clipboard read or decode is involved in producing it.
pub proof fn lemma_unchanged_sequence_served_from_cache(m: ClipboardManager, seq: u32)
    requires
        seq != 0,
        m.cache is Some,
        m.cache->Some_0.seq == seq,
    ensures
        cached_capture_spec(m, seq) == Some(
            (m.cache->Some_0.win_path@, m.cache->Some_0.wsl_path@, m.cache->Some_0.png_data@),
        ),
{
}

/// After a successful capture at a nonzero sequence number, a second
/// capture with the same number is byte-identical to the first: the cache
/// serves exactly the values the first capture stored and returned.
pub proof fn lemma_second_capture_identical(
    pre: ClipboardManager,
    post: ClipboardManager,
    seq: u32,
    ts: Seq<char>,
    png: Seq<u8>,
)
    requires
        seq != 0,
        store_capture_post(pre, post, seq, ts, png),
    ensures
        cached_capture_spec(post, seq) == Some(
            (
                capture_win_path(pre.temp_dir@, ts),
                capture_wsl_path(pre.wsl_temp_dir@, pre.temp_dir@, ts),
                png,
            ),
        ),
{
}

/// A capture at a changed sequence number replaces the snapshot
/// wholesale: every field of the cache afterwards belongs to the new
/// capture, whatever snapshot was cached before, so no mixture of old and
/// new paths or bytes can be served.
pub proof fn lemma_capture_replaces_wholesale(
    pre: ClipboardManager,
    post: ClipboardManager,
    seq: u32,
    ts: Seq<char>,
    png: Seq<u8>,
)
    requires
        store_capture_post(pre, post, seq, ts, png),
    ensures
        post.cache is Some,
        post.cache->Some_0.seq == seq,
        post.cache->Some_0.png_data@ == png,
        post.cache->Some_0.win_path@ == capture_win_path(pre.temp_dir@, ts),
        post.cache->Some_0.wsl_path@ == capture_wsl_path(pre.wsl_temp_dir@, pre.temp_dir@, ts),
{
}

/// A failed capture attempt leaves the manager unchanged, so a previously
/// cached valid snapshot is still served, unmodified, on the next capture
/// with its (unchanged, nonzero) sequence number.
pub proof fn lemma_failed_decode_preserves_snapshot(
    pre: ClipboardManager,
    post: ClipboardManager,
    seq: u32,
)
    requires
        post == pre,
        seq != 0,
        pre.cache is Some,
        pre.cache->Some_0.seq == seq,
    ensures
        cached_capture_spec(post, seq) == Some(
            (pre.cache->Some_0.win_path@, pre.cache->Some_0.wsl_path@, pre.cache->Some_0.png_data@),
        ),
{
}

} // verus!
