use wsl_clipboard::clipboard::ClipboardManager;

fn sample_dib() -> Vec<u8> {
    let mut d = Vec::new();
    d.extend_from_slice(&40u32.to_le_bytes());
    d.extend_from_slice(&1i32.to_le_bytes());
    d.extend_from_slice(&1i32.to_le_bytes());
    d.extend_from_slice(&1u16.to_le_bytes());
    d.extend_from_slice(&24u16.to_le_bytes());
    d.extend_from_slice(&[0u8; 24]);
    d.extend_from_slice(&[10, 20, 30, 0]); // one BGR pixel, padded
    d
}

#[test]
fn new_manager_precomputes_remapped_directory() {
    let mgr = ClipboardManager::new(String::from("C:\\Temp"));
    assert_eq!(mgr.temp_dir, "C:\\Temp");
    assert_eq!(mgr.wsl_temp_dir, "/mnt/c/Temp");
    assert!(mgr.cache.is_none());
}

#[test]
fn store_capture_builds_both_paths() {
    let mut mgr = ClipboardManager::new(String::from("C:\\Temp"));
    let (win, wsl, png) = mgr.store_capture(5, "20240101_120000_123", vec![9, 8, 7]);
    assert_eq!(win, "C:\\Temp\\clip_20240101_120000_123.png");
    assert_eq!(wsl, "/mnt/c/Temp/clip_20240101_120000_123.png");
    assert_eq!(png, vec![9, 8, 7]);
}

#[test]
fn store_capture_falls_back_when_directory_unmappable() {
    let mut mgr = ClipboardManager::new(String::from("relative\\dir"));
    assert_eq!(mgr.wsl_temp_dir, "");
    let (win, wsl, _) = mgr.store_capture(5, "ts", vec![1]);
    assert_eq!(win, "relative\\dir\\clip_ts.png");
    // The whole native path is remapped instead; it has no drive letter,
    // so the remapped form stays empty.
    assert_eq!(wsl, "");
}

#[test]
fn unchanged_sequence_is_served_from_cache_byte_identical() {
    let mut mgr = ClipboardManager::new(String::from("C:\\Temp"));
    let (win, wsl, png) = mgr.store_capture(5, "ts1", vec![1, 2, 3]);
    let (cwin, cwsl, cpng) = mgr.cached_capture(5).unwrap();
    assert_eq!(cwin, win);
    assert_eq!(cwsl, wsl);
    assert_eq!(cpng, png);
}

#[test]
fn other_sequence_numbers_miss() {
    let mut mgr = ClipboardManager::new(String::from("C:\\Temp"));
    mgr.store_capture(5, "ts1", vec![1, 2, 3]);
    assert!(mgr.cached_capture(6).is_none());
    assert!(mgr.cached_capture(4).is_none());
}

#[test]
fn zero_sequence_is_never_served() {
    let mut mgr = ClipboardManager::new(String::from("C:\\Temp"));
    mgr.store_capture(0, "ts1", vec![1, 2, 3]);
    assert!(mgr.cached_capture(0).is_none());
}

#[test]
fn empty_cache_misses() {
    let mgr = ClipboardManager::new(String::from("C:\\Temp"));
    assert!(mgr.cached_capture(5).is_none());
}

#[test]
fn changed_sequence_replaces_snapshot_wholesale() {
    let mut mgr = ClipboardManager::new(String::from("C:\\Temp"));
    mgr.store_capture(5, "old", vec![1, 1, 1]);
    mgr.store_capture(7, "new", vec![2, 2, 2]);

    // The old snapshot is gone entirely.
    assert!(mgr.cached_capture(5).is_none());

    // The served snapshot is the new one in every component: no mixture
    // of old and new paths or bytes.
    let (win, wsl, png) = mgr.cached_capture(7).unwrap();
    assert_eq!(win, "C:\\Temp\\clip_new.png");
    assert_eq!(wsl, "/mnt/c/Temp/clip_new.png");
    assert_eq!(png, vec![2, 2, 2]);
}

#[test]
fn decode_and_cache_success_populates_cache() {
    let mut mgr = ClipboardManager::new(String::from("C:\\Temp"));
    let (win, wsl, png) = mgr.decode_and_cache(9, &sample_dib()).unwrap();
    assert!(win.starts_with("C:\\Temp\\clip_"));
    assert!(win.ends_with(".png"));
    assert!(wsl.starts_with("/mnt/c/Temp/clip_"));
    assert!(wsl.ends_with(".png"));

    // The produced bytes decode back to the single pixel of the input
    // (stored blue-green-red, decoded red-green-blue).
    let img = image::load_from_memory(&png).unwrap();
    assert_eq!(img.to_rgb8().into_raw(), vec![30, 20, 10]);

    let (cwin, cwsl, cpng) = mgr.cached_capture(9).unwrap();
    assert_eq!(cwin, win);
    assert_eq!(cwsl, wsl);
    assert_eq!(cpng, png);
}

#[test]
fn cache_encoded_stamps_and_stores() {
    let mut mgr = ClipboardManager::new(String::from("C:\\Temp"));
    let (win, wsl, png) = mgr.cache_encoded(11, vec![3, 1, 4]);
    assert!(win.starts_with("C:\\Temp\\clip_"));
    assert!(win.ends_with(".png"));
    assert!(wsl.starts_with("/mnt/c/Temp/clip_"));
    assert!(wsl.ends_with(".png"));
    assert_eq!(png, vec![3, 1, 4]);

    let (cwin, cwsl, cpng) = mgr.cached_capture(11).unwrap();
    assert_eq!(cwin, win);
    assert_eq!(cwsl, wsl);
    assert_eq!(cpng, png);
}

#[test]
fn failed_decode_leaves_previous_snapshot_retrievable() {
    let mut mgr = ClipboardManager::new(String::from("C:\\Temp"));
    let (win, wsl, png) = mgr.store_capture(5, "kept", vec![4, 5, 6]);

    // An undecodable buffer must fail and must not evict the snapshot.
    assert!(mgr.decode_and_cache(6, &vec![0u8; 10]).is_none());

    let (cwin, cwsl, cpng) = mgr.cached_capture(5).unwrap();
    assert_eq!(cwin, win);
    assert_eq!(cwsl, wsl);
    assert_eq!(cpng, png);
}

#[test]
fn returned_snapshot_is_an_independent_copy() {
    let mut mgr = ClipboardManager::new(String::from("C:\\Temp"));
    mgr.store_capture(5, "ts1", vec![1, 2, 3]);
    let (_, _, mut png) = mgr.cached_capture(5).unwrap();
    png.push(99);
    // Mutating the returned copy does not change what the cache serves.
    let (_, _, again) = mgr.cached_capture(5).unwrap();
    assert_eq!(again, vec![1, 2, 3]);
}
