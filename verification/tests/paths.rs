use wsl_clipboard::wslpath::convert_path_to_wsl;

#[test]
fn drive_path_with_backslashes() {
    assert_eq!(
        convert_path_to_wsl("C:\\Users\\a\\b.png"),
        "/mnt/c/Users/a/b.png"
    );
}

#[test]
fn drive_path_without_backslash_after_colon() {
    assert_eq!(convert_path_to_wsl("D:temp"), "/mnt/d/temp");
}

#[test]
fn relative_path_is_unmappable() {
    assert_eq!(convert_path_to_wsl("relative\\path"), "");
}

#[test]
fn short_inputs_are_unmappable() {
    assert_eq!(convert_path_to_wsl(""), "");
    assert_eq!(convert_path_to_wsl("C:"), "");
    assert_eq!(convert_path_to_wsl("ab"), "");
}

#[test]
fn drive_letter_is_lower_cased() {
    assert_eq!(convert_path_to_wsl("X:\\f"), "/mnt/x/f");
    assert_eq!(convert_path_to_wsl("x:\\f"), "/mnt/x/f");
}

#[test]
fn surrounding_quotes_are_stripped() {
    assert_eq!(
        convert_path_to_wsl("\"C:\\Temp\\shot.png\""),
        "/mnt/c/Temp/shot.png"
    );
}

#[test]
fn a_single_leading_separator_is_dropped() {
    // One separator beyond the drive pattern is stripped...
    assert_eq!(convert_path_to_wsl("C:\\\\a"), "/mnt/c/a");
    assert_eq!(convert_path_to_wsl("D:/already/forward"), "/mnt/d/already/forward");
    // ...but only a single one: further separators stay in the result.
    assert_eq!(convert_path_to_wsl("C:\\\\\\a"), "/mnt/c//a");
    assert_eq!(convert_path_to_wsl("D://x"), "/mnt/d//x");
}

#[test]
fn drive_must_be_an_ascii_letter() {
    assert_eq!(convert_path_to_wsl("1:\\x"), "");
    assert_eq!(convert_path_to_wsl("::x"), "");
    assert_eq!(convert_path_to_wsl("$:\\x"), "");
}

#[test]
fn root_of_drive_maps_to_mount_root() {
    assert_eq!(convert_path_to_wsl("C:\\"), "/mnt/c/");
}

#[test]
fn mixed_separators_all_become_forward() {
    assert_eq!(convert_path_to_wsl("E:\\a/b\\c"), "/mnt/e/a/b/c");
}

#[test]
fn non_drive_first_character_is_unmappable() {
    assert_eq!(convert_path_to_wsl("\\\\server\\share"), "");
    assert_eq!(convert_path_to_wsl("/unix/path"), "");
}
