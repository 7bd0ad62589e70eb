use launcher_core::display_name;
use launcher_core::query_accepted;
use launcher_core::search_dirs;
use launcher_core::Runnable;

#[test]
fn display_name_takes_last_segment_and_drops_lnk() {
    let r = display_name("C:\\Users\\me\\Desktop\\Firefox.lnk", '\\');
    assert_eq!(r.as_str(), "Firefox");
}

#[test]
fn display_name_without_separator_keeps_whole_path() {
    let r = display_name("notepad.exe", '\\');
    assert_eq!(r.as_str(), "notepad.exe");
}

#[test]
fn display_name_drops_every_lnk_occurrence() {
    assert_eq!(display_name("a\\b.lnk.lnk", '\\').as_str(), "b");
    assert_eq!(display_name("a\\we.lnkird.exe", '\\').as_str(), "weird.exe");
}

#[test]
fn display_name_of_trailing_separator_is_empty() {
    assert_eq!(display_name("C:\\Apps\\", '\\').as_str(), "");
}

#[test]
fn display_name_honours_given_separator() {
    assert_eq!(display_name("/usr/bin/gimp", '/').as_str(), "gimp");
}

#[test]
fn short_queries_are_rejected() {
    assert!(!query_accepted(""));
    assert!(!query_accepted("a"));
    assert!(!query_accepted("  a  "));
    assert!(!query_accepted(" \t\n "));
}

#[test]
fn two_bytes_of_text_are_enough() {
    assert!(query_accepted("ab"));
    assert!(query_accepted("  ab  "));
    // One two-byte character passes the byte threshold.
    assert!(query_accepted("é"));
}

#[test]
fn search_dirs_name_desktop_and_both_start_menus() {
    let dirs = search_dirs("C:\\Users\\me", "C:\\Users\\me\\AppData\\Roaming", "C:\\ProgramData");
    assert_eq!(
        dirs,
        vec![
            "C:\\Users\\me\\Desktop".to_string(),
            "C:\\Users\\me\\AppData\\Roaming\\Microsoft\\Windows\\Start Menu\\Programs".to_string(),
            "C:\\ProgramData\\Microsoft\\Windows\\Start Menu\\Programs".to_string(),
        ]
    );
}

#[test]
fn runnable_keeps_name_and_path() {
    let r = Runnable::new("Firefox".to_string(), "C:\\Apps\\firefox.exe".to_string());
    assert_eq!(r.name().as_str(), "Firefox");
    assert_eq!(r.exec_path().as_str(), "C:\\Apps\\firefox.exe");
}
