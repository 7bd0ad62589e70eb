use launcher_core::rank::rank_apps;
use launcher_core::Runnable;

fn paths(items: &[&str]) -> Vec<String> {
    items.iter().map(|s| s.to_string()).collect()
}

fn names(results: &[Runnable]) -> Vec<String> {
    results.iter().map(|r| r.name().clone()).collect()
}

fn execs(results: &[Runnable]) -> Vec<String> {
    results.iter().map(|r| r.exec_path().clone()).collect()
}

#[test]
fn empty_list_gives_no_results() {
    let r = rank_apps("fire", Vec::new(), '\\');
    assert!(r.is_empty());
}

#[test]
fn matching_path_ranks_above_unrelated_path() {
    let apps = paths(&["C:\\Apps\\notepad.exe", "C:\\Apps\\firefox.exe"]);
    let r = rank_apps("fire", apps, '\\');
    assert_eq!(r.len(), 2);
    assert_eq!(
        execs(&r),
        vec![
            "C:\\Apps\\firefox.exe".to_string(),
            "C:\\Apps\\notepad.exe".to_string()
        ]
    );
    assert_eq!(
        names(&r),
        vec!["firefox.exe".to_string(), "notepad.exe".to_string()]
    );
}

#[test]
fn equal_weights_put_later_entry_first() {
    // Neither path matches the query, so both weigh 0 and the
    // entry discovered later comes out first.
    let apps = paths(&["C:\\Apps\\alpha.exe", "C:\\Apps\\beta.exe"]);
    let r = rank_apps("qqqq", apps, '\\');
    assert_eq!(
        execs(&r),
        vec![
            "C:\\Apps\\beta.exe".to_string(),
            "C:\\Apps\\alpha.exe".to_string()
        ]
    );
}

#[test]
fn results_are_cut_to_ten() {
    let all: Vec<String> = (0..12).map(|i| format!("C:\\Apps\\tool{:02}.exe", i)).collect();
    // No path matches the query: all weights are 0, so the order is
    // purely by descending discovery position, cut to ten.
    let r = rank_apps("zzzz", all, '\\');
    assert_eq!(r.len(), 10);
    let expected: Vec<String> = (2..12)
        .rev()
        .map(|i| format!("C:\\Apps\\tool{:02}.exe", i))
        .collect();
    assert_eq!(execs(&r), expected);
}

#[test]
fn shortcut_suffix_is_dropped_from_names() {
    let apps = paths(&["C:\\Users\\me\\Desktop\\Mail Client.lnk"]);
    let r = rank_apps("mail", apps, '\\');
    assert_eq!(r.len(), 1);
    assert_eq!(r[0].name().as_str(), "Mail Client");
    assert_eq!(r[0].exec_path().as_str(), "C:\\Users\\me\\Desktop\\Mail Client.lnk");
}

#[test]
fn closer_match_outweighs_looser_match() {
    // Both paths contain the query letters, but one holds them as a
    // contiguous run; the fuzzy matcher must put it first.
    let apps = paths(&["C:\\Apps\\f-i-r-e-tool.exe", "C:\\Apps\\firefox.exe"]);
    let r = rank_apps("fire", apps, '\\');
    assert_eq!(r[0].exec_path().as_str(), "C:\\Apps\\firefox.exe");
}
