use get_paper::paths::{
    absolute_chars, drops_item, item_disk_path, join_path, lists_entry, stays_open, tree_item_path_of,
    tree_root_prefix_of, Platform,
};

#[test]
fn join_puts_a_separator_between() {
    assert_eq!(join_path("/home/u", "x", Platform::Other), "/home/u/x");
    assert_eq!(join_path("/home/u/", "x", Platform::Other), "/home/u/x");
    assert_eq!(join_path("", "x", Platform::Other), "x");
    assert_eq!(join_path("a", "", Platform::Other), "a/");
    assert_eq!(join_path("C:\\Users\\u", "x", Platform::Windows), "C:\\Users\\u\\x");
    assert_eq!(join_path("C:\\Users\\u\\", "x", Platform::Windows), "C:\\Users\\u\\x");
    assert_eq!(join_path("C:/Users/u/", "x", Platform::Windows), "C:/Users/u/x");
    assert_eq!(join_path("a\\", "x", Platform::MacOs), "a\\/x");
}

#[test]
fn join_with_a_rooted_part_replaces_the_base() {
    assert_eq!(join_path("/home/u", "/etc", Platform::Other), "/etc");
    assert_eq!(join_path("C:\\u", "\\x", Platform::Windows), "C:\\x");
    assert_eq!(join_path("u", "\\x", Platform::Windows), "\\x");
}

#[test]
fn join_keeps_windows_drives() {
    assert_eq!(join_path("C:", "x", Platform::Windows), "C:x");
    assert_eq!(join_path("C:\\a", "D:y", Platform::Windows), "D:y");
    assert_eq!(join_path("C:\\a", "D:\\y", Platform::Windows), "D:\\y");
    assert_eq!(join_path("C:\\a", "\\\\srv\\share", Platform::Windows), "\\\\srv\\share");
    assert_eq!(join_path("C:", "x", Platform::Other), "C:/x");
}

#[test]
fn join_keeps_network_and_verbatim_prefixes() {
    assert_eq!(join_path("\\\\srv\\share\\a", "\\x", Platform::Windows), "\\\\srv\\share\\x");
    assert_eq!(join_path("//srv/share/a", "/x", Platform::Windows), "//srv/share/x");
    assert_eq!(join_path("\\\\?\\C:\\a", "\\x", Platform::Windows), "\\\\?\\C:\\x");
    assert_eq!(join_path("\\\\?\\UNC\\srv\\sh\\a", "\\x", Platform::Windows), "\\\\?\\UNC\\srv\\sh\\x");
    assert_eq!(join_path("\\\\.\\COM1", "\\x", Platform::Windows), "\\\\.\\COM1\\x");
    assert_eq!(join_path("\\\\?\\pics", "x", Platform::Windows), "\\\\?\\pics\\x");
    assert_eq!(join_path("\\\\?\\C:", "x", Platform::Windows), "\\\\?\\C:\\x");
    assert_eq!(join_path("\\\\srv", "\\x", Platform::Windows), "\\x");
    assert_eq!(join_path("C:\\a", "\\\\?\\D:\\y", Platform::Windows), "\\\\?\\D:\\y");
}

#[test]
fn join_agrees_with_path_join_here() {
    for (a, b) in [("/home/u", "x"), ("/home/u/", "x/y"), ("", "x"), ("a", ""), ("/a", "/b")] {
        let want = std::path::Path::new(a).join(b);
        assert_eq!(join_path(a, b, Platform::Other), want.to_str().unwrap());
    }
}

#[test]
fn tree_paths_start_at_the_save_directory() {
    let save = "/home/u/PastPapers";
    assert_eq!(tree_root_prefix_of(save), "/home/u/");
    assert_eq!(tree_item_path_of(save, "/home/u/PastPapers"), "PastPapers");
    assert_eq!(tree_item_path_of(save, "/home/u/PastPapers/9709/2022/a.pdf"), "PastPapers/9709/2022/a.pdf");
    assert_eq!(tree_item_path_of(save, "/x"), "");
    assert_eq!(tree_item_path_of("PastPapers", "PastPapers/a"), "PastPapers/a");
    assert_eq!(tree_root_prefix_of("PastPapers"), "");
}

#[test]
fn tree_paths_lead_back_to_the_disk() {
    let save = "/home/u/PastPapers";
    for p in ["/home/u/PastPapers", "/home/u/PastPapers/9709 - Mathematics (AS-A2)/2022/x.pdf", "/home/u/other"] {
        let item = tree_item_path_of(save, p);
        assert_eq!(item_disk_path(save, &item), p);
    }
    assert_eq!(item_disk_path(save, "PastPapers/a"), "/home/u/PastPapers/a");
}

#[test]
fn refresh_drops_missing_items_only() {
    assert!(drops_item(false, "/home/u/PastPapers/a"));
    assert!(!drops_item(true, "/home/u/PastPapers/a"));
    assert!(!drops_item(false, ""));
}

#[test]
fn closing_nodes_keeps_the_root_and_the_save_directory_open() {
    assert!(stays_open(true, "anything", "/home/u/PastPapers"));
    assert!(stays_open(false, "PastPapers", "/home/u/PastPapers"));
    assert!(!stays_open(false, "9709", "/home/u/PastPapers"));
    assert!(stays_open(false, "", "/home/u/PastPapers/"));
}

#[test]
fn the_tree_hides_ds_store() {
    assert!(!lists_entry(".DS_Store"));
    assert!(lists_entry("a.pdf"));
    assert!(lists_entry(".DS_Store2"));
}

#[test]
fn paths_are_made_absolute_against_the_current_directory() {
    let cs = |s: &str| s.chars().collect::<Vec<char>>();
    let st = |v: Vec<char>| v.into_iter().collect::<String>();
    assert_eq!(st(absolute_chars(&cs("a/b"), &cs("/w"), Platform::Other)), "/w/a/b");
    assert_eq!(st(absolute_chars(&cs("/a"), &cs("/w"), Platform::Other)), "/a");
    assert_eq!(st(absolute_chars(&cs("a"), &cs("C:\\w"), Platform::Windows)), "C:\\w\\a");
    assert_eq!(st(absolute_chars(&cs("\\a"), &cs("C:\\w"), Platform::Windows)), "C:\\a");
    assert_eq!(st(absolute_chars(&cs("D:\\a"), &cs("C:\\w"), Platform::Windows)), "D:\\a");
    assert_eq!(st(absolute_chars(&cs("\\\\srv\\sh\\a"), &cs("C:\\w"), Platform::Windows)), "\\\\srv\\sh\\a");
    assert_eq!(st(absolute_chars(&cs("D:a"), &cs("C:\\w"), Platform::Windows)), "D:a");
}
