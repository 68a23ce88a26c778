use get_paper::network::{
    download_outcome, fetch_plan, request_start, request_stop, season, start, Command, DownloadTask, FetchPlan,
    SearchReply, Step, FETCH_URL, SEARCH_URL, SUBJECT_URL,
};
use get_paper::paths::Platform;

fn subjects() -> Vec<(bool, String, String)> {
    vec![
        (false, "0413".to_string(), "0413 - Physical Education (IGCSE)".to_string()),
        (true, "9709".to_string(), "9709 - Mathematics (AS-A2)".to_string()),
        (false, "9702".to_string(), "9702 - Physics (AS-A2)".to_string()),
        (true, "9231".to_string(), "9231 - Further Mathematics (AS-A2)".to_string()),
    ]
}

fn search_of(step: &Step) -> (String, String, String) {
    match &step.command {
        Command::Search { code, year, season } => (code.clone(), year.clone(), season.clone()),
        _ => panic!("expected a search, got status {:?}", step.status),
    }
}

fn empty_reply() -> SearchReply {
    SearchReply { status: Some(0), files: Some(vec![]) }
}

fn reply(files: &[&str]) -> SearchReply {
    SearchReply { status: Some(0), files: Some(files.iter().map(|f| f.to_string()).collect()) }
}

#[test]
fn urls_and_seasons() {
    assert_eq!(FETCH_URL, "https://cie.fraft.cn/obj/Fetch/redir");
    assert_eq!(SEARCH_URL, "https://cie.fraft.cn/obj/Fetch/renum");
    assert_eq!(SUBJECT_URL, "https://cie.fraft.cn/obj/Combo/subject");
    assert_eq!([season(0), season(1), season(2), season(3)], ["Jun", "Nov", "Mar", "Gen"]);
}

#[test]
fn searches_go_subject_by_year_by_season() {
    let (mut task, mut step) = start(2021, 2022, subjects(), Platform::Other);
    let mut seen = vec![];
    loop {
        match &step.command {
            Command::Search { .. } => {
                seen.push(search_of(&step));
                step = task.on_search(empty_reply(), true, "/p");
            }
            Command::Finish => break,
            _ => panic!("unexpected step"),
        }
    }
    let mut want = vec![];
    for code in ["9709", "9231"] {
        for year in ["2021", "2022"] {
            for s in ["Jun", "Nov", "Mar", "Gen"] {
                want.push((code.to_string(), year.to_string(), s.to_string()));
            }
        }
    }
    assert_eq!(seen, want);
    assert_eq!(step.status, "Finish");
}

#[test]
fn search_status_names_the_subject() {
    let (_task, step) = start(2022, 2022, subjects(), Platform::Other);
    assert_eq!(step.status, "Searching: 9709 - Mathematics (AS-A2) | 2022 | Jun");
}

#[test]
fn nothing_to_search_finishes_at_once() {
    let none: Vec<(bool, String, String)> = subjects().into_iter().map(|(_, c, n)| (false, c, n)).collect();
    let (_t, step) = start(2020, 2022, none, Platform::Other);
    assert!(matches!(step.command, Command::Finish));
    assert_eq!(step.status, "Finish");
    let (_t, step) = start(2023, 2022, subjects(), Platform::Other);
    assert!(matches!(step.command, Command::Finish));
}

#[test]
fn replies_that_are_not_ok_are_passed_over() {
    let (mut task, _) = start(2022, 2022, subjects(), Platform::Other);
    let step = task.on_search(SearchReply { status: Some(1), files: Some(vec!["\"a.pdf\"".to_string()]) }, true, "/p");
    assert_eq!(search_of(&step).2, "Nov");
    let step = task.on_search(SearchReply { status: None, files: Some(vec!["\"a.pdf\"".to_string()]) }, true, "/p");
    assert_eq!(search_of(&step).2, "Mar");
    let step = task.on_search(SearchReply { status: Some(0), files: None }, true, "/p");
    assert_eq!(search_of(&step).2, "Gen");
}

#[test]
fn files_are_downloaded_into_subject_and_year_folders() {
    let (mut task, _) = start(2022, 2022, subjects(), Platform::Other);
    let step = task.on_search(reply(&["\"9709_s22_qp_11.pdf\"", "\"9709_s22_ms_11.pdf\""]), true, "/home/u/PastPapers");
    match &step.command {
        Command::Download { url, save_path } => {
            assert_eq!(url, "https://cie.fraft.cn/obj/Fetch/redir9709_s22_qp_11.pdf");
            assert_eq!(save_path, "/home/u/PastPapers/9709 - Mathematics (AS-A2)/2022/9709_s22_qp_11.pdf");
        }
        _ => panic!("expected a download"),
    }
    assert_eq!(step.status, "Downloading: /home/u/PastPapers/9709 - Mathematics (AS-A2)/2022/9709_s22_qp_11.pdf");
    let step = task.on_download(true, true, "/home/u/PastPapers");
    match &step.command {
        Command::Download { url, .. } => assert_eq!(url, "https://cie.fraft.cn/obj/Fetch/redir9709_s22_ms_11.pdf"),
        _ => panic!("expected a download"),
    }
    let step = task.on_download(true, true, "/home/u/PastPapers");
    assert_eq!(search_of(&step), ("9709".to_string(), "2022".to_string(), "Nov".to_string()));
}

#[test]
fn failed_downloads_are_retried() {
    let (mut task, _) = start(2022, 2022, subjects(), Platform::Other);
    task.on_search(reply(&["\"a.pdf\""]), true, "/p");
    for _ in 0..3 {
        let step = task.on_download(false, true, "/p");
        match &step.command {
            Command::Retry { url, save_path } => {
                assert_eq!(url, "https://cie.fraft.cn/obj/Fetch/redira.pdf");
                assert_eq!(save_path, "/p/9709 - Mathematics (AS-A2)/2022/a.pdf");
            }
            _ => panic!("expected a retry"),
        }
        assert_eq!(step.status, "Retry: /p/9709 - Mathematics (AS-A2)/2022/a.pdf");
    }
    let step = task.on_download(true, true, "/p");
    assert_eq!(search_of(&step).2, "Nov");
}

#[test]
fn a_stop_request_ends_the_task_at_the_next_file() {
    let (mut task, _) = start(2022, 2022, subjects(), Platform::Other);
    let step = task.on_search(reply(&["\"a.pdf\""]), false, "/p");
    assert!(matches!(step.command, Command::Stop));
    assert_eq!(step.status, "Stopped");

    let (mut task, _) = start(2022, 2022, subjects(), Platform::Other);
    task.on_search(reply(&["\"a.pdf\"", "\"b.pdf\""]), true, "/p");
    let step = task.on_download(true, false, "/p");
    assert!(matches!(step.command, Command::Stop));
}

#[test]
fn a_stop_request_is_only_seen_at_a_file() {
    let (mut task, _) = start(2022, 2022, subjects(), Platform::Other);
    let step = task.on_search(empty_reply(), false, "/p");
    assert_eq!(search_of(&step).2, "Nov");
}

#[test]
fn save_directory_is_read_at_each_file() {
    let (mut task, _) = start(2022, 2022, subjects(), Platform::Other);
    task.on_search(reply(&["\"a.pdf\"", "\"b.pdf\""]), true, "/one");
    let step = task.on_download(true, true, "/two");
    match &step.command {
        Command::Download { save_path, .. } => assert_eq!(save_path, "/two/9709 - Mathematics (AS-A2)/2022/b.pdf"),
        _ => panic!("expected a download"),
    }
}

#[test]
fn entries_keep_their_json_escapes_and_odd_values_lose_two_characters() {
    let (mut task, _) = start(2022, 2022, subjects(), Platform::Other);
    let step = task.on_search(reply(&["\"a\\\"b.pdf\""]), true, "/p");
    match &step.command {
        Command::Download { url, .. } => assert_eq!(url, "https://cie.fraft.cn/obj/Fetch/redira\\\"b.pdf"),
        _ => panic!("expected a download"),
    }
    let (mut task, _) = start(2022, 2022, subjects(), Platform::Other);
    let step = task.on_search(reply(&["null"]), true, "/p");
    match &step.command {
        Command::Download { url, .. } => assert_eq!(url, "https://cie.fraft.cn/obj/Fetch/redirul"),
        _ => panic!("expected a download"),
    }
}

#[test]
fn an_entry_too_short_for_a_name_cannot_be_read() {
    let (mut task, _) = start(2022, 2022, subjects(), Platform::Other);
    let step = task.on_search(reply(&["5"]), true, "/p");
    match &step.command {
        Command::BadEntry { entry } => assert_eq!(entry, "5"),
        _ => panic!("expected a bad entry"),
    }
}

#[test]
fn windows_paths_use_backslashes() {
    let (mut task, _) = start(2022, 2022, subjects(), Platform::Windows);
    let step = task.on_search(reply(&["\"a.pdf\""]), true, "C:\\p");
    match &step.command {
        Command::Download { save_path, .. } => assert_eq!(save_path, "C:\\p\\9709 - Mathematics (AS-A2)\\2022\\a.pdf"),
        _ => panic!("expected a download"),
    }
}

#[test]
fn last_search_of_last_subject_finishes() {
    let (mut task, _): (DownloadTask, Step) = start(2022, 2022, subjects(), Platform::Other);
    let mut last = String::new();
    for _ in 0..7 {
        let step = task.on_search(empty_reply(), true, "/p");
        last = search_of(&step).0;
    }
    assert_eq!(last, "9231");
    let step = task.on_search(empty_reply(), true, "/p");
    assert!(matches!(step.command, Command::Finish));
}

#[test]
fn downloads_fetch_skip_or_stop() {
    assert_eq!(fetch_plan(false, false), FetchPlan::Stop);
    assert_eq!(fetch_plan(false, true), FetchPlan::Stop);
    assert_eq!(fetch_plan(true, true), FetchPlan::Skip);
    assert_eq!(fetch_plan(true, false), FetchPlan::Fetch);
}

#[test]
fn start_and_stop_requests() {
    let (go, text) = request_start(false);
    assert!(go);
    assert_eq!(text, "Start!");
    let (go, text) = request_start(true);
    assert!(!go);
    assert_eq!(text, "Last download has not finished. Please try again after it is finished. ");
    assert_eq!(request_stop(true), Some("Trying to stop".to_string()));
    assert_eq!(request_stop(false), None);
}

#[test]
fn search_replies_are_read_from_json() {
    let (mut task, _) = start(2022, 2022, subjects(), Platform::Other);
    let step = task
        .on_search_response(r#"{"status":0,"data":[["9709_s22_qp_11.pdf",3],["9709_s22_ms_11.pdf"]]}"#, true, "/p")
        .unwrap();
    match &step.command {
        Command::Download { url, save_path } => {
            assert_eq!(url, "https://cie.fraft.cn/obj/Fetch/redir9709_s22_qp_11.pdf");
            assert_eq!(save_path, "/p/9709 - Mathematics (AS-A2)/2022/9709_s22_qp_11.pdf");
        }
        _ => panic!("expected a download"),
    }
}

#[test]
fn search_replies_with_another_status_are_passed_over() {
    let (mut task, _) = start(2022, 2022, subjects(), Platform::Other);
    let step = task.on_search_response(r#"{"status":"0","data":[["a.pdf"]]}"#, true, "/p").unwrap();
    assert_eq!(search_of(&step).2, "Nov");
    let step = task.on_search_response(r#"{"status":1,"data":[["a.pdf"]]}"#, true, "/p").unwrap();
    assert_eq!(search_of(&step).2, "Mar");
    let step = task.on_search_response(r#"{"status":0,"data":{}}"#, true, "/p").unwrap();
    assert_eq!(search_of(&step).2, "Gen");
}

#[test]
fn search_reply_entries_are_json_texts() {
    let (mut task, _) = start(2022, 2022, subjects(), Platform::Other);
    let step = task.on_search_response(r#"{"status":0,"data":["plain"]}"#, true, "/p").unwrap();
    match &step.command {
        Command::Download { url, .. } => assert_eq!(url, "https://cie.fraft.cn/obj/Fetch/redirul"),
        _ => panic!("expected a download"),
    }
    let (mut task, _) = start(2022, 2022, subjects(), Platform::Other);
    let step = task.on_search_response(r#"{"status":0,"data":[[7]]}"#, true, "/p").unwrap();
    match &step.command {
        Command::BadEntry { entry } => assert_eq!(entry, "7"),
        _ => panic!("expected a bad entry"),
    }
}

#[test]
fn a_reply_that_is_no_json_is_refused() {
    let (mut task, _) = start(2022, 2022, subjects(), Platform::Other);
    assert!(task.on_search_response("<html>busy</html>", true, "/p").is_none());
    let step = task.on_search_response(r#"{"status":0,"data":[]}"#, true, "/p").unwrap();
    assert_eq!(search_of(&step).2, "Nov");
}

#[test]
fn a_failed_download_after_a_stop_request_ends_the_task() {
    let (mut task, _) = start(2022, 2022, subjects(), Platform::Other);
    task.on_search(reply(&["\"a.pdf\"", "\"b.pdf\""]), true, "/p");
    let step = task.on_download(false, false, "/p");
    assert!(matches!(step.command, Command::Stop));
    assert_eq!(step.status, "Stopped");
}

#[test]
fn download_outcomes() {
    assert!(!download_outcome(FetchPlan::Stop, true));
    assert!(!download_outcome(FetchPlan::Stop, false));
    assert!(download_outcome(FetchPlan::Skip, false));
    assert!(download_outcome(FetchPlan::Fetch, true));
    assert!(!download_outcome(FetchPlan::Fetch, false));
}

#[test]
fn the_last_year_may_be_the_largest_when_nothing_is_ticked() {
    let none: Vec<(bool, String, String)> = subjects().into_iter().map(|(_, c, n)| (false, c, n)).collect();
    let (_t, step) = start(2020, isize::MAX, none, Platform::Other);
    assert!(matches!(step.command, Command::Finish));
    assert_eq!(step.status, "Finish");
}
