use get_paper::events::Message;
use get_paper::subjects::{parse_year, subject_choices, subject_code, KINDS};

#[test]
fn codes_come_before_the_dash() {
    assert_eq!(subject_code("9709 - Mathematics (AS-A2)"), "9709");
    assert_eq!(subject_code("no separator"), "no separator");
    assert_eq!(subject_code(" - x"), "");
    assert_eq!(subject_code("a - b - c"), "a");
    assert_eq!(subject_code("a -b - c"), "a -b");
    assert_eq!(subject_code(""), "");
}

#[test]
fn every_kind_has_a_four_digit_code() {
    assert_eq!(KINDS.len(), 36);
    for k in KINDS {
        let c = subject_code(k);
        assert_eq!(c, k.split(" - ").next().unwrap());
        assert_eq!(c.len(), 4);
    }
}

#[test]
fn choices_pair_ticks_with_codes_and_names() {
    let mut ticked = vec![false; 36];
    ticked[32] = true;
    let c = subject_choices(&ticked);
    assert_eq!(c.len(), 36);
    assert_eq!(c[32], (true, "9709".to_string(), "9709 - Mathematics (AS-A2)".to_string()));
    assert_eq!(c[0], (false, "0413".to_string(), "0413 - Physical Education (IGCSE)".to_string()));
}

#[test]
fn years_parse_like_isize() {
    assert_eq!(parse_year("2022"), Some(2022));
    assert_eq!(parse_year("+2022"), Some(2022));
    assert_eq!(parse_year(""), None);
    assert_eq!(parse_year(" 2022"), None);
    assert_eq!(parse_year("twenty"), None);
}

#[test]
fn messages_compare() {
    assert_eq!(Message::Start, Message::Start);
    assert_ne!(Message::Start, Message::Stop);
    let all = [Message::Start, Message::Stop, Message::Open, Message::ChangeSavePath, Message::ResetSavePath];
    assert_eq!(all.len(), 5);
}
