use get_paper::paths::Platform;
use get_paper::settings::{
    base_dir, base_dir_from_home, config_content, default_save_dir_from_home,
    get_default_save_dir, ConfigError, Settings, APP_ID, CONFIG_PATH, DEFAULT_HEIGHT,
    DEFAULT_SAVE_DIR, DEFAULT_WIDTH,
};

const CWD: &str = "/work";

#[test]
fn data_directory_per_platform() {
    assert_eq!(
        base_dir_from_home(Some("C:\\Users\\u"), Platform::Windows),
        "C:\\Users\\u\\AppData\\Local\\com.iewnfod.getPaperRs"
    );
    assert_eq!(
        base_dir_from_home(Some("/Users/u"), Platform::MacOs),
        "/Users/u/Library/Application Support/com.iewnfod.getPaperRs"
    );
    assert_eq!(base_dir_from_home(Some("/home/u"), Platform::Other), "/home/u/com.iewnfod.getPaperRs");
    assert_eq!(base_dir_from_home(None, Platform::Other), "com.iewnfod.getPaperRs");
    assert_eq!(base_dir_from_home(None, Platform::Windows), APP_ID);
}

#[test]
fn data_directory_of_this_user() {
    let b = base_dir(Platform::Other).unwrap();
    assert!(b.ends_with(APP_ID));
    let d = get_default_save_dir(Platform::Other, CWD).unwrap();
    assert!(d.starts_with('/'));
    assert!(d.ends_with(&format!("{}/{}", APP_ID, DEFAULT_SAVE_DIR)));
    assert_eq!(CONFIG_PATH, "config.txt");
}

#[test]
fn default_save_directory_is_absolute() {
    assert_eq!(
        default_save_dir_from_home(Some("/home/u"), Platform::Other, CWD),
        "/home/u/com.iewnfod.getPaperRs/PastPapers"
    );
    assert_eq!(
        default_save_dir_from_home(None, Platform::Other, CWD),
        "/work/com.iewnfod.getPaperRs/PastPapers"
    );
    assert_eq!(
        default_save_dir_from_home(Some("rel"), Platform::Other, CWD),
        "/work/rel/com.iewnfod.getPaperRs/PastPapers"
    );
    assert_eq!(
        default_save_dir_from_home(None, Platform::Windows, "C:\\w"),
        "C:\\w\\com.iewnfod.getPaperRs\\PastPapers"
    );
    assert_eq!(
        default_save_dir_from_home(Some("C:\\Users\\u"), Platform::Windows, "D:\\w"),
        "C:\\Users\\u\\AppData\\Local\\com.iewnfod.getPaperRs\\PastPapers"
    );
    assert_eq!(
        default_save_dir_from_home(Some("\\Users\\u"), Platform::Windows, "D:\\w"),
        "D:\\Users\\u\\AppData\\Local\\com.iewnfod.getPaperRs\\PastPapers"
    );
}

#[test]
fn settings_start_at_the_defaults() {
    let s = Settings::new();
    assert!(s.save_dir.is_none());
    assert_eq!((s.width, s.height), (DEFAULT_WIDTH, DEFAULT_HEIGHT));
    assert_eq!((s.width, s.height), (1000, 950));
    assert_eq!(s.get_save_dir(Platform::Other, CWD), get_default_save_dir(Platform::Other, CWD));
    assert_eq!(
        s.save_dir_from_home(Some("/h"), Platform::Other, CWD),
        default_save_dir_from_home(Some("/h"), Platform::Other, CWD)
    );
}

#[test]
fn chosen_save_directory_wins() {
    let mut s = Settings::new();
    s.save_dir = Some("/data/papers".to_string());
    assert_eq!(s.get_save_dir(Platform::Other, CWD), Ok("/data/papers".to_string()));
    assert_eq!(s.save_dir_from_home(None, Platform::Other, CWD), "/data/papers");
    s.save_dir = Some("papers".to_string());
    assert_eq!(s.get_save_dir(Platform::Other, CWD), Ok("/work/papers".to_string()));
}

#[test]
fn configuration_text_layout() {
    assert_eq!(config_content("/a", 1000, 950), "\nsave_dir=/a\nwidth=1000\nheight=950");
    assert_eq!(config_content("", -3, 0), "\nsave_dir=\nwidth=-3\nheight=0");
    let mut s = Settings::new();
    s.save_dir = Some("/p".to_string());
    s.width = 640;
    assert_eq!(s.generate_config_content(Platform::Other, CWD), Ok("\nsave_dir=/p\nwidth=640\nheight=950".to_string()));
    let d = get_default_save_dir(Platform::Other, CWD).unwrap();
    assert_eq!(s.default_config_content(Platform::Other, CWD), Ok(format!("\nsave_dir={}\nwidth=640\nheight=950", d)));
    s.save_dir = None;
    assert_eq!(s.generate_config_content(Platform::Other, CWD), s.default_config_content(Platform::Other, CWD));
}

#[test]
fn configuration_reads_back() {
    for (dir, w, h) in [("/home/u/PastPapers", 1000, 950), ("C:\\x y", -1, i32::MAX), ("", i32::MIN, 0)] {
        let mut s = Settings::new();
        s.save_dir = Some("/old".to_string());
        s.width = 5;
        assert_eq!(s.apply_config(&config_content(dir, w, h)), Ok(()));
        assert_eq!(s.save_dir.as_deref(), Some(dir));
        assert_eq!((s.width, s.height), (w, h));
    }
}

#[test]
fn configuration_lines_are_trimmed_and_later_lines_win() {
    let mut s = Settings::new();
    let text = "  \n width = 12 \r\nsave_dir =  /a b \nfoo=bar\nwidth=13\n\t";
    assert_eq!(s.apply_config(text), Ok(()));
    assert_eq!(s.save_dir.as_deref(), Some("/a b"));
    assert_eq!((s.width, s.height), (13, 950));
}

#[test]
fn configuration_value_ends_at_a_second_equals_sign() {
    let mut s = Settings::new();
    assert_eq!(s.apply_config("save_dir=/a=b\nheight=7=8"), Ok(()));
    assert_eq!(s.save_dir.as_deref(), Some("/a"));
    assert_eq!(s.height, 7);
}

#[test]
fn configuration_line_without_equals_is_refused() {
    let mut s = Settings::new();
    assert_eq!(s.apply_config("width=3\n\nheight=4"), Err(ConfigError::MissingValue(1)));
    assert!(s.save_dir.is_none());
    assert_eq!((s.width, s.height), (1000, 950));
    assert_eq!(s.apply_config("justtext"), Err(ConfigError::MissingValue(0)));
}

#[test]
fn configuration_bad_number_is_refused() {
    let mut s = Settings::new();
    assert_eq!(s.apply_config("save_dir=/x\nwidth=wide"), Err(ConfigError::BadNumber(1)));
    assert!(s.save_dir.is_none());
    assert_eq!(s.apply_config("height=99999999999"), Err(ConfigError::BadNumber(0)));
    assert_eq!(s.apply_config("height="), Err(ConfigError::BadNumber(0)));
    assert_eq!(s.height, 950);
}

#[test]
fn empty_configuration_changes_nothing() {
    let mut s = Settings::new();
    assert_eq!(s.apply_config(""), Err(ConfigError::MissingValue(0)));
    assert_eq!(s.apply_config("unknown=1"), Ok(()));
    assert_eq!((s.width, s.height), (1000, 950));
}

#[test]
fn what_to_write_to_the_configuration_file() {
    let mut s = Settings::new();
    s.save_dir = Some("/p".to_string());
    assert_eq!(s.config_to_write(true, true, Platform::Other, CWD), Ok(None));
    let d = get_default_save_dir(Platform::Other, CWD).unwrap();
    assert_eq!(
        s.config_to_write(true, false, Platform::Other, CWD),
        Ok(Some(format!("\nsave_dir={}\nwidth=1000\nheight=950", d)))
    );
    assert_eq!(s.config_to_write(false, true, Platform::Other, CWD), Ok(Some("\nsave_dir=/p\nwidth=1000\nheight=950".to_string())));
    assert_eq!(s.config_to_write(false, false, Platform::Other, CWD), Ok(Some("\nsave_dir=/p\nwidth=1000\nheight=950".to_string())));
}

#[test]
fn lines_with_other_keys_change_nothing() {
    let mut s = Settings::new();
    let text = format!("{}\ncolour=red\n theme = dark  \nx=", config_content("/p", 800, 600));
    assert_eq!(s.apply_config(&text), Ok(()));
    assert_eq!(s.save_dir.as_deref(), Some("/p"));
    assert_eq!((s.width, s.height), (800, 600));
    let mut t = Settings::new();
    assert_eq!(t.apply_config("colour=red\nwidths=5"), Ok(()));
    assert!(t.save_dir.is_none());
    assert_eq!((t.width, t.height), (1000, 950));
}
