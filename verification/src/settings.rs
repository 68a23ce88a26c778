//! Where the program keeps its files, and the configuration file that
//! remembers the save directory and the window size between runs.
use vstd::prelude::*;
use vstd::string::*;
use crate::number::{
    decimal, decimal_chars, int_in_range, is_digit, lemma_decimal_chars, lemma_int_of_decimal,
    parse_i32,
};
use crate::paths::{
    absolute_chars, absolute_in, is_absolute, join_chars, lemma_absolute_in, path_join, prefix_of,
    windows_prefix, Platform, PrefixKind,
};
use crate::text::{
    chars_eq, chars_of, extend, is_space, lemma_concat_lacks, lemma_split_concat, lemma_split_len,
    lemma_split_no_sep, lemma_trim_end_concat, lemma_trim_end_prefix, lemma_trim_unchanged, split, split_chars, string_of, trim, trim_chars,
    trim_end, trim_start, views,
};

verus! {

/// The name the program's data directory has.
pub const APP_ID: &'static str = "com.iewnfod.getPaperRs";

/// Where, under the home directory, Windows keeps application data.
pub const WINDOWS_DATA_DIR: &'static str = "AppData\\Local";

/// Where, under the home directory, macOS keeps application data.
pub const MACOS_DATA_DIR: &'static str = "Library/Application Support/";

/// The name of the configuration file in the data directory.
pub const CONFIG_PATH: &'static str = "config.txt";

/// The name of the save directory in the data directory, used until another
/// is chosen.
pub const DEFAULT_SAVE_DIR: &'static str = "PastPapers";

/// The window's width until the configuration says otherwise.
pub const DEFAULT_WIDTH: i32 = 1000;

/// The window's height until the configuration says otherwise.
pub const DEFAULT_HEIGHT: i32 = 950;

/// The configuration key of the save directory.
pub const KEY_SAVE_DIR: &'static str = "save_dir";

/// The configuration key of the window's width.
pub const KEY_WIDTH: &'static str = "width";

/// The configuration key of the window's height.
pub const KEY_HEIGHT: &'static str = "height";

// ---------------------------------------------------------------------------
// The data directory
// ---------------------------------------------------------------------------
/// The data directory for the home directory `home` on `p`: the
/// application's folder in the platform's place for application data, or
/// just the application's name where there is no home directory.
pub open spec fn base_dir_of(home: Option<Seq<char>>, p: Platform) -> Seq<char> {
    match home {
        Some(h) => match p {
            Platform::Windows => path_join(path_join(h, WINDOWS_DATA_DIR@, p), APP_ID@, p),
            Platform::MacOs => path_join(path_join(h, MACOS_DATA_DIR@, p), APP_ID@, p),
            Platform::Other => path_join(h, APP_ID@, p),
        },
        None => APP_ID@,
    }
}

/// The default save directory for the home directory `home` on `p`, made
/// absolute against the current directory `cwd`.
pub open spec fn default_save_dir_of(home: Option<Seq<char>>, p: Platform, cwd: Seq<char>) -> Seq<
    char,
> {
    absolute_in(path_join(base_dir_of(home, p), DEFAULT_SAVE_DIR@, p), cwd, p)
}

/// The home directory lookup failed in a way the program cannot go on from.
#[derive(Clone, Copy, Debug, PartialEq, Eq, Structural)]
pub enum HomeError {
    /// The home directory's path is not valid UTF-8.
    NotUnicode,
}

/// What looking up the home directory can find: none, one whose path is not
/// valid UTF-8, or one with this path.
pub open spec fn home_view(h: Option<Option<String>>) -> Option<Option<Seq<char>>> {
    match h {
        Some(Some(s)) => Some(Some(s@)),
        Some(None) => Some(None),
        None => None,
    }
}

/// The data directory for what the home directory lookup found.
pub open spec fn base_dir_in(home: Option<Option<Seq<char>>>, p: Platform) -> Result<
    Seq<char>,
    HomeError,
> {
    match home {
        Some(Some(h)) => Ok(base_dir_of(Some(h), p)),
        Some(None) => Err(HomeError::NotUnicode),
        None => Ok(base_dir_of(None, p)),
    }
}

/// The default save directory for what the home directory lookup found.
pub open spec fn default_save_dir_in(
    home: Option<Option<Seq<char>>>,
    p: Platform,
    cwd: Seq<char>,
) -> Result<Seq<char>, HomeError> {
    match home {
        Some(Some(h)) => Ok(default_save_dir_of(Some(h), p, cwd)),
        Some(None) => Err(HomeError::NotUnicode),
        None => Ok(default_save_dir_of(None, p, cwd)),
    }
}

/// The characters of an optional string.
pub open spec fn opt_view(o: Option<String>) -> Option<Seq<char>> {
    match o {
        Some(s) => Some(s@),
        None => None,
    }
}

/// The characters of a string or the problem met.
pub open spec fn result_view(r: Result<String, HomeError>) -> Result<Seq<char>, HomeError> {
    match r {
        Ok(s) => Ok(s@),
        Err(e) => Err(e),
    }
}

/// The current user's home directory: none, one whose path is not valid
/// UTF-8 (`Some(None)`), or its path.
///
/// Trusted: calls `dirs::home_dir` and converts the path it gives to a
/// string where it is valid UTF-8. What it finds depends on the environment
/// (`$HOME`, the user database, the known folder on Windows), so nothing is
/// claimed of it.
#[verifier::external_body]
fn home_dir() -> (r: Option<Option<String>>) {
    match dirs::home_dir() {
        Some(p) => Some(p.into_os_string().into_string().ok()),
        None => None,
    }
}

/// The data directory for the home directory `home` on `platform`.
pub fn base_dir_from_home(home: Option<&str>, platform: Platform) -> (r: String)
    ensures
        r@ == base_dir_of(
            match home {
                Some(h) => Some(h@),
                None => None,
            },
            platform,
        ),
{
    let id = chars_of(APP_ID);
    match home {
        Some(h) => {
            let hc = chars_of(h);
            let r = match platform {
                Platform::Windows => {
                    let d = chars_of(WINDOWS_DATA_DIR);
                    let a = join_chars(&hc, &d, platform);
                    join_chars(&a, &id, platform)
                },
                Platform::MacOs => {
                    let d = chars_of(MACOS_DATA_DIR);
                    let a = join_chars(&hc, &d, platform);
                    join_chars(&a, &id, platform)
                },
                Platform::Other => join_chars(&hc, &id, platform),
            };
            string_of(&r)
        },
        None => string_of(&id),
    }
}

/// The directory the configuration file is in, for the current user on
/// `platform`; an error where the home directory's path is not valid UTF-8.
pub fn base_dir(platform: Platform) -> (r: Result<String, HomeError>)
    ensures
        exists|home: Option<Option<Seq<char>>>| result_view(r) == base_dir_in(home, platform),
{
    let home = home_dir();
    let r = match &home {
        Some(Some(h)) => Ok(base_dir_from_home(Some(h.as_str()), platform)),
        Some(None) => Err(HomeError::NotUnicode),
        None => Ok(base_dir_from_home(None, platform)),
    };
    assert(result_view(r) == base_dir_in(home_view(home), platform));
    r
}

/// The default save directory for the home directory `home` on `platform`,
/// made absolute against the current directory `cwd`.
pub fn default_save_dir_from_home(home: Option<&str>, platform: Platform, cwd: &str) -> (r: String)
    ensures
        r@ == default_save_dir_of(
            match home {
                Some(h) => Some(h@),
                None => None,
            },
            platform,
            cwd@,
        ),
{
    let b = base_dir_from_home(home, platform);
    let bc = chars_of(b.as_str());
    let d = chars_of(DEFAULT_SAVE_DIR);
    let j = join_chars(&bc, &d, platform);
    let c = chars_of(cwd);
    let a = absolute_chars(&j, &c, platform);
    string_of(&a)
}

/// The absolute path of the save directory used until another is chosen,
/// for the current user on `platform`, with `cwd` the current directory;
/// an error where the home directory's path is not valid UTF-8.
pub fn get_default_save_dir(platform: Platform, cwd: &str) -> (r: Result<String, HomeError>)
    ensures
        exists|home: Option<Option<Seq<char>>>|
            result_view(r) == default_save_dir_in(home, platform, cwd@),
{
    let home = home_dir();
    let r = match &home {
        Some(Some(h)) => Ok(default_save_dir_from_home(Some(h.as_str()), platform, cwd)),
        Some(None) => Err(HomeError::NotUnicode),
        None => Ok(default_save_dir_from_home(None, platform, cwd)),
    };
    assert(result_view(r) == default_save_dir_in(home_view(home), platform, cwd@));
    r
}

// ---------------------------------------------------------------------------
// Settings
// ---------------------------------------------------------------------------
/// What the program remembers between runs.
pub struct Settings {
    /// The directory papers are saved in, once one was chosen.
    pub save_dir: Option<String>,
    /// The window's width.
    pub width: i32,
    /// The window's height.
    pub height: i32,
}

/// The settings as plain values.
pub struct SettingsView {
    pub save_dir: Option<Seq<char>>,
    pub width: i32,
    pub height: i32,
}

impl View for Settings {
    type V = SettingsView;

    open spec fn view(&self) -> SettingsView {
        SettingsView { save_dir: opt_view(self.save_dir), width: self.width, height: self.height }
    }
}

/// A problem with a line of the configuration, numbered from 0 among the
/// lines of the trimmed text.
#[derive(Clone, Copy, Debug, PartialEq, Eq, Structural)]
pub enum ConfigError {
    /// The line holds no `=`.
    MissingValue(usize),
    /// The width or height is no integer that fits an `i32`.
    BadNumber(usize),
}

/// The absolute path of the save directory with settings `m` and home
/// directory `home`: the chosen one, or else the default one.
pub open spec fn save_dir_of(m: SettingsView, home: Option<Seq<char>>, p: Platform, cwd: Seq<char>) -> Seq<
    char,
> {
    match m.save_dir {
        Some(d) => absolute_in(d, cwd, p),
        None => default_save_dir_of(home, p, cwd),
    }
}

/// The save directory with settings `m` for what the home directory lookup
/// found.
pub open spec fn save_dir_in(
    m: SettingsView,
    home: Option<Option<Seq<char>>>,
    p: Platform,
    cwd: Seq<char>,
) -> Result<Seq<char>, HomeError> {
    match m.save_dir {
        Some(d) => Ok(absolute_in(d, cwd, p)),
        None => default_save_dir_in(home, p, cwd),
    }
}

/// The configuration text for a save directory, or the problem met finding
/// it.
pub open spec fn text_in(dir: Result<Seq<char>, HomeError>, width: int, height: int) -> Result<
    Seq<char>,
    HomeError,
> {
    match dir {
        Ok(d) => Ok(config_text(d, width, height)),
        Err(e) => Err(e),
    }
}

/// What is to be written, or the problem met: `Ok` with no text where
/// nothing is.
pub open spec fn written_view(r: Result<Option<String>, HomeError>) -> Result<Seq<char>, HomeError> {
    match r {
        Ok(Some(t)) => Ok(t@),
        Ok(None) => Ok(Seq::empty()),
        Err(e) => Err(e),
    }
}

/// One line of the configuration file: a line break, the key, `=` and the
/// value.
pub open spec fn config_line(key: Seq<char>, value: Seq<char>) -> Seq<char> {
    seq!['\n'] + key + seq!['='] + value
}

/// The configuration file's text for save directory `dir` and a window of
/// `width` by `height`.
pub open spec fn config_text(dir: Seq<char>, width: int, height: int) -> Seq<char> {
    config_line(KEY_SAVE_DIR@, dir) + config_line(KEY_WIDTH@, decimal(width)) + config_line(
        KEY_HEIGHT@,
        decimal(height),
    )
}

/// The settings after reading line `i` of the configuration, `line`.
pub open spec fn apply_line(m: SettingsView, line: Seq<char>, i: int) -> Result<
    SettingsView,
    ConfigError,
> {
    let parts = split(line, '=');
    if parts.len() < 2 {
        Err(ConfigError::MissingValue(i as usize))
    } else {
        let key = trim(parts[0]);
        let value = trim(parts[1]);
        if key == KEY_SAVE_DIR@ {
            Ok(SettingsView { save_dir: Some(value), ..m })
        } else if key == KEY_WIDTH@ {
            match int_in_range(value, i32::MIN as int, i32::MAX as int) {
                Some(v) => Ok(SettingsView { width: v as i32, ..m }),
                None => Err(ConfigError::BadNumber(i as usize)),
            }
        } else if key == KEY_HEIGHT@ {
            match int_in_range(value, i32::MIN as int, i32::MAX as int) {
                Some(v) => Ok(SettingsView { height: v as i32, ..m }),
                None => Err(ConfigError::BadNumber(i as usize)),
            }
        } else {
            Ok(m)
        }
    }
}

/// The settings after reading `lines` from line `i` on, or the first
/// problem met.
pub open spec fn apply_lines(m: SettingsView, lines: Seq<Seq<char>>, i: int) -> Result<
    SettingsView,
    ConfigError,
>
    decreases lines.len() - i,
{
    if i < 0 || i >= lines.len() {
        Ok(m)
    } else {
        match apply_line(m, lines[i], i) {
            Ok(m2) => apply_lines(m2, lines, i + 1),
            Err(e) => Err(e),
        }
    }
}

/// The settings after reading the configuration `text`: its lines, after
/// trimming the whole text, each split at `=` into a key and a value that
/// are trimmed in turn; later lines win, unknown keys are passed over.
pub open spec fn apply_config_text(m: SettingsView, text: Seq<char>) -> Result<
    SettingsView,
    ConfigError,
> {
    apply_lines(m, split(trim(text), '\n'), 0)
}

/// The save directory read so far, or `before` where none was.
spec fn chosen_dir(dir: Option<Vec<char>>, before: Option<Seq<char>>) -> Option<Seq<char>> {
    match dir {
        Some(v) => Some(v@),
        None => before,
    }
}

/// What one line of the configuration sets.
enum LineSetting {
    SaveDir(Vec<char>),
    Width(i32),
    Height(i32),
    Nothing,
}

/// The settings `m` with what a line set.
spec fn with_setting(m: SettingsView, s: LineSetting) -> SettingsView {
    match s {
        LineSetting::SaveDir(v) => SettingsView { save_dir: Some(v@), ..m },
        LineSetting::Width(w) => SettingsView { width: w, ..m },
        LineSetting::Height(h) => SettingsView { height: h, ..m },
        LineSetting::Nothing => m,
    }
}

/// What line `i` of the configuration, `line`, sets.
fn read_line(line: &[char], i: usize) -> (r: Result<LineSetting, ConfigError>)
    ensures
        forall|m: SettingsView|
            #![trigger apply_line(m, line@, i as int)]
            apply_line(m, line@, i as int) == match r {
                Ok(s) => Ok(with_setting(m, s)),
                Err(e) => Err(e),
            },
{
    let parts = split_chars(line, '=');
    if parts.len() < 2 {
        return Err(ConfigError::MissingValue(i));
    }
    let key = trim_chars(&parts[0]);
    let value = trim_chars(&parts[1]);
    assert(views(parts@)[0] == parts@[0]@);
    assert(views(parts@)[1] == parts@[1]@);
    let k_dir = chars_of(KEY_SAVE_DIR);
    let k_width = chars_of(KEY_WIDTH);
    let k_height = chars_of(KEY_HEIGHT);
    if chars_eq(&key, &k_dir) {
        Ok(LineSetting::SaveDir(value))
    } else if chars_eq(&key, &k_width) {
        match parse_i32(&value) {
            Some(v) => Ok(LineSetting::Width(v)),
            None => Err(ConfigError::BadNumber(i)),
        }
    } else if chars_eq(&key, &k_height) {
        match parse_i32(&value) {
            Some(v) => Ok(LineSetting::Height(v)),
            None => Err(ConfigError::BadNumber(i)),
        }
    } else {
        Ok(LineSetting::Nothing)
    }
}

impl Settings {
    /// The settings before any configuration is read: no save directory
    /// chosen, and a window of 1000 by 950.
    pub fn new() -> (r: Settings)
        ensures
            r@ == (SettingsView {
                save_dir: None,
                width: DEFAULT_WIDTH,
                height: DEFAULT_HEIGHT,
            }),
    {
        Settings { save_dir: None, width: DEFAULT_WIDTH, height: DEFAULT_HEIGHT }
    }

    /// The absolute path of the directory papers are saved in, for the home
    /// directory `home`: the chosen one, or else the default save directory;
    /// made absolute against the current directory `cwd`.
    pub fn save_dir_from_home(&self, home: Option<&str>, platform: Platform, cwd: &str) -> (r:
        String)
        ensures
            r@ == save_dir_of(
                self@,
                match home {
                    Some(h) => Some(h@),
                    None => None,
                },
                platform,
                cwd@,
            ),
    {
        match &self.save_dir {
            Some(d) => {
                let dc = chars_of(d.as_str());
                let c = chars_of(cwd);
                let a = absolute_chars(&dc, &c, platform);
                string_of(&a)
            },
            None => default_save_dir_from_home(home, platform, cwd),
        }
    }

    /// The absolute path of the directory papers are saved in: the chosen
    /// one, or else the default save directory for the current user; made
    /// absolute against the current directory `cwd`. An error only where no
    /// directory was chosen and the home directory's path is not valid
    /// UTF-8.
    pub fn get_save_dir(&self, platform: Platform, cwd: &str) -> (r: Result<String, HomeError>)
        ensures
            exists|home: Option<Option<Seq<char>>>|
                result_view(r) == save_dir_in(self@, home, platform, cwd@),
    {
        match &self.save_dir {
            Some(d) => {
                let r = Ok(self.save_dir_from_home(None, platform, cwd));
                assert(result_view(r) == save_dir_in(self@, None, platform, cwd@));
                r
            },
            None => {
                let r = get_default_save_dir(platform, cwd);
                let ghost home = choose|home: Option<Option<Seq<char>>>|
                    result_view(r) == default_save_dir_in(home, platform, cwd@);
                assert(result_view(r) == save_dir_in(self@, home, platform, cwd@));
                r
            },
        }
    }

    /// Reads the configuration `content` into the settings. On a problem
    /// the settings stay as they were and the problem of the first line that
    /// has one is returned.
    pub fn apply_config(&mut self, content: &str) -> (r: Result<(), ConfigError>)
        ensures
            match apply_config_text(old(self)@, content@) {
                Ok(m) => r is Ok && final(self)@ == m,
                Err(e) => r == Err::<(), ConfigError>(e) && final(self)@ == old(self)@,
            },
    {
        let c = chars_of(content);
        let t = trim_chars(&c);
        let lines = split_chars(&t, '\n');
        let ghost start = self@;
        let mut dir: Option<Vec<char>> = None;
        let mut width = self.width;
        let mut height = self.height;
        let mut i: usize = 0;
        while i < lines.len()
            invariant
                i <= lines@.len(),
                views(lines@) == split(trim(content@), '\n'),
                start == self@,
                apply_config_text(start, content@) == apply_lines(
                    SettingsView {
                        save_dir: chosen_dir(dir, start.save_dir),
                        width: width,
                        height: height,
                    },
                    views(lines@),
                    i as int,
                ),
            decreases lines@.len() - i,
        {
            let ghost cur = SettingsView {
                save_dir: chosen_dir(dir, start.save_dir),
                width: width,
                height: height,
            };
            assert(views(lines@)[i as int] == lines@[i as int]@);
            let s = read_line(&lines[i], i);
            assert(apply_line(cur, lines@[i as int]@, i as int) == match s {
                Ok(s) => Ok(with_setting(cur, s)),
                Err(e) => Err(e),
            });
            match s {
                Ok(LineSetting::SaveDir(v)) => {
                    dir = Some(v);
                },
                Ok(LineSetting::Width(w)) => {
                    width = w;
                },
                Ok(LineSetting::Height(h)) => {
                    height = h;
                },
                Ok(LineSetting::Nothing) => {},
                Err(e) => {
                    return Err(e);
                },
            }
            i = i + 1;
        }
        match dir {
            Some(v) => {
                self.save_dir = Some(string_of(&v));
            },
            None => {},
        }
        self.width = width;
        self.height = height;
        Ok(())
    }

    /// The configuration text that records these settings, with the save
    /// directory as `get_save_dir` gives it.
    pub fn generate_config_content(&self, platform: Platform, cwd: &str) -> (r: Result<
        String,
        HomeError,
    >)
        ensures
            exists|home: Option<Option<Seq<char>>>|
                result_view(r) == text_in(
                    save_dir_in(self@, home, platform, cwd@),
                    self.width as int,
                    self.height as int,
                ),
    {
        match self.get_save_dir(platform, cwd) {
            Ok(d) => Ok(config_content(d.as_str(), self.width, self.height)),
            Err(e) => Err(e),
        }
    }

    /// The configuration text written when there is none yet: the default
    /// save directory and the current window size.
    pub fn default_config_content(&self, platform: Platform, cwd: &str) -> (r: Result<
        String,
        HomeError,
    >)
        ensures
            exists|home: Option<Option<Seq<char>>>|
                result_view(r) == text_in(
                    default_save_dir_in(home, platform, cwd@),
                    self.width as int,
                    self.height as int,
                ),
    {
        match get_default_save_dir(platform, cwd) {
            Ok(d) => Ok(config_content(d.as_str(), self.width, self.height)),
            Err(e) => Err(e),
        }
    }

    /// What to write to the configuration file, if anything. On start-up
    /// (`init`) the default configuration is written only where no file
    /// exists yet; at any other time the current settings are written.
    pub fn config_to_write(&self, init: bool, exists: bool, platform: Platform, cwd: &str) -> (r:
        Result<Option<String>, HomeError>)
        ensures
            init && exists ==> r == Ok::<Option<String>, HomeError>(None),
            init && !exists ==> exists|home: Option<Option<Seq<char>>>|
                written_view(r) == text_in(
                    default_save_dir_in(home, platform, cwd@),
                    self.width as int,
                    self.height as int,
                ),
            !init ==> exists|home: Option<Option<Seq<char>>>|
                written_view(r) == text_in(
                    save_dir_in(self@, home, platform, cwd@),
                    self.width as int,
                    self.height as int,
                ),
    {
        if !exists && init {
            match self.default_config_content(platform, cwd) {
                Ok(t) => Ok(Some(t)),
                Err(e) => Err(e),
            }
        } else if !init {
            match self.generate_config_content(platform, cwd) {
                Ok(t) => Ok(Some(t)),
                Err(e) => Err(e),
            }
        } else {
            Ok(None)
        }
    }
}

/// Appends a configuration line for `key` and `value` to `out`.
fn push_config_line(out: &mut Vec<char>, key: &str, value: &[char])
    ensures
        final(out)@ == old(out)@ + config_line(key@, value@),
{
    out.push('\n');
    let k = chars_of(key);
    extend(out, &k);
    out.push('=');
    extend(out, value);
    assert(old(out)@ + config_line(key@, value@) =~= old(out)@.push('\n') + key@ + seq!['=']
        + value@);
}

/// The configuration text for save directory `save_dir` and a window of
/// `width` by `height`.
pub fn config_content(save_dir: &str, width: i32, height: i32) -> (r: String)
    ensures
        r@ == config_text(save_dir@, width as int, height as int),
{
    let mut out: Vec<char> = Vec::new();
    let d = chars_of(save_dir);
    push_config_line(&mut out, KEY_SAVE_DIR, &d);
    let w = decimal_chars(width as i64);
    push_config_line(&mut out, KEY_WIDTH, &w);
    let h = decimal_chars(height as i64);
    push_config_line(&mut out, KEY_HEIGHT, &h);
    assert(out@ =~= config_text(save_dir@, width as int, height as int));
    string_of(&out)
}

// ---------------------------------------------------------------------------
// Reading back what was written
// ---------------------------------------------------------------------------
/// Decimal text holds only digits and `-`, so neither `=` nor a line break,
/// and neither begins nor ends with whitespace.
proof fn lemma_decimal_plain(n: int)
    ensures
        !decimal(n).contains('='),
        !decimal(n).contains('\n'),
        trim(decimal(n)) == decimal(n),
        decimal(n).len() >= 1,
        !is_space(decimal(n).last()),
{
    lemma_decimal_chars(n);
    lemma_int_of_decimal(n);
    let s = decimal(n);
    assert(s[s.len() - 1] == s.last());
    assert(is_digit(s.last()));
    assert(s[0] == '-' || is_digit(s[0]));
    lemma_trim_unchanged(s);
}

/// A key, `=` and a value, neither holding `=`, split into the key and the
/// value.
proof fn lemma_key_value(key: Seq<char>, value: Seq<char>)
    requires
        !key.contains('='),
        !value.contains('='),
    ensures
        split(key + seq!['='] + value, '=') =~= seq![key, value],
{
    lemma_split_concat(key, value, '=');
    lemma_split_no_sep(key, '=');
    lemma_split_no_sep(value, '=');
}

/// The lines written for save directory `dir` and a window of `width` by
/// `height`.
pub open spec fn written_lines(dir: Seq<char>, width: int, height: int) -> Seq<Seq<char>> {
    seq![
        KEY_SAVE_DIR@ + seq!['='] + dir,
        KEY_WIDTH@ + seq!['='] + decimal(width),
        KEY_HEIGHT@ + seq!['='] + decimal(height),
    ]
}

/// The written lines joined by line breaks: the configuration text without
/// its first line break.
pub open spec fn written_body(dir: Seq<char>, width: int, height: int) -> Seq<char> {
    let l = written_lines(dir, width, height);
    l[0] + seq!['\n'] + l[1] + seq!['\n'] + l[2]
}

/// More configuration lines, each a line break, a key, `=` and a value.
pub open spec fn extra_text(extra: Seq<(Seq<char>, Seq<char>)>) -> Seq<char>
    decreases extra.len(),
{
    if extra.len() == 0 {
        Seq::<char>::empty()
    } else {
        extra_text(extra.drop_last()) + config_line(extra.last().0, extra.last().1)
    }
}

/// The lines of [`extra_text`]: each key, `=` and value.
pub open spec fn extra_lines(extra: Seq<(Seq<char>, Seq<char>)>) -> Seq<Seq<char>> {
    Seq::new(extra.len(), |i: int| extra[i].0 + seq!['='] + extra[i].1)
}

/// Whether a line with key `key` and value `value` is one the settings do
/// not know: no line break in either, no `=` in the key, and the key,
/// trimmed, none of the three keys.
pub open spec fn other_line(key: Seq<char>, value: Seq<char>) -> bool {
    &&& !key.contains('\n')
    &&& !key.contains('=')
    &&& !value.contains('\n')
    &&& trim(key) != KEY_SAVE_DIR@
    &&& trim(key) != KEY_WIDTH@
    &&& trim(key) != KEY_HEIGHT@
}

/// The written configuration text is a line break before the written body,
/// which starts with a letter and ends with a digit and splits into the
/// three written lines.
proof fn lemma_written_body(dir: Seq<char>, width: i32, height: i32)
    requires
        !dir.contains('\n'),
    ensures
        config_text(dir, width as int, height as int) =~= seq!['\n'] + written_body(
            dir,
            width as int,
            height as int,
        ),
        written_body(dir, width as int, height as int).len() > 0,
        written_body(dir, width as int, height as int)[0] == 's',
        !is_space(written_body(dir, width as int, height as int).last()),
        split(written_body(dir, width as int, height as int), '\n') =~= written_lines(
            dir,
            width as int,
            height as int,
        ),
{
    reveal_strlit("save_dir");
    reveal_strlit("width");
    reveal_strlit("height");
    let kd = KEY_SAVE_DIR@;
    let kw = KEY_WIDTH@;
    let kh = KEY_HEIGHT@;
    let dw = decimal(width as int);
    let dh = decimal(height as int);
    lemma_decimal_plain(width as int);
    lemma_decimal_plain(height as int);
    let eq: Seq<char> = seq!['='];
    let nl: Seq<char> = seq!['\n'];
    assert(!eq.contains('\n'));
    assert(!kd.contains('\n') && !kw.contains('\n') && !kh.contains('\n'));
    let l1 = kd + eq + dir;
    let l2 = kw + eq + dw;
    let l3 = kh + eq + dh;
    lemma_concat_lacks(kd, eq, '\n');
    lemma_concat_lacks(kd + eq, dir, '\n');
    lemma_concat_lacks(kw, eq, '\n');
    lemma_concat_lacks(kw + eq, dw, '\n');
    lemma_concat_lacks(kh, eq, '\n');
    lemma_concat_lacks(kh + eq, dh, '\n');
    let body = written_body(dir, width as int, height as int);
    assert(body =~= l1 + nl + l2 + nl + l3);
    assert(body[0] == 's');
    assert(body.last() == dh.last());
    lemma_split_concat(l1, l2, '\n');
    lemma_split_concat(l1 + nl + l2, l3, '\n');
    lemma_split_no_sep(l1, '\n');
    lemma_split_no_sep(l2, '\n');
    lemma_split_no_sep(l3, '\n');
}

/// Reading the three written lines, at the head of `lines`, sets the save
/// directory and the window size.
#[verifier::rlimit(30)]
proof fn lemma_written_applied(
    m: SettingsView,
    dir: Seq<char>,
    width: i32,
    height: i32,
    lines: Seq<Seq<char>>,
)
    requires
        !dir.contains('='),
        trim(dir) == dir,
        lines.len() >= 3,
        lines[0] == written_lines(dir, width as int, height as int)[0],
        lines[1] == written_lines(dir, width as int, height as int)[1],
        lines[2] == written_lines(dir, width as int, height as int)[2],
    ensures
        apply_lines(m, lines, 0) == apply_lines(
            SettingsView { save_dir: Some(dir), width: width, height: height },
            lines,
            3,
        ),
{
    reveal_strlit("save_dir");
    reveal_strlit("width");
    reveal_strlit("height");
    let kd = KEY_SAVE_DIR@;
    let kw = KEY_WIDTH@;
    let kh = KEY_HEIGHT@;
    let dw = decimal(width as int);
    let dh = decimal(height as int);
    lemma_decimal_plain(width as int);
    lemma_decimal_plain(height as int);
    assert(!kd.contains('=') && !kw.contains('=') && !kh.contains('='));
    lemma_key_value(kd, dir);
    lemma_key_value(kw, dw);
    lemma_key_value(kh, dh);
    lemma_trim_unchanged(kd);
    lemma_trim_unchanged(kw);
    lemma_trim_unchanged(kh);
    lemma_int_of_decimal(width as int);
    lemma_int_of_decimal(height as int);
    let m1 = SettingsView { save_dir: Some(dir), ..m };
    let m2 = SettingsView { width: width, ..m1 };
    let m3 = SettingsView { height: height, ..m2 };
    assert(apply_line(m, lines[0], 0) == Ok::<SettingsView, ConfigError>(m1));
    assert(kw != kd);
    assert(apply_line(m1, lines[1], 1) == Ok::<SettingsView, ConfigError>(m2));
    assert(kh != kd && kh != kw);
    assert(apply_line(m2, lines[2], 2) == Ok::<SettingsView, ConfigError>(m3));
    assert(apply_lines(m2, lines, 2) == apply_lines(m3, lines, 3));
    assert(apply_lines(m1, lines, 1) == apply_lines(m3, lines, 3));
    assert(apply_lines(m, lines, 0) == apply_lines(m3, lines, 3));
    assert(m3 == SettingsView { save_dir: Some(dir), width: width, height: height });
}

/// A line whose key the settings do not know leaves them as they were.
pub proof fn lemma_other_line_ignored(m: SettingsView, key: Seq<char>, value: Seq<char>, i: int)
    requires
        other_line(key, value),
    ensures
        apply_line(m, key + seq!['='] + value, i) == Ok::<SettingsView, ConfigError>(m),
{
    lemma_split_concat(key, value, '=');
    lemma_split_no_sep(key, '=');
    lemma_split_len(value, '=');
}

/// Lines that each leave the settings as they were leave them so together.
proof fn lemma_lines_ignored(m: SettingsView, lines: Seq<Seq<char>>, i: int)
    requires
        0 <= i,
        forall|j: int|
            i <= j < lines.len() ==> apply_line(m, #[trigger] lines[j], j) == Ok::<
                SettingsView,
                ConfigError,
            >(m),
    ensures
        apply_lines(m, lines, i) == Ok::<SettingsView, ConfigError>(m),
    decreases lines.len() - i,
{
    if i < lines.len() {
        assert(apply_line(m, lines[i], i) == Ok::<SettingsView, ConfigError>(m));
        lemma_lines_ignored(m, lines, i + 1);
    }
}

/// More lines after `x` split into the pieces of `x` followed by those
/// lines.
proof fn lemma_split_extra(x: Seq<char>, extra: Seq<(Seq<char>, Seq<char>)>)
    requires
        forall|j: int| 0 <= j < extra.len() ==> other_line(#[trigger] extra[j].0, extra[j].1),
    ensures
        split(x + extra_text(extra), '\n') =~= split(x, '\n') + extra_lines(extra),
    decreases extra.len(),
{
    if extra.len() == 0 {
        assert(x + extra_text(extra) =~= x);
    } else {
        let rest = extra.drop_last();
        assert forall|j: int| 0 <= j < rest.len() implies other_line(
            #[trigger] rest[j].0,
            rest[j].1,
        ) by {
            assert(rest[j] == extra[j]);
        }
        lemma_split_extra(x, rest);
        let k = extra.last().0;
        let v = extra.last().1;
        assert(other_line(extra[extra.len() - 1].0, extra[extra.len() - 1].1));
        let line = k + seq!['='] + v;
        assert(!seq!['='].contains('\n'));
        lemma_concat_lacks(k, seq!['='], '\n');
        lemma_concat_lacks(k + seq!['='], v, '\n');
        assert(x + extra_text(extra) =~= (x + extra_text(rest)) + seq!['\n'] + line);
        lemma_split_concat(x + extra_text(rest), line, '\n');
        lemma_split_no_sep(line, '\n');
        assert(extra_lines(extra) =~= extra_lines(rest).push(line));
    }
}

/// Trimming the end of more lines trims only the last value.
proof fn lemma_trim_end_extra(extra: Seq<(Seq<char>, Seq<char>)>)
    requires
        extra.len() > 0,
        forall|j: int| 0 <= j < extra.len() ==> other_line(#[trigger] extra[j].0, extra[j].1),
    ensures
        trim_end(extra_text(extra)) == extra_text(
            extra.update(extra.len() - 1, (extra.last().0, trim_end(extra.last().1))),
        ),
        forall|j: int|
            0 <= j < extra.len() ==> other_line(
                #[trigger] extra.update(
                    extra.len() - 1,
                    (extra.last().0, trim_end(extra.last().1)),
                )[j].0,
                extra.update(extra.len() - 1, (extra.last().0, trim_end(extra.last().1)))[j].1,
            ),
{
    let n = extra.len();
    let k = extra.last().0;
    let v = extra.last().1;
    let e2 = extra.update(n - 1, (k, trim_end(v)));
    let a = extra_text(extra.drop_last()) + seq!['\n'] + k + seq!['='];
    assert(extra_text(extra) =~= a + v);
    assert(a.last() == '=');
    lemma_trim_end_concat(a, v);
    assert(e2.drop_last() =~= extra.drop_last());
    assert(extra_text(e2) =~= a + trim_end(v));
    lemma_trim_end_prefix(v);
    assert(other_line(extra[n - 1].0, extra[n - 1].1));
    assert(!trim_end(v).contains('\n')) by {
        if trim_end(v).contains('\n') {
            let t = choose|t: int| 0 <= t < trim_end(v).len() && trim_end(v)[t] == '\n';
            assert(v[t] == '\n');
        }
    }
    assert forall|j: int| 0 <= j < n implies other_line(#[trigger] e2[j].0, e2[j].1) by {
        if j < n - 1 {
            assert(e2[j] == extra[j]);
        }
    }
}

/// Reading the configuration text written for a save directory and a window
/// size gives back that save directory and that size, whatever the settings
/// were before, and whatever lines with other keys follow, so long as the
/// directory holds no line break and no `=` and neither begins nor ends with
/// whitespace: lines with other keys change nothing.
pub proof fn lemma_config_round_trip(
    m: SettingsView,
    dir: Seq<char>,
    width: i32,
    height: i32,
    extra: Seq<(Seq<char>, Seq<char>)>,
)
    requires
        !dir.contains('\n'),
        !dir.contains('='),
        trim(dir) == dir,
        forall|j: int| 0 <= j < extra.len() ==> other_line(#[trigger] extra[j].0, extra[j].1),
    ensures
        apply_config_text(m, config_text(dir, width as int, height as int) + extra_text(extra))
            == Ok::<SettingsView, ConfigError>(
            SettingsView { save_dir: Some(dir), width: width, height: height },
        ),
{
    lemma_written_body(dir, width, height);
    let body = written_body(dir, width as int, height as int);
    let x = extra_text(extra);
    let text = config_text(dir, width as int, height as int) + x;
    assert(text =~= seq!['\n'] + (body + x));
    assert(text.drop_first() =~= body + x);
    assert((body + x)[0] == 's');
    assert(text[0] == '\n');
    assert(is_space(text[0]));
    assert(trim_start(text) == trim_start(body + x));
    assert(!is_space((body + x)[0]));
    assert(trim_start(text) == body + x);
    lemma_trim_end_concat(body, x);
    let e2 = if extra.len() == 0 {
        extra
    } else {
        extra.update(extra.len() - 1, (extra.last().0, trim_end(extra.last().1)))
    };
    if extra.len() == 0 {
        assert(trim_end(x) == x);
    } else {
        lemma_trim_end_extra(extra);
    }
    assert(trim(text) == body + extra_text(e2));
    lemma_split_extra(body, e2);
    let lines = split(trim(text), '\n');
    assert(lines =~= written_lines(dir, width as int, height as int) + extra_lines(e2));
    lemma_written_applied(m, dir, width, height, lines);
    let m3 = SettingsView { save_dir: Some(dir), width: width, height: height };
    assert forall|j: int| 3 <= j < lines.len() implies apply_line(m3, #[trigger] lines[j], j)
        == Ok::<SettingsView, ConfigError>(m3) by {
        assert(lines[j] == e2[j - 3].0 + seq!['='] + e2[j - 3].1);
        assert(other_line(e2[j - 3].0, e2[j - 3].1));
        lemma_other_line_ignored(m3, e2[j - 3].0, e2[j - 3].1, j);
    }
    lemma_lines_ignored(m3, lines, 3);
}

/// With no save directory chosen, the save directory is the default one, so
/// the configuration written then is the default configuration, for the
/// same home directory lookup.
pub proof fn lemma_unchosen_save_dir_is_default(
    m: SettingsView,
    home: Option<Option<Seq<char>>>,
    p: Platform,
    cwd: Seq<char>,
)
    requires
        m.save_dir is None,
    ensures
        save_dir_in(m, home, p, cwd) == default_save_dir_in(home, p, cwd),
        text_in(save_dir_in(m, home, p, cwd), m.width as int, m.height as int) == text_in(
            default_save_dir_in(home, p, cwd),
            m.width as int,
            m.height as int,
        ),
{
}

/// The default save directory is absolute where the current directory is
/// (on a drive, on Windows), except where the home directory makes it a
/// path relative to a drive, such as `D:papers`.
pub proof fn lemma_default_save_dir_absolute(home: Option<Seq<char>>, p: Platform, cwd: Seq<char>)
    requires
        is_absolute(cwd, p),
        p == Platform::Windows ==> windows_prefix(cwd) == Some((PrefixKind::Disk, 2int)),
        prefix_of(path_join(base_dir_of(home, p), DEFAULT_SAVE_DIR@, p), p) is Some ==> is_absolute(
            path_join(base_dir_of(home, p), DEFAULT_SAVE_DIR@, p),
            p,
        ),
    ensures
        is_absolute(default_save_dir_of(home, p, cwd), p),
{
    lemma_absolute_in(path_join(base_dir_of(home, p), DEFAULT_SAVE_DIR@, p), cwd, p);
}

} // verus!
