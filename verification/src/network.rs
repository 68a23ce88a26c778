//! The download task: which searches to make, which files to fetch and
//! where to save them, when to retry and when to stop.
//!
//! The task decides; the caller does the work. Each decision is a [`Step`]:
//! a text for the status bar and a [`Command`] to carry out. The caller
//! reports what came of it through [`DownloadTask::on_search`] or
//! [`DownloadTask::on_download`], together with whether downloading is still
//! wanted and the save directory at that moment, and gets the next step.
use vstd::prelude::*;
use vstd::string::*;
use crate::number::{
    all_digits, decimal, decimal_chars, digits_value, int_of, is_digit, lemma_decimal_natural,
    lemma_int_of_decimal,
};
use crate::paths::{
    is_bare_drive, is_plain_name, is_sep, join_chars, lemma_join_plain, path_join, Platform,
};
use crate::text::{chars_of, copy_range, extend, string_of};

verus! {

/// Where the list of subjects is fetched from.
pub const SUBJECT_URL: &'static str = "https://cie.fraft.cn/obj/Combo/subject";

/// Where papers are searched for.
pub const SEARCH_URL: &'static str = "https://cie.fraft.cn/obj/Fetch/renum";

/// Where papers are fetched from: the paper's name is appended.
pub const FETCH_URL: &'static str = "https://cie.fraft.cn/obj/Fetch/redir";

/// How many exam seasons a year has.
pub const SEASON_COUNT: usize = 4;

/// The exam seasons, in the order they are searched.
pub open spec fn season_name(i: int) -> Seq<char> {
    if i == 0 {
        "Jun"@
    } else if i == 1 {
        "Nov"@
    } else if i == 2 {
        "Mar"@
    } else {
        "Gen"@
    }
}

/// The name of exam season `i`.
pub fn season(i: usize) -> (r: &'static str)
    requires
        i < SEASON_COUNT,
    ensures
        r@ == season_name(i as int),
{
    if i == 0 {
        "Jun"
    } else if i == 1 {
        "Nov"
    } else if i == 2 {
        "Mar"
    } else {
        "Gen"
    }
}

// ---------------------------------------------------------------------------
// Steps
// ---------------------------------------------------------------------------
/// What the caller is to do next.
pub enum Command {
    /// Search the subject with code `code` for papers of `year` and `season`.
    Search { code: String, year: String, season: String },
    /// Fetch `url` into the file `save_path`.
    Download { url: String, save_path: String },
    /// Wait a while, then fetch `url` into `save_path` again.
    Retry { url: String, save_path: String },
    /// Downloading is no longer wanted: the task ends.
    Stop,
    /// Every search was made: the task ends.
    Finish,
    /// The search listed `entry`, which is too short to hold a quoted file
    /// name: the task cannot go on.
    BadEntry { entry: String },
}

/// A status text and a command.
pub struct Step {
    pub status: String,
    pub command: Command,
}

/// A command as plain values.
pub enum CommandView {
    Search { code: Seq<char>, year: Seq<char>, season: Seq<char> },
    Download { url: Seq<char>, save_path: Seq<char> },
    Retry { url: Seq<char>, save_path: Seq<char> },
    Stop,
    Finish,
    BadEntry { entry: Seq<char> },
}

/// A step as plain values.
pub struct StepView {
    pub status: Seq<char>,
    pub command: CommandView,
}

impl View for Command {
    type V = CommandView;

    open spec fn view(&self) -> CommandView {
        match self {
            Command::Search { code, year, season } => CommandView::Search {
                code: code@,
                year: year@,
                season: season@,
            },
            Command::Download { url, save_path } => CommandView::Download {
                url: url@,
                save_path: save_path@,
            },
            Command::Retry { url, save_path } => CommandView::Retry {
                url: url@,
                save_path: save_path@,
            },
            Command::Stop => CommandView::Stop,
            Command::Finish => CommandView::Finish,
            Command::BadEntry { entry } => CommandView::BadEntry { entry: entry@ },
        }
    }
}

impl View for Step {
    type V = StepView;

    open spec fn view(&self) -> StepView {
        StepView { status: self.status@, command: self.command@ }
    }
}

/// A subject as plain values: whether it is selected, its code and its
/// name.
pub type SubjectView = (bool, Seq<char>, Seq<char>);

/// The subjects as plain values.
pub open spec fn subjects_view(v: Seq<(bool, String, String)>) -> Seq<SubjectView> {
    Seq::new(v.len(), |i: int| (v[i].0, v[i].1@, v[i].2@))
}

/// Which subjects are selected.
pub open spec fn selected(subjects: Seq<SubjectView>) -> Seq<bool> {
    Seq::new(subjects.len(), |i: int| subjects[i].0)
}

/// The step that searches subject `q.0` for year `q.1` and season `q.2`.
pub open spec fn search_step(subjects: Seq<SubjectView>, q: (int, int, int)) -> StepView {
    StepView {
        status: "Searching: "@ + subjects[q.0].2 + " | "@ + decimal(q.1) + " | "@ + season_name(
            q.2,
        ),
        command: CommandView::Search {
            code: subjects[q.0].1,
            year: decimal(q.1),
            season: season_name(q.2),
        },
    }
}

/// The step that ends the task once every search was made.
pub open spec fn finish_step() -> StepView {
    StepView { status: "Finish"@, command: CommandView::Finish }
}

/// The step that ends the task because downloading is no longer wanted.
pub open spec fn stop_step() -> StepView {
    StepView { status: "Stopped"@, command: CommandView::Stop }
}

/// The step that fetches `url` into `save_path`.
pub open spec fn download_step(url: Seq<char>, save_path: Seq<char>) -> StepView {
    StepView {
        status: "Downloading: "@ + save_path,
        command: CommandView::Download { url: url, save_path: save_path },
    }
}

/// The step that fetches `url` into `save_path` again after a failure.
pub open spec fn retry_step(url: Seq<char>, save_path: Seq<char>) -> StepView {
    StepView {
        status: "Retry: "@ + save_path,
        command: CommandView::Retry { url: url, save_path: save_path },
    }
}

/// The step for an entry too short to hold a quoted file name.
pub open spec fn bad_entry_step(entry: Seq<char>) -> StepView {
    StepView { status: Seq::<char>::empty(), command: CommandView::BadEntry { entry: entry } }
}

/// The file name inside a search entry: the entry without its first and
/// last character, the quotes of the JSON string it is.
pub open spec fn entry_file_name(entry: Seq<char>) -> Seq<char> {
    entry.subrange(1, entry.len() - 1)
}

/// Where the paper `file` for subject `name` and `year` is saved: in
/// `save_dir`, a folder for the subject and in it a folder for the year.
pub open spec fn paper_path(
    save_dir: Seq<char>,
    name: Seq<char>,
    year: int,
    file: Seq<char>,
    p: Platform,
) -> Seq<char> {
    path_join(path_join(path_join(save_dir, name, p), decimal(year), p), file, p)
}

// ---------------------------------------------------------------------------
// The order of the searches
// ---------------------------------------------------------------------------
/// The first selected subject at `from` or after it.
pub open spec fn next_selected(sel: Seq<bool>, from: int) -> Option<int>
    decreases sel.len() - from,
{
    if from < 0 || from >= sel.len() {
        None
    } else if sel[from] {
        Some(from)
    } else {
        next_selected(sel, from + 1)
    }
}

/// What `next_selected` finds is a selected subject at `from` or after it,
/// and every subject between is unselected.
pub proof fn lemma_next_selected(sel: Seq<bool>, from: int)
    ensures
        match next_selected(sel, from) {
            Some(i) => from <= i < sel.len() && sel[i] && forall|k: int|
                from <= k < i ==> !#[trigger] sel[k],
            None => forall|k: int| 0 <= from <= k < sel.len() ==> !#[trigger] sel[k],
        },
    decreases sel.len() - from,
{
    if 0 <= from < sel.len() && !sel[from] {
        lemma_next_selected(sel, from + 1);
    }
}

/// The first search: the first selected subject, the first year and the
/// first season; none where nothing is selected or no year lies in range.
pub open spec fn first_query(sel: Seq<bool>, min_year: int, max_year: int) -> Option<
    (int, int, int),
> {
    if min_year <= max_year {
        match next_selected(sel, 0) {
            Some(i) => Some((i, min_year, 0)),
            None => None,
        }
    } else {
        None
    }
}

/// The search after `q`: the next season, else the next year from the first
/// season, else the next selected subject from the first year; none after
/// the last.
pub open spec fn next_query(sel: Seq<bool>, min_year: int, max_year: int, q: (int, int, int)) -> Option<
    (int, int, int),
> {
    if q.2 + 1 < SEASON_COUNT {
        Some((q.0, q.1, q.2 + 1))
    } else if q.1 < max_year {
        Some((q.0, q.1 + 1, 0))
    } else {
        match next_selected(sel, q.0 + 1) {
            Some(j) => Some((j, min_year, 0)),
            None => None,
        }
    }
}

/// Whether `q` is a search the task makes: a selected subject, a year in
/// range and a season.
pub open spec fn valid_query(sel: Seq<bool>, min_year: int, max_year: int, q: (int, int, int)) -> bool {
    &&& 0 <= q.0 < sel.len()
    &&& sel[q.0]
    &&& min_year <= q.1 <= max_year
    &&& 0 <= q.2 < SEASON_COUNT
}

/// Whether search `a` comes before search `b` in subject, then year, then
/// season order.
pub open spec fn query_before(a: (int, int, int), b: (int, int, int)) -> bool {
    ||| a.0 < b.0
    ||| (a.0 == b.0 && a.1 < b.1)
    ||| (a.0 == b.0 && a.1 == b.1 && a.2 < b.2)
}

// ---------------------------------------------------------------------------
// The task
// ---------------------------------------------------------------------------
/// Where the task stands.
#[derive(Clone, Copy, Debug, PartialEq, Eq, Structural)]
pub enum Phase {
    /// Waiting for the reply to a search.
    Searching,
    /// Waiting for the outcome of a download.
    Downloading,
    /// Every search was made.
    Finished,
    /// Stopped on request.
    Stopped,
    /// Met an entry it cannot read.
    Failed,
}

/// A download task over the years from `min_year` to `max_year`.
pub struct DownloadTask {
    min_year: isize,
    max_year: isize,
    subjects: Vec<(bool, String, String)>,
    platform: Platform,
    phase: Phase,
    subject: usize,
    year: isize,
    season: usize,
    entries: Vec<String>,
    file: usize,
    url: String,
    save_path: String,
}

/// A download task as plain values.
pub struct TaskView {
    pub min_year: int,
    pub max_year: int,
    pub subjects: Seq<SubjectView>,
    pub platform: Platform,
    pub phase: Phase,
    /// The search made last.
    pub query: (int, int, int),
    /// The entries its reply listed.
    pub entries: Seq<Seq<char>>,
    /// The entry being downloaded.
    pub file: int,
    /// What is being downloaded, and where to.
    pub url: Seq<char>,
    pub save_path: Seq<char>,
}

/// The character sequences of a list of strings.
pub open spec fn strings_view(v: Seq<String>) -> Seq<Seq<char>> {
    Seq::new(v.len(), |i: int| v[i]@)
}

impl View for DownloadTask {
    type V = TaskView;

    closed spec fn view(&self) -> TaskView {
        TaskView {
            min_year: self.min_year as int,
            max_year: self.max_year as int,
            subjects: subjects_view(self.subjects@),
            platform: self.platform,
            phase: self.phase,
            query: (self.subject as int, self.year as int, self.season as int),
            entries: strings_view(self.entries@),
            file: self.file as int,
            url: self.url@,
            save_path: self.save_path@,
        }
    }
}

/// What the task keeps true: the last search is one it makes, and the
/// entry being downloaded is one of its reply.
pub open spec fn task_inv(v: TaskView) -> bool {
    &&& isize::MIN <= v.min_year
    &&& (v.phase == Phase::Searching || v.phase == Phase::Downloading) ==> valid_query(
        selected(v.subjects),
        v.min_year,
        v.max_year,
        v.query,
    )
    &&& v.phase == Phase::Downloading ==> 0 <= v.file < v.entries.len()
}

/// The task once it has searched `q`.
pub open spec fn searching(v: TaskView, q: (int, int, int)) -> TaskView {
    TaskView { phase: Phase::Searching, query: q, entries: Seq::empty(), file: 0, ..v }
}

/// The task and its step once the search it made last is done with: the
/// next search, or the end.
pub open spec fn advance(v: TaskView) -> (TaskView, StepView) {
    match next_query(selected(v.subjects), v.min_year, v.max_year, v.query) {
        Some(q) => (searching(v, q), search_step(v.subjects, q)),
        None => (TaskView { phase: Phase::Finished, ..v }, finish_step()),
    }
}

/// The task and its step on reaching entry `k` of the reply: stop if
/// downloading is no longer wanted, else download the entry's file.
pub open spec fn visit_entry(v: TaskView, k: int, downloading: bool, save_dir: Seq<char>) -> (
    TaskView,
    StepView,
) {
    let e = v.entries[k];
    if !downloading {
        (TaskView { phase: Phase::Stopped, ..v }, stop_step())
    } else if e.len() < 2 {
        (TaskView { phase: Phase::Failed, file: k, ..v }, bad_entry_step(e))
    } else {
        let name = entry_file_name(e);
        let url = FETCH_URL@ + name;
        let path = paper_path(save_dir, v.subjects[v.query.0].2, v.query.1, name, v.platform);
        (
            TaskView { phase: Phase::Downloading, file: k, url: url, save_path: path, ..v },
            download_step(url, path),
        )
    }
}

/// The task and its step with the entries from `k` on still to fetch.
pub open spec fn next_entry(v: TaskView, k: int, downloading: bool, save_dir: Seq<char>) -> (
    TaskView,
    StepView,
) {
    if 0 <= k < v.entries.len() {
        visit_entry(v, k, downloading, save_dir)
    } else {
        advance(v)
    }
}

/// What a search reply lists: its files where its status is 0 and it has a
/// list, and nothing otherwise.
pub open spec fn reply_entries(status: Option<i64>, files: Option<Seq<Seq<char>>>) -> Seq<
    Seq<char>,
> {
    if status == Some(0i64) {
        match files {
            Some(f) => f,
            None => Seq::empty(),
        }
    } else {
        Seq::empty()
    }
}

/// The task and its step once the reply listing `entries` came in.
pub open spec fn after_search(
    v: TaskView,
    entries: Seq<Seq<char>>,
    downloading: bool,
    save_dir: Seq<char>,
) -> (TaskView, StepView) {
    next_entry(TaskView { entries: entries, ..v }, 0, downloading, save_dir)
}

/// The task and its step once a download ended, `ok` telling whether it
/// succeeded: a failed download is tried again while downloading is still
/// wanted, and ends the task once it is not; after one that succeeded the
/// next entry comes.
pub open spec fn after_download(v: TaskView, ok: bool, downloading: bool, save_dir: Seq<char>) -> (
    TaskView,
    StepView,
) {
    if !ok {
        if downloading {
            (v, retry_step(v.url, v.save_path))
        } else {
            (TaskView { phase: Phase::Stopped, ..v }, stop_step())
        }
    } else {
        next_entry(v, v.file + 1, downloading, save_dir)
    }
}

/// A search's reply: the value of its `status` field where that is an
/// integer, and the JSON text of the first element of each element of its
/// `data` field where that is an array.
pub struct SearchReply {
    pub status: Option<i64>,
    pub files: Option<Vec<String>>,
}

/// What the search reply text `text` holds: none where it is no JSON;
/// else the value of its `status` field where that is an integer, and the
/// JSON text of the first element of each element of its `data` field
/// where that is an array.
pub uninterp spec fn search_reply_of(text: Seq<char>) -> Option<(Option<i64>, Option<Seq<Seq<char>>>)>;

/// Reads a search reply.
///
/// Trusted: calls `serde_json::from_str` on `text`, and on the value it
/// gives, indexing by `"status"`, `as_i64`, indexing by `"data"`,
/// `as_array`, and on each element indexing by 0 and `to_string`. What
/// comes back depends on `text` alone and is named by `search_reply_of`.
#[verifier::external_body]
fn parse_search_reply(text: &str) -> (r: Option<SearchReply>)
    ensures
        match r {
            Some(x) => search_reply_of(text@) == Some((x.status, files_view(x.files))),
            None => search_reply_of(text@) is None,
        },
{
    match serde_json::from_str::<serde_json::Value>(text) {
        Ok(v) => Some(SearchReply {
            status: v["status"].as_i64(),
            files: v["data"].as_array().map(|a| a.iter().map(|i| i[0].to_string()).collect()),
        }),
        Err(_) => None,
    }
}

/// The files of a reply as plain values.
pub open spec fn files_view(files: Option<Vec<String>>) -> Option<Seq<Seq<char>>> {
    match files {
        Some(f) => Some(strings_view(f@)),
        None => None,
    }
}

/// A copy of `s`.
fn copy_string(s: &String) -> (r: String)
    ensures
        r@ == s@,
{
    let c = chars_of(s.as_str());
    string_of(&c)
}

/// The first selected subject at `from` or after it.
fn find_selected(subjects: &Vec<(bool, String, String)>, from: usize) -> (r: Option<usize>)
    ensures
        match r {
            Some(i) => next_selected(selected(subjects_view(subjects@)), from as int) == Some(
                i as int,
            ),
            None => next_selected(selected(subjects_view(subjects@)), from as int) is None,
        },
{
    let ghost sel = selected(subjects_view(subjects@));
    let mut i = from;
    while i < subjects.len()
        invariant
            from <= i,
            sel == selected(subjects_view(subjects@)),
            sel.len() == subjects@.len(),
            next_selected(sel, from as int) == next_selected(sel, i as int),
        decreases subjects@.len() - i,
    {
        assert(sel[i as int] == subjects@[i as int].0);
        if subjects[i].0 {
            return Some(i);
        }
        i = i + 1;
    }
    None
}

/// Starts a download task over the years from `min_year` to `max_year`
/// and the subjects in `check_bts` (whether selected, code, name), whose
/// papers are saved as `platform` lays out paths; gives the task and its
/// first step: the first search, or the end where there is none to make.
pub fn start(
    min_year: isize,
    max_year: isize,
    check_bts: Vec<(bool, String, String)>,
    platform: Platform,
) -> (r: (DownloadTask, Step))
    requires
        max_year < isize::MAX || next_selected(selected(subjects_view(check_bts@)), 0) is None,
    ensures
        task_inv(r.0@),
        r.0@.min_year == min_year,
        r.0@.max_year == max_year,
        r.0@.subjects == subjects_view(check_bts@),
        r.0@.platform == platform,
        match first_query(selected(subjects_view(check_bts@)), min_year as int, max_year as int) {
            Some(q) => r.0@ == searching(r.0@, q) && r.1@ == search_step(r.0@.subjects, q),
            None => r.0@.phase == Phase::Finished && r.1@ == finish_step(),
        },
{
    proof {
        lemma_next_selected(selected(subjects_view(check_bts@)), 0);
    }
    let found = find_selected(&check_bts, 0);
    let first = if min_year <= max_year {
        found
    } else {
        None
    };
    let mut task = DownloadTask {
        min_year,
        max_year,
        subjects: check_bts,
        platform,
        phase: Phase::Finished,
        subject: 0,
        year: min_year,
        season: 0,
        entries: Vec::new(),
        file: 0,
        url: String::new(),
        save_path: String::new(),
    };
    match first {
        Some(i) => {
            task.phase = Phase::Searching;
            task.subject = i;
            assert(task@.subjects == subjects_view(check_bts@));
            assert(task@.entries =~= Seq::<Seq<char>>::empty());
            let step = task.search();
            (task, step)
        },
        None => {
            let step = Step { status: string_of(&chars_of("Finish")), command: Command::Finish };
            (task, step)
        },
    }
}

impl DownloadTask {
    /// What the task keeps true.
    pub open spec fn inv(&self) -> bool {
        task_inv(self@)
    }

    /// The step that makes the search the task is at.
    fn search(&self) -> (r: Step)
        requires
            valid_query(selected(self@.subjects), self@.min_year, self@.max_year, self@.query),
        ensures
            r@ == search_step(self@.subjects, self@.query),
    {
        let ghost q = self@.query;
        let i = self.subject;
        assert(selected(self@.subjects).len() == self.subjects@.len());
        let code = copy_string(&self.subjects[i].1);
        let name = chars_of(self.subjects[i].2.as_str());
        let year = decimal_chars(self.year as i64);
        let season_str = season(self.season);
        let sc = chars_of(season_str);
        let mut status = chars_of("Searching: ");
        extend(&mut status, &name);
        let sep = chars_of(" | ");
        extend(&mut status, &sep);
        extend(&mut status, &year);
        extend(&mut status, &sep);
        extend(&mut status, &sc);
        assert(self@.subjects[q.0] == (
            self.subjects@[i as int].0,
            self.subjects@[i as int].1@,
            self.subjects@[i as int].2@,
        ));
        Step {
            status: string_of(&status),
            command: Command::Search {
                code,
                year: string_of(&year),
                season: string_of(&sc),
            },
        }
    }

    /// Moves past the search made last: to the next search, or to the end.
    fn advance(&mut self) -> (r: Step)
        requires
            task_inv(old(self)@),
            old(self)@.phase == Phase::Searching || old(self)@.phase == Phase::Downloading,
        ensures
            (final(self)@, r@) == advance(old(self)@),
            task_inv(final(self)@),
    {
        let ghost v = self@;
        let ghost sel = selected(v.subjects);
        assert(sel.len() == self.subjects@.len());
        proof {
            lemma_next_selected(sel, v.query.0 + 1);
        }
        if self.season + 1 < SEASON_COUNT {
            self.season = self.season + 1;
        } else if self.year < self.max_year {
            self.year = self.year + 1;
            self.season = 0;
        } else {
            let next = if self.subject < self.subjects.len() - 1 {
                find_selected(&self.subjects, self.subject + 1)
            } else {
                None
            };
            match next {
                Some(j) => {
                    self.subject = j;
                    self.year = self.min_year;
                    self.season = 0;
                },
                None => {
                    self.phase = Phase::Finished;
                    return Step { status: string_of(&chars_of("Finish")), command: Command::Finish };
                },
            }
        }
        self.phase = Phase::Searching;
        self.entries = Vec::new();
        self.file = 0;
        assert(self@.entries =~= Seq::<Seq<char>>::empty());
        proof {
            let q = next_query(sel, v.min_year, v.max_year, v.query)->0;
            assert(self@.query == q);
            assert(self@ == searching(v, q));
        }
        self.search()
    }

    /// Reaches entry `k` of the reply.
    fn visit(&mut self, k: usize, downloading: bool, save_dir: &str) -> (r: Step)
        requires
            task_inv(old(self)@),
            old(self)@.phase == Phase::Searching || old(self)@.phase == Phase::Downloading,
            k < old(self)@.entries.len(),
        ensures
            (final(self)@, r@) == visit_entry(old(self)@, k as int, downloading, save_dir@),
            task_inv(final(self)@),
    {
        let ghost v = self@;
        if !downloading {
            self.phase = Phase::Stopped;
            return Step { status: string_of(&chars_of("Stopped")), command: Command::Stop };
        }
        assert(self@.entries[k as int] == self.entries@[k as int]@);
        let e = chars_of(self.entries[k].as_str());
        if e.len() < 2 {
            self.phase = Phase::Failed;
            self.file = k;
            return Step {
                status: String::new(),
                command: Command::BadEntry { entry: string_of(&e) },
            };
        }
        let name = copy_range(&e, 1, e.len() - 1);
        let mut url = chars_of(FETCH_URL);
        extend(&mut url, &name);
        assert(selected(self@.subjects).len() == self.subjects@.len());
        let i = self.subject;
        assert(self@.subjects[i as int].2 == self.subjects@[i as int].2@);
        let dir = chars_of(save_dir);
        let subject_name = chars_of(self.subjects[i].2.as_str());
        let a = join_chars(&dir, &subject_name, self.platform);
        let year = decimal_chars(self.year as i64);
        let b = join_chars(&a, &year, self.platform);
        let path = join_chars(&b, &name, self.platform);
        let mut status = chars_of("Downloading: ");
        extend(&mut status, &path);
        self.phase = Phase::Downloading;
        self.file = k;
        self.url = string_of(&url);
        self.save_path = string_of(&path);
        Step {
            status: string_of(&status),
            command: Command::Download { url: string_of(&url), save_path: string_of(&path) },
        }
    }

    /// Goes on with the entries from `k` on.
    fn next_entry(&mut self, k: usize, downloading: bool, save_dir: &str) -> (r: Step)
        requires
            task_inv(old(self)@),
            old(self)@.phase == Phase::Searching || old(self)@.phase == Phase::Downloading,
        ensures
            (final(self)@, r@) == next_entry(old(self)@, k as int, downloading, save_dir@),
            task_inv(final(self)@),
    {
        if k < self.entries.len() {
            self.visit(k, downloading, save_dir)
        } else {
            self.advance()
        }
    }

    /// Takes in the reply to the search made last. `downloading` tells
    /// whether downloading is still wanted and `save_dir` where papers are
    /// saved, both as they are now.
    pub fn on_search(&mut self, reply: SearchReply, downloading: bool, save_dir: &str) -> (r: Step)
        requires
            old(self).inv(),
            old(self)@.phase == Phase::Searching,
        ensures
            final(self).inv(),
            (final(self)@, r@) == after_search(
                old(self)@,
                reply_entries(reply.status, files_view(reply.files)),
                downloading,
                save_dir@,
            ),
    {
        let ghost v = self@;
        let ghost listed = reply_entries(reply.status, files_view(reply.files));
        let entries: Vec<String> = if reply.status == Some(0i64) {
            match reply.files {
                Some(f) => f,
                None => Vec::new(),
            }
        } else {
            Vec::new()
        };
        assert(strings_view(entries@) =~= listed);
        self.entries = entries;
        assert(self@ == TaskView { entries: listed, ..v });
        self.next_entry(0, downloading, save_dir)
    }

    /// Takes in the text of the reply to the search made last, as the server
    /// sent it. Where the text is no JSON, gives nothing and leaves the task
    /// as it was; else goes on as [`DownloadTask::on_search`] with what the
    /// reply holds.
    pub fn on_search_response(&mut self, text: &str, downloading: bool, save_dir: &str) -> (r:
        Option<Step>)
        requires
            old(self).inv(),
            old(self)@.phase == Phase::Searching,
        ensures
            final(self).inv(),
            match search_reply_of(text@) {
                Some((status, files)) => r matches Some(step) && (final(self)@, step@)
                    == after_search(
                    old(self)@,
                    reply_entries(status, files),
                    downloading,
                    save_dir@,
                ),
                None => r is None && final(self)@ == old(self)@,
            },
    {
        match parse_search_reply(text) {
            Some(reply) => Some(self.on_search(reply, downloading, save_dir)),
            None => None,
        }
    }

    /// Takes in how the download under way ended: `ok` where it succeeded.
    /// `downloading` tells whether downloading is still wanted and
    /// `save_dir` where papers are saved, both as they are now.
    pub fn on_download(&mut self, ok: bool, downloading: bool, save_dir: &str) -> (r: Step)
        requires
            old(self).inv(),
            old(self)@.phase == Phase::Downloading,
        ensures
            final(self).inv(),
            (final(self)@, r@) == after_download(old(self)@, ok, downloading, save_dir@),
    {
        if !ok && !downloading {
            self.phase = Phase::Stopped;
            return Step { status: string_of(&chars_of("Stopped")), command: Command::Stop };
        }
        if !ok {
            let url = copy_string(&self.url);
            let path = copy_string(&self.save_path);
            let mut status = chars_of("Retry: ");
            let pc = chars_of(path.as_str());
            extend(&mut status, &pc);
            return Step { status: string_of(&status), command: Command::Retry { url, save_path: path } };
        }
        assert(self@.entries.len() == self.entries@.len());
        if self.file < self.entries.len() - 1 {
            self.visit(self.file + 1, downloading, save_dir)
        } else {
            self.advance()
        }
    }
}

// ---------------------------------------------------------------------------
// Laws
// ---------------------------------------------------------------------------
/// The searches made in order: the first, and then each one after the one
/// before.
pub open spec fn nth_query(sel: Seq<bool>, min_year: int, max_year: int, n: nat) -> Option<
    (int, int, int),
>
    decreases n,
{
    if n == 0 {
        first_query(sel, min_year, max_year)
    } else {
        match nth_query(sel, min_year, max_year, (n - 1) as nat) {
            Some(q) => next_query(sel, min_year, max_year, q),
            None => None,
        }
    }
}

/// The first search is one the task makes, and it comes before, or is,
/// every other search the task makes.
pub proof fn lemma_first_query(sel: Seq<bool>, min_year: int, max_year: int, r: (int, int, int))
    requires
        valid_query(sel, min_year, max_year, r),
    ensures
        first_query(sel, min_year, max_year) matches Some(f) && valid_query(
            sel,
            min_year,
            max_year,
            f,
        ) && (f == r || query_before(f, r)),
{
    lemma_next_selected(sel, 0);
}

/// The search after a search the task makes is one it makes too, comes
/// after it, and is the first such: no search the task makes lies between
/// the two, so none is skipped and none is made twice.
pub proof fn lemma_next_query_least(
    sel: Seq<bool>,
    min_year: int,
    max_year: int,
    q: (int, int, int),
    r: (int, int, int),
)
    requires
        valid_query(sel, min_year, max_year, q),
        valid_query(sel, min_year, max_year, r),
        query_before(q, r),
    ensures
        next_query(sel, min_year, max_year, q) matches Some(n) && valid_query(
            sel,
            min_year,
            max_year,
            n,
        ) && query_before(q, n) && (n == r || query_before(n, r)),
{
    lemma_next_selected(sel, q.0 + 1);
}

/// Where a search has no next one, no search the task makes comes after
/// it: the task finishes only once every search was made.
pub proof fn lemma_last_query(
    sel: Seq<bool>,
    min_year: int,
    max_year: int,
    q: (int, int, int),
    r: (int, int, int),
)
    requires
        valid_query(sel, min_year, max_year, q),
        next_query(sel, min_year, max_year, q) is None,
        valid_query(sel, min_year, max_year, r),
    ensures
        !query_before(q, r),
{
    if query_before(q, r) {
        lemma_next_query_least(sel, min_year, max_year, q, r);
    }
}

/// Every search from the `n`-th one on is one the task makes.
proof fn lemma_nth_query_valid(sel: Seq<bool>, min_year: int, max_year: int, n: nat)
    ensures
        nth_query(sel, min_year, max_year, n) matches Some(q) ==> valid_query(
            sel,
            min_year,
            max_year,
            q,
        ),
    decreases n,
{
    if n == 0 {
        lemma_next_selected(sel, 0);
    } else {
        lemma_nth_query_valid(sel, min_year, max_year, (n - 1) as nat);
        if let Some(q) = nth_query(sel, min_year, max_year, (n - 1) as nat) {
            lemma_next_selected(sel, q.0 + 1);
        }
    }
}

/// Going on from the `n`-th search, which comes before or is `r`, reaches
/// `r`.
proof fn lemma_reach(
    sel: Seq<bool>,
    min_year: int,
    max_year: int,
    n: nat,
    q: (int, int, int),
    r: (int, int, int),
)
    requires
        nth_query(sel, min_year, max_year, n) == Some(q),
        valid_query(sel, min_year, max_year, q),
        valid_query(sel, min_year, max_year, r),
        q == r || query_before(q, r),
    ensures
        exists|k: nat| nth_query(sel, min_year, max_year, k) == Some(r),
    decreases r.0 - q.0, max_year - q.1, SEASON_COUNT - q.2,
{
    if q == r {
        assert(nth_query(sel, min_year, max_year, n) == Some(r));
    } else {
        lemma_next_query_least(sel, min_year, max_year, q, r);
        let m = next_query(sel, min_year, max_year, q)->0;
        assert(nth_query(sel, min_year, max_year, n + 1) == Some(m));
        lemma_reach(sel, min_year, max_year, n + 1, m, r);
    }
}

/// Every search the task should make, a selected subject with a year in
/// range and a season, is made: it is the `k`-th search for some `k`.
pub proof fn lemma_every_query_made(
    sel: Seq<bool>,
    min_year: int,
    max_year: int,
    r: (int, int, int),
)
    requires
        valid_query(sel, min_year, max_year, r),
    ensures
        exists|k: nat| nth_query(sel, min_year, max_year, k) == Some(r),
{
    lemma_first_query(sel, min_year, max_year, r);
    let f = first_query(sel, min_year, max_year)->0;
    lemma_reach(sel, min_year, max_year, 0, f, r);
}

/// Every search made is one the task should make, and each comes after the
/// one before it.
pub proof fn lemma_queries_made_in_order(sel: Seq<bool>, min_year: int, max_year: int, n: nat)
    ensures
        nth_query(sel, min_year, max_year, n) matches Some(q) ==> valid_query(
            sel,
            min_year,
            max_year,
            q,
        ),
        nth_query(sel, min_year, max_year, n + 1) matches Some(q2) ==> nth_query(
            sel,
            min_year,
            max_year,
            n,
        ) matches Some(q1) && query_before(q1, q2),
{
    lemma_nth_query_valid(sel, min_year, max_year, n);
    if let Some(q) = nth_query(sel, min_year, max_year, n) {
        lemma_next_selected(sel, q.0 + 1);
    }
}

/// A download that failed while downloading is still wanted is tried again
/// with the same address and the same file, and the task stays where it
/// was.
pub proof fn lemma_failed_download_retried(v: TaskView, save_dir: Seq<char>)
    ensures
        after_download(v, false, true, save_dir) == (v, retry_step(v.url, v.save_path)),
{
}

/// Where downloading is no longer wanted, the task stops at the next entry
/// it reaches, after a reply or after a download, or when a download did
/// not succeed, and fetches nothing more.
pub proof fn lemma_stop_honoured(v: TaskView, entries: Seq<Seq<char>>, save_dir: Seq<char>)
    ensures
        entries.len() > 0 ==> after_search(v, entries, false, save_dir) == (
            TaskView { entries: entries, phase: Phase::Stopped, ..v },
            stop_step(),
        ),
        0 <= v.file && v.file + 1 < v.entries.len() ==> after_download(v, true, false, save_dir) == (
            TaskView { phase: Phase::Stopped, ..v },
            stop_step(),
        ),
        after_download(v, false, false, save_dir) == (
            TaskView { phase: Phase::Stopped, ..v },
            stop_step(),
        ),
{
}

/// Where nothing is selected, or the first year comes after the last, the
/// task makes no search and fetches nothing: it finishes at once.
pub proof fn lemma_nothing_to_search(sel: Seq<bool>, min_year: int, max_year: int)
    requires
        min_year > max_year || forall|i: int| 0 <= i < sel.len() ==> !#[trigger] sel[i],
    ensures
        first_query(sel, min_year, max_year) is None,
{
    lemma_next_selected(sel, 0);
}

/// What a download step fetches: the fetch address followed by the file
/// name inside the entry, saved as that name in the folder for the
/// subject's name and the search's year in the save directory.
pub proof fn lemma_download_target(v: TaskView, k: int, save_dir: Seq<char>)
    requires
        0 <= k < v.entries.len(),
        v.entries[k].len() >= 2,
    ensures
        visit_entry(v, k, true, save_dir).1 == download_step(
            FETCH_URL@ + entry_file_name(v.entries[k]),
            paper_path(
                save_dir,
                v.subjects[v.query.0].2,
                v.query.1,
                entry_file_name(v.entries[k]),
                v.platform,
            ),
        ),
{
}

/// Once the download of entry `k` is under way, the task holds that entry's
/// address and file; so when that download fails, while downloading is
/// still wanted, the same entry is fetched again into the same file, and the
/// task goes on waiting for it.
pub proof fn lemma_failed_entry_fetched_again(
    v: TaskView,
    k: int,
    save_dir: Seq<char>,
    later_dir: Seq<char>,
)
    requires
        0 <= k < v.entries.len(),
        v.entries[k].len() >= 2,
    ensures
        ({
            let name = entry_file_name(v.entries[k]);
            let url = FETCH_URL@ + name;
            let path = paper_path(save_dir, v.subjects[v.query.0].2, v.query.1, name, v.platform);
            let w = visit_entry(v, k, true, save_dir).0;
            &&& w.phase == Phase::Downloading
            &&& w.file == k
            &&& w.url == url
            &&& w.save_path == path
            &&& after_download(w, false, true, later_dir) == (
                w,
                StepView {
                    status: "Retry: "@ + path,
                    command: CommandView::Retry { url: url, save_path: path },
                },
            )
        }),
{
}

/// A search names the subject's code, the exam season, and the year written
/// out in full in decimal: read back, the year text gives the search's year,
/// and a year after 0 has no leading zero.
pub proof fn lemma_search_names_year(subjects: Seq<SubjectView>, q: (int, int, int))
    requires
        q.1 >= 0,
    ensures
        ({
            let s = search_step(subjects, q);
            &&& s.command is Search
            &&& s.command->code == subjects[q.0].1
            &&& s.command->season == season_name(q.2)
            &&& s.command->year == decimal(q.1)
            &&& int_of(s.command->year) == Some(q.1)
            &&& all_digits(s.command->year)
            &&& digits_value(s.command->year) == q.1
            &&& (q.1 > 0 ==> s.command->year[0] != '0')
            &&& s.status == "Searching: "@ + subjects[q.0].2 + " | "@ + s.command->year + " | "@
                + s.command->season
        }),
{
    lemma_int_of_decimal(q.1);
    lemma_decimal_natural(q.1);
}

/// A paper is saved inside the save directory, in a folder named after the
/// subject, in it a folder named after the year, under its own name: the
/// save directory, the subject's name, the year and the file name with one
/// separator of the platform between each, `\` on Windows and `/` on macOS
/// and elsewhere, where the names are plain and the save directory does not
/// end with a separator.
pub proof fn lemma_paper_path_layout(
    save_dir: Seq<char>,
    name: Seq<char>,
    year: int,
    file: Seq<char>,
    p: Platform,
)
    requires
        save_dir.len() > 0,
        !is_sep(save_dir.last(), p),
        !is_bare_drive(save_dir, p),
        is_plain_name(name, p),
        is_plain_name(file, p),
        year >= 0,
    ensures
        ({
            let sep = if p == Platform::Windows {
                '\\'
            } else {
                '/'
            };
            paper_path(save_dir, name, year, file, p) == save_dir + seq![sep] + name + seq![sep]
                + decimal(year) + seq![sep] + file
        }),
{
    lemma_decimal_natural(year);
    let y = decimal(year);
    assert(is_plain_name(y, p)) by {
        assert forall|i: int| 0 <= i < y.len() implies !is_sep(#[trigger] y[i], p) && (p
            == Platform::Windows ==> y[i] != ':') by {
            assert(is_digit(y[i]));
        }
    }
    lemma_join_plain(save_dir, name, p);
    let a = path_join(save_dir, name, p);
    lemma_join_plain(a, y, p);
    let b = path_join(a, y, p);
    lemma_join_plain(b, file, p);
}

// ---------------------------------------------------------------------------
// Around the task
// ---------------------------------------------------------------------------
/// What a download does first.
#[derive(Clone, Copy, Debug, PartialEq, Eq, Structural)]
pub enum FetchPlan {
    /// Downloading is no longer wanted: fetch nothing; nothing was
    /// downloaded.
    Stop,
    /// The file is there already: fetch nothing; the file is there.
    Skip,
    /// Fetch the file; it is there where the server answered with success.
    Fetch,
}

/// What a download does, given whether downloading is still wanted and
/// whether its file exists already.
pub fn fetch_plan(downloading: bool, exists: bool) -> (r: FetchPlan)
    ensures
        !downloading ==> r == FetchPlan::Stop,
        downloading && exists ==> r == FetchPlan::Skip,
        downloading && !exists ==> r == FetchPlan::Fetch,
{
    if !downloading {
        FetchPlan::Stop
    } else if exists {
        FetchPlan::Skip
    } else {
        FetchPlan::Fetch
    }
}

/// Whether a download succeeded, that is whether its file is there: not
/// where it was stopped, yes where the file was there already, and where
/// it was fetched, whether the server answered with success (the caller
/// then wrote the file).
pub fn download_outcome(plan: FetchPlan, server_success: bool) -> (r: bool)
    ensures
        plan == FetchPlan::Stop ==> !r,
        plan == FetchPlan::Skip ==> r,
        plan == FetchPlan::Fetch ==> r == server_success,
{
    match plan {
        FetchPlan::Stop => false,
        FetchPlan::Skip => true,
        FetchPlan::Fetch => server_success,
    }
}

/// The answer to a request to start downloading while `downloading` tells
/// whether a download runs: whether to start one, and the status text.
pub fn request_start(downloading: bool) -> (r: (bool, String))
    ensures
        r.0 == !downloading,
        !downloading ==> r.1@ == "Start!"@,
        downloading ==> r.1@ == "Last download has not finished. Please try again after it is finished. "@,
{
    if !downloading {
        (true, string_of(&chars_of("Start!")))
    } else {
        (
            false,
            string_of(
                &chars_of(
                    "Last download has not finished. Please try again after it is finished. ",
                ),
            ),
        )
    }
}

/// The answer to a request to stop while `downloading` tells whether a
/// download runs: the status text to show, where there is one. Downloading
/// is not wanted afterwards either way.
pub fn request_stop(downloading: bool) -> (r: Option<String>)
    ensures
        downloading ==> (r matches Some(t) && t@ == "Trying to stop"@),
        !downloading ==> r is None,
{
    if downloading {
        Some(string_of(&chars_of("Trying to stop")))
    } else {
        None
    }
}

} // verus!
