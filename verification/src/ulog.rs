//! Flight logs: which ones there are, and what the log reader replies.
//!
//! The logs themselves are read by a helper process, which the application
//! runs; it answers in JSON.

use vstd::prelude::*;
use crate::json::{
    json_count_at, json_error, json_lists_at, json_numbers_at, json_string_at, json_strings_at,
};
#[allow(unused_imports)]
use crate::json::{
    json_count, json_fault, json_lists, json_numbers, json_string, json_strings, list_items,
    opt_lists, opt_numbers, opt_strings, opt_texts, string_items,
};
#[allow(unused_imports)]
use crate::fleet::opt_text;
use crate::listing::{list_files, order_by, FileEntry};
#[allow(unused_imports)]
use crate::listing::{directory_listing, in_order, numbers, ranked, SummaryModel};
use crate::text::{
    chars_of, contains_char, contains_text, copy_texts, ends_text, is_alphanumeric, joined,
    longer_than, parse_number, same, starts_text, trim_text,
};
#[allow(unused_imports)]
use crate::text::{
    alphanumeric, byte_len, ends, has_text, number_of, opt_view, starts, texts, trimmed,
};

verus! {

/// Most points of one reply.
pub const MAX_POINTS_PER_REQUEST: u64 = 10_000;

/// Why a flight log cannot be read.
#[derive(Debug, Clone, PartialEq, Eq)]
pub enum ULogError {
    Io(String),
    NotFound(String),
    Pyulog(String),
    Json(String),
}

pub enum ULogErrorModel {
    Io(Seq<char>),
    NotFound(Seq<char>),
    Pyulog(Seq<char>),
    Json(Seq<char>),
}

impl View for ULogError {
    type V = ULogErrorModel;

    open spec fn view(&self) -> ULogErrorModel {
        match self {
            ULogError::Io(s) => ULogErrorModel::Io(s@),
            ULogError::NotFound(s) => ULogErrorModel::NotFound(s@),
            ULogError::Pyulog(s) => ULogErrorModel::Pyulog(s@),
            ULogError::Json(s) => ULogErrorModel::Json(s@),
        }
    }
}

pub open spec fn ulog_error_text(e: ULogErrorModel) -> Seq<char> {
    match e {
        ULogErrorModel::Io(e) => "io: "@ + e,
        ULogErrorModel::NotFound(name) => "ulog file '"@ + name + "' not found"@,
        ULogErrorModel::Pyulog(m) => "pyulog: "@ + m,
        ULogErrorModel::Json(e) => "json: "@ + e,
    }
}

impl ULogError {
    /// What a reader is told.
    pub fn text(&self) -> (r: String)
        ensures
            r@ == ulog_error_text(self@),
    {
        match self {
            ULogError::Io(e) => joined("io: ", e.as_str()),
            ULogError::NotFound(name) => {
                let mut s = joined("ulog file '", name.as_str());
                s.append("' not found");
                s
            },
            ULogError::Pyulog(m) => joined("pyulog: ", m.as_str()),
            ULogError::Json(e) => joined("json: ", e.as_str()),
        }
    }
}

/// A flight log of a directory.
#[derive(Debug, Clone, PartialEq, Eq)]
pub struct ULogSummary {
    pub filename: String,
    pub size_bytes: u64,
    /// Seconds since the epoch.
    pub mtime: u64,
}

impl View for ULogSummary {
    type V = SummaryModel;

    open spec fn view(&self) -> SummaryModel {
        SummaryModel {
            filename: self.filename@,
            size_bytes: self.size_bytes,
            mtime: self.mtime,
        }
    }
}

pub open spec fn ulog_summaries(s: Seq<ULogSummary>) -> Seq<SummaryModel> {
    Seq::new(s.len(), |i: int| s[i]@)
}

/// The flight logs among the entries of a directory, by name.
pub fn list_ulogs(entries: &Vec<FileEntry>) -> (r: Vec<ULogSummary>)
    ensures
        ulog_summaries(r@) == directory_listing(entries@, "ulg"@),
{
    let files = list_files(entries, "ulg");
    let mut r: Vec<ULogSummary> = Vec::new();
    let mut i: usize = 0;
    while i < files.len()
        invariant
            i <= files@.len(),
            r@.len() == i,
            forall|k: int| 0 <= k < i ==> (#[trigger] r@[k])@ == files@[k]@,
        decreases files@.len() - i,
    {
        let f = &files[i];
        r.push(
            ULogSummary {
                filename: f.filename.clone(),
                size_bytes: f.size_bytes,
                mtime: f.mtime,
            },
        );
        i = i + 1;
    }
    assert(ulog_summaries(r@) =~= crate::listing::summaries(files@));
    r
}

/// A log's name that stays inside its directory: not empty, at most 192 bytes,
/// no separator, no NUL, no two dots in a row, and not a single dot.
pub open spec fn acceptable_log_name(name: Seq<char>) -> bool {
    &&& name.len() > 0
    &&& byte_len(name) <= 192
    &&& !name.contains('/')
    &&& !name.contains('\\')
    &&& !name.contains('\0')
    &&& name != "."@
    &&& !has_text(name, ".."@)
}

/// The file of a log's name: its extension may be left out.
pub open spec fn log_file(name: Seq<char>) -> Seq<char> {
    if ends(name, ".ulg"@) {
        name
    } else {
        name + ".ulg"@
    }
}

/// The file that a log's name stands for.
pub fn ulog_file_name(name: &str) -> (r: Result<String, ULogError>)
    ensures
        r is Ok <==> acceptable_log_name(name@),
        r matches Ok(s) ==> s@ == log_file(name@),
        r matches Err(e) ==> e@ == ULogErrorModel::NotFound(name@),
{
    proof {
        reveal_strlit("");
        assert(name@.len() == 0 <==> name@ =~= ""@);
        reveal_strlit("..");
        if name@ == ".."@ {
            assert(name@.subrange(0, 2) =~= ".."@);
            assert(crate::text::stands_at(name@, ".."@, 0));
        }
    }
    if same(name, "") || longer_than(name, 192) || contains_char(name, '/') || contains_char(
        name,
        '\\',
    ) || contains_char(name, '\0') || same(name, ".") || same(name, "..") || contains_text(
        name,
        "..",
    ) {
        return Err(ULogError::NotFound(String::from_str(name)));
    }
    if ends_text(name, ".ulg") {
        Ok(String::from_str(name))
    } else {
        Ok(joined(name, ".ulg"))
    }
}

/// What the file system says of a log's file.
#[derive(Debug, Clone, PartialEq, Eq)]
pub enum LogPlace {
    /// It is not there, or cannot be resolved.
    Missing,
    /// Its directory cannot be resolved.
    NoDirectory(String),
    /// Both, resolved: no links, no dots.
    Resolved { path: String, dir: String },
}

/// A resolved path lies in a resolved directory.
pub open spec fn within(path: Seq<char>, dir: Seq<char>) -> bool {
    path == dir || starts(path, dir + "/"@) || dir == "/"@
}

/// Where a log lies, and its file's name: only inside its directory.
pub open spec fn log_found(name: Seq<char>, place: LogPlace) -> Result<
    (Seq<char>, Seq<char>),
    ULogErrorModel,
> {
    if !acceptable_log_name(name) {
        Err(ULogErrorModel::NotFound(name))
    } else {
        match place {
            LogPlace::Missing => Err(ULogErrorModel::NotFound(name)),
            LogPlace::NoDirectory(e) => Err(ULogErrorModel::Io(e@)),
            LogPlace::Resolved { path, dir } => if within(path@, dir@) {
                Ok((path@, log_file(name)))
            } else {
                Err(ULogErrorModel::NotFound(name))
            },
        }
    }
}

/// Where a log lies, and its file's name.
pub fn resolve_ulog_path(name: &str, place: &LogPlace) -> (r: Result<(String, String), ULogError>)
    ensures
        (match r {
            Ok(f) => Ok((f.0@, f.1@)),
            Err(e) => Err(e@),
        }) == log_found(name@, *place),
{
    let file = match ulog_file_name(name) {
        Ok(f) => f,
        Err(e) => return Err(e),
    };
    match place {
        LogPlace::Missing => Err(ULogError::NotFound(String::from_str(name))),
        LogPlace::NoDirectory(e) => Err(ULogError::Io(e.clone())),
        LogPlace::Resolved { path, dir } => {
            let inside = joined(dir.as_str(), "/");
            if same(path.as_str(), dir.as_str()) || starts_text(path.as_str(), inside.as_str())
                || same(dir.as_str(), "/") {
                Ok((path.clone(), file))
            } else {
                Err(ULogError::NotFound(String::from_str(name)))
            }
        },
    }
}

pub open spec fn topic_char(c: char) -> bool {
    alphanumeric(c) || c == '_' || c == '.'
}

/// A topic's name: letters, digits, underscores and dots, at most 192 bytes.
pub open spec fn valid_topic(name: Seq<char>) -> bool {
    &&& name.len() > 0
    &&& byte_len(name) <= 192
    &&& forall|i: int| 0 <= i < name.len() ==> topic_char(#[trigger] name[i])
}

/// Check a topic's name.
pub fn validate_topic_name(name: &str) -> (r: Result<(), ULogError>)
    ensures
        r is Ok <==> valid_topic(name@),
        r matches Err(e) ==> e@ == ULogErrorModel::NotFound(name@),
{
    let c = chars_of(name);
    if c.len() == 0 || longer_than(name, 192) {
        return Err(ULogError::NotFound(String::from_str(name)));
    }
    let mut i: usize = 0;
    while i < c.len()
        invariant
            i <= c@.len(),
            c@ == name@,
            forall|k: int| 0 <= k < i ==> topic_char(#[trigger] name@[k]),
        decreases c@.len() - i,
    {
        if !(is_alphanumeric(c[i]) || c[i] == '_' || c[i] == '.') {
            assert(!topic_char(name@[i as int]));
            return Err(ULogError::NotFound(String::from_str(name)));
        }
        i = i + 1;
    }
    Ok(())
}

/// Most points of one reply: the environment's number, where it is one.
pub fn max_points(setting: Option<&str>) -> (r: u64)
    ensures
        r == (match opt_view(setting) {
            Some(s) => match number_of(s, u64::MAX as nat) {
                Some(n) => n,
                None => MAX_POINTS_PER_REQUEST as nat,
            },
            None => MAX_POINTS_PER_REQUEST as nat,
        }),
{
    match setting {
        None => MAX_POINTS_PER_REQUEST,
        Some(s) => match parse_number(&chars_of(s), u64::MAX) {
            Some(n) => n,
            None => MAX_POINTS_PER_REQUEST,
        },
    }
}

// Replies of the log reader.

/// How the log reader ended.
#[derive(Debug, Clone, PartialEq, Eq)]
pub struct HelperOutput {
    pub success: bool,
    pub stdout: String,
    pub stderr: String,
}

/// The strings among the first `n` items.
pub open spec fn strings_in(items: Seq<Option<Seq<char>>>, n: nat) -> Seq<Seq<char>>
    decreases n,
{
    if n == 0 {
        Seq::empty()
    } else {
        let s = strings_in(items, (n - 1) as nat);
        match items[n - 1] {
            Some(t) => s.push(t),
            None => s,
        }
    }
}

/// The topics a reply lists: the strings of its list.
pub open spec fn topics_in(stdout: Seq<char>, items: Option<Seq<Option<Seq<char>>>>) -> Result<
    Seq<Seq<char>>,
    ULogErrorModel,
> {
    match items {
        Some(items) => Ok(strings_in(items, items.len())),
        None => Err(ULogErrorModel::Pyulog("pyulog returned non-array: "@ + stdout)),
    }
}

pub open spec fn texts_result(r: Result<Vec<String>, ULogError>) -> Result<
    Seq<Seq<char>>,
    ULogErrorModel,
> {
    match r {
        Ok(v) => Ok(texts(v@)),
        Err(e) => Err(e@),
    }
}

/// The topics a reply lists, given the items of its list.
pub fn topic_names(stdout: &str, items: Option<Vec<Option<String>>>) -> (r: Result<
    Vec<String>,
    ULogError,
>)
    ensures
        texts_result(r) == topics_in(stdout@, opt_strings(items)),
{
    let list = match items {
        Some(l) => l,
        None => return Err(ULogError::Pyulog(joined("pyulog returned non-array: ", stdout))),
    };
    let ghost all = string_items(list@);
    let mut r: Vec<String> = Vec::new();
    let mut i: usize = 0;
    assert(texts(r@) =~= Seq::<Seq<char>>::empty());
    while i < list.len()
        invariant
            i <= list@.len(),
            all == string_items(list@),
            texts(r@) == strings_in(all, i as nat),
        decreases list@.len() - i,
    {
        assert(all[i as int] == opt_text(list@[i as int]));
        match &list[i] {
            Some(t) => {
                let ghost before = r@;
                r.push(t.clone());
                assert(texts(r@) =~= texts(before).push(t@));
            },
            None => {},
        }
        i = i + 1;
    }
    Ok(r)
}

/// The topics of a log, as the log reader listed them.
pub fn list_topics(out: &HelperOutput) -> (r: Result<Vec<String>, ULogError>)
    ensures
        texts_result(r) == if !out.success {
            Err(ULogErrorModel::Pyulog(out.stderr@))
        } else {
            match json_fault(trimmed(out.stdout@)) {
                Some(e) => Err(ULogErrorModel::Json(e)),
                None => topics_in(out.stdout@, json_strings(trimmed(out.stdout@), ""@)),
            }
        },
{
    if !out.success {
        return Err(ULogError::Pyulog(out.stderr.clone()));
    }
    let text = trim_text(out.stdout.as_str());
    match json_error(text.as_str()) {
        Some(e) => Err(ULogError::Json(e)),
        None => topic_names(out.stdout.as_str(), json_strings_at(text.as_str(), "")),
    }
}

/// A topic of a log over a stretch of time.
#[derive(Debug, Clone)]
pub struct ULogTopicData {
    pub topic: String,
    /// Seconds, double precision.
    pub from_s: Option<u64>,
    pub to_s: Option<u64>,
    /// Samples in the topic, before thinning out.
    pub total_points: u64,
    /// One sample in this many was kept.
    pub stride: u64,
    /// Seconds since the start of the log, double precision.
    pub t: Vec<u64>,
    /// Fields by name, each with a JSON text per sample.
    pub fields: Vec<(String, Vec<String>)>,
}

#[verifier::ext_equal]
pub struct TopicDataModel {
    pub topic: Seq<char>,
    pub from_s: Option<u64>,
    pub to_s: Option<u64>,
    pub total_points: u64,
    pub stride: u64,
    pub t: Seq<u64>,
    pub fields: Seq<(Seq<char>, Seq<Seq<char>>)>,
}

pub open spec fn fields_of(s: Seq<(String, Vec<String>)>) -> Seq<(Seq<char>, Seq<Seq<char>>)> {
    Seq::new(s.len(), |i: int| (s[i].0@, texts(s[i].1@)))
}

impl View for ULogTopicData {
    type V = TopicDataModel;

    open spec fn view(&self) -> TopicDataModel {
        TopicDataModel {
            topic: self.topic@,
            from_s: self.from_s,
            to_s: self.to_s,
            total_points: self.total_points,
            stride: self.stride,
            t: self.t@,
            fields: fields_of(self.fields@),
        }
    }
}

/// The numbers among the first `n` items.
pub open spec fn numbers_in(items: Seq<Option<u64>>, n: nat) -> Seq<u64>
    decreases n,
{
    if n == 0 {
        Seq::empty()
    } else {
        let s = numbers_in(items, (n - 1) as nat);
        match items[n - 1] {
            Some(t) => s.push(t),
            None => s,
        }
    }
}

/// The members among the first `n` that have a list.
pub open spec fn lists_in(
    members: Seq<(Seq<char>, Option<Seq<Seq<char>>>)>,
    n: nat,
) -> Seq<(Seq<char>, Seq<Seq<char>>)>
    decreases n,
{
    if n == 0 {
        Seq::empty()
    } else {
        let s = lists_in(members, (n - 1) as nat);
        match members[n - 1].1 {
            Some(list) => s.push((members[n - 1].0, list)),
            None => s,
        }
    }
}

pub open spec fn names_of(s: Seq<(Seq<char>, Seq<Seq<char>>)>) -> Seq<Seq<char>> {
    Seq::new(s.len(), |i: int| s[i].0)
}

/// What a reply about a topic holds.
pub struct TopicReply {
    pub error: Option<String>,
    pub t: Option<Vec<Option<u64>>>,
    pub fields: Option<Vec<(String, Option<Vec<String>>)>>,
    pub total_points: Option<u64>,
    pub stride: Option<u64>,
}

pub struct ReplyModel {
    pub error: Option<Seq<char>>,
    pub t: Option<Seq<Option<u64>>>,
    pub fields: Option<Seq<(Seq<char>, Option<Seq<Seq<char>>>)>>,
    pub total_points: Option<u64>,
    pub stride: Option<u64>,
}

impl View for TopicReply {
    type V = ReplyModel;

    open spec fn view(&self) -> ReplyModel {
        ReplyModel {
            error: opt_text(self.error),
            t: opt_numbers(self.t),
            fields: opt_lists(self.fields),
            total_points: self.total_points,
            stride: self.stride,
        }
    }
}

/// The data of a reply: its numbers for the time axis, its lists for the
/// fields, by name; a count it leaves out is the number of samples, and a
/// stride it leaves out is one.
pub open spec fn data_in(
    topic: Seq<char>,
    from_s: Option<u64>,
    to_s: Option<u64>,
    reply: ReplyModel,
) -> Result<TopicDataModel, ULogErrorModel> {
    match reply.error {
        Some(e) => Err(ULogErrorModel::Pyulog(e)),
        None => {
            let t = match reply.t {
                Some(items) => numbers_in(items, items.len()),
                None => Seq::empty(),
            };
            let fields = match reply.fields {
                Some(members) => {
                    let s = lists_in(members, members.len());
                    in_order(s, names_of(s), false)
                },
                None => Seq::empty(),
            };
            Ok(
                TopicDataModel {
                    topic,
                    from_s,
                    to_s,
                    total_points: match reply.total_points {
                        Some(n) => n,
                        None => t.len() as u64,
                    },
                    stride: match reply.stride {
                        Some(n) => n,
                        None => 1,
                    },
                    t,
                    fields,
                },
            )
        },
    }
}

pub open spec fn data_result(r: Result<ULogTopicData, ULogError>) -> Result<
    TopicDataModel,
    ULogErrorModel,
> {
    match r {
        Ok(d) => Ok(d@),
        Err(e) => Err(e@),
    }
}

fn keep_numbers(items: &Option<Vec<Option<u64>>>) -> (r: Vec<u64>)
    ensures
        r@ == (match opt_numbers(*items) {
            Some(s) => numbers_in(s, s.len()),
            None => Seq::empty(),
        }),
{
    let mut r: Vec<u64> = Vec::new();
    match items {
        Some(list) => {
            let mut i: usize = 0;
            assert(r@ =~= Seq::<u64>::empty());
            while i < list.len()
                invariant
                    i <= list@.len(),
                    r@ == numbers_in(list@, i as nat),
                decreases list@.len() - i,
            {
                match list[i] {
                    Some(t) => {
                        r.push(t);
                    },
                    None => {},
                }
                i = i + 1;
            }
        },
        None => {
            assert(r@ =~= Seq::<u64>::empty());
        },
    }
    r
}

fn keep_lists(members: &Vec<(String, Option<Vec<String>>)>) -> (r: Vec<(String, Vec<String>)>)
    ensures
        fields_of(r@) == lists_in(list_items(members@), members@.len()),
{
    let ghost all = list_items(members@);
    let mut r: Vec<(String, Vec<String>)> = Vec::new();
    let mut i: usize = 0;
    assert(fields_of(r@) =~= Seq::<(Seq<char>, Seq<Seq<char>>)>::empty());
    while i < members.len()
        invariant
            i <= members@.len(),
            all == list_items(members@),
            fields_of(r@) == lists_in(all, i as nat),
        decreases members@.len() - i,
    {
        assert(all[i as int] == (members@[i as int].0@, opt_texts(members@[i as int].1)));
        match &members[i].1 {
            Some(list) => {
                let ghost before = r@;
                r.push((members[i].0.clone(), copy_texts(list)));
                assert(fields_of(r@) =~= fields_of(before).push(
                    (members@[i as int].0@, texts(list@)),
                ));
            },
            None => {},
        }
        i = i + 1;
    }
    r
}

fn sort_fields(fields: &Vec<(String, Vec<String>)>) -> (r: Vec<(String, Vec<String>)>)
    ensures
        fields_of(r@) == in_order(fields_of(fields@), names_of(fields_of(fields@)), false),
{
    let ghost all = fields_of(fields@);
    let mut keys: Vec<String> = Vec::new();
    let mut i: usize = 0;
    while i < fields.len()
        invariant
            i <= fields@.len(),
            keys@.len() == i,
            forall|k: int| 0 <= k < i ==> (#[trigger] keys@[k])@ == fields@[k].0@,
        decreases fields@.len() - i,
    {
        keys.push(fields[i].0.clone());
        i = i + 1;
    }
    assert(texts(keys@) =~= names_of(all));
    let order = order_by(&keys, false);
    let mut r: Vec<(String, Vec<String>)> = Vec::new();
    let mut k: usize = 0;
    while k < order.len()
        invariant
            k <= order@.len(),
            order@.len() == fields@.len(),
            all == fields_of(fields@),
            forall|j: int| 0 <= j < order@.len() ==> #[trigger] order@[j] < fields@.len(),
            r@.len() == k,
            forall|j: int| 0 <= j < k ==> #[trigger] fields_of(r@)[j] == all[order@[j] as int],
        decreases order@.len() - k,
    {
        assert(order@[k as int] < fields@.len());
        let f = &fields[order[k]];
        let ghost before = r@;
        r.push((f.0.clone(), copy_texts(&f.1)));
        assert forall|j: int| 0 <= j < k + 1 implies #[trigger] fields_of(r@)[j]
            == all[order@[j] as int] by {
            if j < k {
                assert(fields_of(before)[j] == all[order@[j] as int]);
                assert(r@[j] == before[j]);
            }
        }
        k = k + 1;
    }
    proof {
        let q = ranked(names_of(all), all.len(), false);
        assert(numbers(order@) == q);
        assert forall|j: int| 0 <= j < r@.len() implies #[trigger] fields_of(r@)[j] == in_order(
            all,
            names_of(all),
            false,
        )[j] by {
            assert(numbers(order@)[j] == q[j]);
        }
        assert(fields_of(r@) =~= in_order(all, names_of(all), false));
    }
    r
}

/// The data of a reply about a topic.
pub fn topic_data(topic: &str, from_s: Option<u64>, to_s: Option<u64>, reply: &TopicReply) -> (r:
    Result<ULogTopicData, ULogError>)
    ensures
        data_result(r) == data_in(topic@, from_s, to_s, reply@),
{
    match &reply.error {
        Some(e) => return Err(ULogError::Pyulog(e.clone())),
        None => {},
    }
    let t = keep_numbers(&reply.t);
    let fields = match &reply.fields {
        Some(members) => sort_fields(&keep_lists(members)),
        None => {
            let none: Vec<(String, Vec<String>)> = Vec::new();
            assert(fields_of(none@) =~= Seq::<(Seq<char>, Seq<Seq<char>>)>::empty());
            none
        },
    };
    let total_points: u64 = match reply.total_points {
        Some(n) => n,
        None => t.len() as u64,
    };
    let stride: u64 = match reply.stride {
        Some(n) => n,
        None => 1,
    };
    Ok(
        ULogTopicData {
            topic: String::from_str(topic),
            from_s,
            to_s,
            total_points,
            stride,
            t,
            fields,
        },
    )
}

/// What a JSON reply about a topic holds.
pub open spec fn reply_of(text: Seq<char>) -> ReplyModel {
    ReplyModel {
        error: json_string(text, "/error"@),
        t: json_numbers(text, "/t"@),
        fields: json_lists(text, "/fields"@),
        total_points: json_count(text, "/total_points"@),
        stride: json_count(text, "/stride"@),
    }
}

/// A topic of a log over a stretch of time, as the log reader replied.
pub fn read_topic_data(
    topic: &str,
    from_s: Option<u64>,
    to_s: Option<u64>,
    out: &HelperOutput,
) -> (r: Result<ULogTopicData, ULogError>)
    ensures
        data_result(r) == if !valid_topic(topic@) {
            Err(ULogErrorModel::NotFound(topic@))
        } else if !out.success {
            Err(ULogErrorModel::Pyulog(out.stderr@))
        } else {
            match json_fault(trimmed(out.stdout@)) {
                Some(e) => Err(ULogErrorModel::Json(e)),
                None => data_in(topic@, from_s, to_s, reply_of(trimmed(out.stdout@))),
            }
        },
{
    match validate_topic_name(topic) {
        Ok(_) => {},
        Err(e) => return Err(e),
    }
    if !out.success {
        return Err(ULogError::Pyulog(out.stderr.clone()));
    }
    let trimmed_text = trim_text(out.stdout.as_str());
    let text = trimmed_text.as_str();
    match json_error(text) {
        Some(e) => return Err(ULogError::Json(e)),
        None => {},
    }
    let reply = TopicReply {
        error: json_string_at(text, "/error"),
        t: json_numbers_at(text, "/t"),
        fields: json_lists_at(text, "/fields"),
        total_points: json_count_at(text, "/total_points"),
        stride: json_count_at(text, "/stride"),
    };
    topic_data(topic, from_s, to_s, &reply)
}

/// The messages by which a helper says that the log reader is not installed.
pub open spec fn reader_missing(m: Seq<char>) -> bool {
    has_text(m, "No module named 'pyulog'"@) || has_text(m, "ImportError"@) || has_text(
        m,
        "ModuleNotFoundError"@,
    ) || has_text(m, "No module named"@)
}

/// HTTP status and code for a log that could not be read.
pub fn ulog_failure(e: &ULogError) -> (r: (u16, &'static str))
    ensures
        r.0 == (if e@ matches ULogErrorModel::Pyulog(m) && reader_missing(m) {
            503u16
        } else {
            422u16
        }),
        r.1@ == (if e@ matches ULogErrorModel::Pyulog(m) && reader_missing(m) {
            "ULOG_PARSER_UNAVAILABLE"@
        } else {
            "ULOG_PARSE_ERROR"@
        }),
{
    match e {
        ULogError::Pyulog(m) => {
            let m = m.as_str();
            if contains_text(m, "No module named 'pyulog'") || contains_text(m, "ImportError")
                || contains_text(m, "ModuleNotFoundError") || contains_text(m, "No module named") {
                (503, "ULOG_PARSER_UNAVAILABLE")
            } else {
                (422, "ULOG_PARSE_ERROR")
            }
        },
        _ => (422, "ULOG_PARSE_ERROR"),
    }
}

/// HTTP status and code for a log that could not be found.
pub fn lookup_failure(e: &ULogError) -> (r: (u16, &'static str))
    ensures
        r.0 == (if e@ is NotFound {
            404u16
        } else {
            500u16
        }),
        r.1@ == (if e@ is NotFound {
            "ULOG_NOT_FOUND"@
        } else {
            "ULOG_ERROR"@
        }),
{
    match e {
        ULogError::NotFound(_) => (404, "ULOG_NOT_FOUND"),
        _ => (500, "ULOG_ERROR"),
    }
}

/// A log that is found lies in the directory it was looked for in, and its
/// name leads nowhere else.
pub proof fn found_logs_lie_in_their_directory(name: Seq<char>, path: String, dir: String)
    ensures
        log_found(name, LogPlace::Resolved { path, dir }) matches Ok(found) ==> {
            &&& within(found.0, dir@)
            &&& !found.1.contains('/')
            &&& ends(found.1, ".ulg"@)
        },
{
    reveal_strlit(".ulg");
    let place = LogPlace::Resolved { path, dir };
    if log_found(name, place) is Ok {
        let file = log_file(name);
        if file.contains('/') {
            let i = choose|i: int| 0 <= i < file.len() && file[i] == '/';
            if i < name.len() {
                assert(name[i] == '/');
            }
        }
        if !ends(name, ".ulg"@) {
            assert(file.subrange(name.len() as int, file.len() as int) =~= ".ulg"@);
        }
    }
}

/// A log's name is one component of a path: one to 192 bytes without slash,
/// backslash or null, and neither a dot nor with two dots in a row. Any other
/// name is not found, and neither is a log outside its directory.
pub proof fn log_names_are_checked(name: Seq<char>, path: String, dir: String)
    ensures
        ({
            let r = log_found(name, LogPlace::Resolved { path, dir });
            let plain = 1 <= name.len() && byte_len(name) <= 192 && !name.contains('/')
                && !name.contains('\\') && !name.contains('\0') && name != "."@ && forall|i: int|
                0 <= i < name.len() - 1 ==> !(#[trigger] name[i] == '.' && name[i + 1] == '.');
            &&& !plain ==> r == Err::<(Seq<char>, Seq<char>), ULogErrorModel>(
                ULogErrorModel::NotFound(name),
            )
            &&& plain && path@ == dir@ ==> r is Ok
            &&& r matches Ok(found) ==> plain && found.0 == path@
            &&& log_found(name, LogPlace::Missing) == Err::<
                (Seq<char>, Seq<char>),
                ULogErrorModel,
            >(ULogErrorModel::NotFound(name))
        }),
{
    reveal_strlit("..");
    assert(".."@ =~= seq!['.', '.']);
    let none = forall|i: int|
        0 <= i < name.len() - 1 ==> !(#[trigger] name[i] == '.' && name[i + 1] == '.');
    if has_text(name, ".."@) {
        let i = choose|i: int| crate::text::stands_at(name, ".."@, i);
        assert(name.subrange(i, i + 2)[0] == name[i] && name.subrange(i, i + 2)[1] == name[i + 1]);
        assert(name[i] == '.' && name[i + 1] == '.');
    }
    if !none {
        let i = choose|i: int|
            0 <= i < name.len() - 1 && (#[trigger] name[i] == '.' && name[i + 1] == '.');
        assert(name.subrange(i, i + 2) =~= ".."@);
        assert(crate::text::stands_at(name, ".."@, i));
    }
}

/// What a log's topic shows is what its reader said: an error where it said
/// one, else the times and fields it gave, with the number of points and the
/// stride it gave, or the number of times and one where it gave none.
pub proof fn topic_data_is_the_readers(
    topic: Seq<char>,
    from_s: Option<u64>,
    to_s: Option<u64>,
    reply: ReplyModel,
)
    ensures
        match data_in(topic, from_s, to_s, reply) {
            Err(e) => reply.error is Some && e == ULogErrorModel::Pyulog(reply.error->0),
            Ok(d) => {
                &&& reply.error is None
                &&& d.topic == topic
                &&& d.from_s == from_s
                &&& d.to_s == to_s
                &&& reply.total_points matches Some(n) ==> d.total_points == n
                &&& reply.total_points is None ==> d.total_points == d.t.len() as u64
                &&& reply.stride matches Some(n) ==> d.stride == n
                &&& reply.stride is None ==> d.stride == 1
                &&& reply.t is None ==> d.t.len() == 0
                &&& reply.t matches Some(items) ==> d.t == numbers_in(items, items.len())
                &&& reply.fields is None ==> d.fields.len() == 0
                &&& reply.fields matches Some(members) ==> d.fields.len() == lists_in(
                    members,
                    members.len(),
                ).len()
            },
        },
{
    if let Some(members) = reply.fields {
        let s = lists_in(members, members.len());
        crate::listing::order_is_stable(names_of(s), s.len(), false);
    }
}

/// Of a list the numbers are kept, in order, and whatever else is in it is
/// left out; likewise for the texts of a list and for the lists of an object.
pub proof fn only_what_fits_is_kept(
    numbers: Seq<Option<u64>>,
    strings: Seq<Option<Seq<char>>>,
    members: Seq<(Seq<char>, Option<Seq<Seq<char>>>)>,
    n: nat,
)
    ensures
        n < numbers.len() ==> numbers_in(numbers, n + 1) == (match numbers[n as int] {
            Some(v) => numbers_in(numbers, n).push(v),
            None => numbers_in(numbers, n),
        }),
        n < strings.len() ==> strings_in(strings, n + 1) == (match strings[n as int] {
            Some(v) => strings_in(strings, n).push(v),
            None => strings_in(strings, n),
        }),
        n < members.len() ==> lists_in(members, n + 1) == (match members[n as int].1 {
            Some(v) => lists_in(members, n).push((members[n as int].0, v)),
            None => lists_in(members, n),
        }),
        numbers_in(numbers, 0).len() == 0,
        strings_in(strings, 0).len() == 0,
        lists_in(members, 0).len() == 0,
{
}

/// A topic's name has one to 192 bytes of letters, digits, underscores and
/// dots.
pub proof fn topic_names_are_checked(name: Seq<char>)
    ensures
        valid_topic(name) <==> 1 <= name.len() && byte_len(name) <= 192 && forall|i: int|
            0 <= i < name.len() ==> {
                let c = (#[trigger] name[i]) as int;
                48 <= c <= 57 || 65 <= c <= 90 || 97 <= c <= 122 || c == 95 || c == 46
            },
{
    assert forall|i: int| 0 <= i < name.len() implies topic_char(#[trigger] name[i]) == ({
        let c = name[i] as int;
        48 <= c <= 57 || 65 <= c <= 90 || 97 <= c <= 122 || c == 95 || c == 46
    }) by {}
}

/// A reader's reply holds its error, times, fields, number of points and
/// stride each under its own name.
pub proof fn replies_are_read_by_name(text: Seq<char>)
    ensures
        ({
            let r = reply_of(text);
            &&& r.error == json_string(text, "/error"@)
            &&& r.t == json_numbers(text, "/t"@)
            &&& r.fields == json_lists(text, "/fields"@)
            &&& r.total_points == json_count(text, "/total_points"@)
            &&& r.stride == json_count(text, "/stride"@)
        }),
{
}

} // verus!
