//! Recorded simulator runs: a header, then one record of fixed length per
//! tick, each closed by a checksum.

use vstd::prelude::*;
use vstd::slice::slice_subrange;
use crate::crc::X25Crc;
#[allow(unused_imports)]
use crate::crc::{crc_detects_one_changed_byte, crc_of};
use crate::listing::{list_files, FileEntry};
pub use crate::listing::ReplaySummary;
#[allow(unused_imports)]
use crate::listing::{directory_listing, summaries};
#[allow(unused_imports)]
use crate::messages::{u16_of, u32_of, u64_of};
use crate::text::{
    contains_char, contains_text, join_path, joined, push_decimal, same, starts_text,
};
#[allow(unused_imports)]
use crate::text::{decimal, has_text, path_joined};

verus! {

/// First bytes of a recording.
pub const MAGIC: [u8; 8] = [0x52, 0x53, 0x49, 0x54, 0x53, 0x49, 0x4D, 0x31];

/// The one version there is.
pub const VERSION: u16 = 1;

/// Header length, bytes.
pub const HEADER_LEN: usize = 64;

/// Length of a record, bytes.
pub const RECORD_LEN: usize = 96;

// Hexadecimal.

pub open spec fn hex_digit(d: int) -> char {
    if d < 10 {
        (48 + d) as char
    } else {
        (87 + d) as char
    }
}

fn push_hex_digit(s: &mut String, d: u8)
    requires
        d < 16,
    ensures
        final(s)@ == old(s)@.push(hex_digit(d as int)),
{
    if d < 10 {
        s.push((48 + d) as char);
    } else {
        s.push((87 + d) as char);
    }
}

/// A byte in two lower-case digits.
pub open spec fn hex_byte(b: u8) -> Seq<char> {
    seq![hex_digit(b as int / 16), hex_digit(b as int % 16)]
}

fn push_hex_byte(s: &mut String, b: u8)
    ensures
        final(s)@ == old(s)@ + hex_byte(b),
{
    push_hex_digit(s, b / 16);
    push_hex_digit(s, b % 16);
    assert(s@ =~= old(s)@ + hex_byte(b));
}

/// Bytes in lower-case digits, two each.
pub open spec fn hex_of(bytes: Seq<u8>) -> Seq<char>
    decreases bytes.len(),
{
    if bytes.len() == 0 {
        Seq::empty()
    } else {
        hex_of(bytes.drop_last()) + hex_byte(bytes.last())
    }
}

/// Bytes as lower-case hexadecimal.
pub fn hex_lower(bytes: &[u8]) -> (r: String)
    ensures
        r@ == hex_of(bytes@),
{
    let mut s = String::new();
    let mut i: usize = 0;
    assert(bytes@.subrange(0, 0) =~= Seq::<u8>::empty());
    assert(s@ =~= hex_of(bytes@.subrange(0, 0)));
    while i < bytes.len()
        invariant
            i <= bytes@.len(),
            s@ == hex_of(bytes@.subrange(0, i as int)),
        decreases bytes@.len() - i,
    {
        proof {
            let head = bytes@.subrange(0, i + 1);
            assert(head.drop_last() =~= bytes@.subrange(0, i as int));
            assert(head.last() == bytes@[i as int]);
        }
        push_hex_byte(&mut s, bytes[i]);
        i = i + 1;
    }
    assert(bytes@.subrange(0, bytes@.len() as int) =~= bytes@);
    s
}

/// A checksum as `0x` and four digits.
pub open spec fn hex_word(v: u16) -> Seq<char> {
    "0x"@ + hex_byte((v / 256) as u8) + hex_byte((v % 256) as u8)
}

fn push_hex_word(s: &mut String, v: u16)
    ensures
        final(s)@ == old(s)@ + hex_word(v),
{
    s.append("0x");
    push_hex_byte(s, (v / 256) as u8);
    push_hex_byte(s, (v % 256) as u8);
    assert(s@ =~= old(s)@ + hex_word(v));
}

// Little-endian fields of a slice.

fn u16_in(p: &[u8], i: usize) -> (r: u16)
    requires
        i + 2 <= p@.len(),
    ensures
        r == u16_of(p@, i as int),
{
    (p[i] as u16) | ((p[i + 1] as u16) << 8)
}

fn u32_in(p: &[u8], i: usize) -> (r: u32)
    requires
        i + 4 <= p@.len(),
    ensures
        r == u32_of(p@, i as int),
{
    (p[i] as u32) | ((p[i + 1] as u32) << 8) | ((p[i + 2] as u32) << 16) | ((p[i + 3] as u32)
        << 24)
}

fn u64_in(p: &[u8], i: usize) -> (r: u64)
    requires
        i + 8 <= p@.len(),
    ensures
        r == u64_of(p@, i as int),
{
    let n: usize = p.len();
    assert(i + 8 <= n);
    (u32_in(p, i) as u64) | ((u32_in(p, i + 4) as u64) << 32)
}

// The header.

/// A recording's header.
#[derive(Debug, Clone, PartialEq, Eq)]
pub struct ReplayHeader {
    pub version: u16,
    /// Ticks in a thousand seconds.
    pub rate_millihz: u32,
    pub seed: u64,
    pub start_t_us: u64,
    /// Digest of the scenario, 32 bytes.
    pub scenario_hash: Vec<u8>,
}

#[verifier::ext_equal]
pub struct HeaderModel {
    pub version: u16,
    pub rate_millihz: u32,
    pub seed: u64,
    pub start_t_us: u64,
    pub scenario_hash: Seq<u8>,
}

impl View for ReplayHeader {
    type V = HeaderModel;

    open spec fn view(&self) -> HeaderModel {
        HeaderModel {
            version: self.version,
            rate_millihz: self.rate_millihz,
            seed: self.seed,
            start_t_us: self.start_t_us,
            scenario_hash: self.scenario_hash@,
        }
    }
}

/// The header that 64 bytes hold, or what is wrong with them.
pub open spec fn header_of(b: Seq<u8>) -> Result<HeaderModel, Seq<char>> {
    if b.len() != HEADER_LEN {
        Err("header length "@ + decimal(b.len()) + " != 64"@)
    } else if b.subrange(0, 8) != MAGIC@ {
        Err("bad magic (not a rustsitsim replay)"@)
    } else if u16_of(b, 8) != VERSION {
        Err("unsupported replay version "@ + decimal(u16_of(b, 8) as nat))
    } else {
        Ok(
            HeaderModel {
                version: u16_of(b, 8),
                rate_millihz: u32_of(b, 12),
                seed: u64_of(b, 16),
                start_t_us: u64_of(b, 24),
                scenario_hash: b.subrange(32, 64),
            },
        )
    }
}

pub open spec fn header_result(r: Result<ReplayHeader, String>) -> Result<HeaderModel, Seq<char>> {
    match r {
        Ok(h) => Ok(h@),
        Err(e) => Err(e@),
    }
}

fn magic_matches(b: &[u8]) -> (r: bool)
    requires
        b@.len() >= 8,
    ensures
        r == (b@.subrange(0, 8) == MAGIC@),
{
    let magic = MAGIC;
    let mut i: usize = 0;
    while i < 8
        invariant
            i <= 8,
            b@.len() >= 8,
            magic@ == MAGIC@,
            magic@.len() == 8,
            forall|j: int| 0 <= j < i ==> b@[j] == #[trigger] magic@[j],
        decreases 8 - i,
    {
        if b[i] != magic[i] {
            assert(b@.subrange(0, 8)[i as int] != MAGIC@[i as int]);
            return false;
        }
        i = i + 1;
    }
    assert(b@.subrange(0, 8) =~= MAGIC@);
    true
}

fn copy_bytes(b: &[u8], from: usize, to: usize) -> (r: Vec<u8>)
    requires
        from <= to <= b@.len(),
    ensures
        r@ == b@.subrange(from as int, to as int),
{
    let mut r: Vec<u8> = Vec::new();
    let mut i: usize = from;
    while i < to
        invariant
            from <= i <= to <= b@.len(),
            r@ == b@.subrange(from as int, i as int),
        decreases to - i,
    {
        r.push(b[i]);
        i = i + 1;
        assert(r@ =~= b@.subrange(from as int, i as int));
    }
    r
}

/// Read and check a header.
pub fn decode_header(buf: &[u8]) -> (r: Result<ReplayHeader, String>)
    ensures
        header_result(r) == header_of(buf@),
{
    if buf.len() != HEADER_LEN {
        let mut s = String::from_str("header length ");
        push_decimal(&mut s, buf.len() as u64);
        s.append(" != 64");
        return Err(s);
    }
    if !magic_matches(buf) {
        return Err(String::from_str("bad magic (not a rustsitsim replay)"));
    }
    let version: u16 = u16_in(buf, 8);
    if version != VERSION {
        let mut s = String::from_str("unsupported replay version ");
        push_decimal(&mut s, version as u64);
        return Err(s);
    }
    let h = ReplayHeader {
        version,
        rate_millihz: u32_in(buf, 12),
        seed: u64_in(buf, 16),
        start_t_us: u64_in(buf, 24),
        scenario_hash: copy_bytes(buf, 32, 64),
    };
    Ok(h)
}

// Records.

/// One tick of a recording.
#[derive(Debug, Clone, PartialEq, Eq)]
pub struct TickRecord {
    pub t_us: u64,
    /// Sixteen commanded motor inputs, in steps of 1/255.
    pub motors: Vec<u8>,
    /// Position, velocity, attitude, body rates and rotors: seventeen single
    /// precision numbers.
    pub state: Vec<u32>,
    /// Bit `i` is set while fault `i` is active.
    pub fault_flags: u16,
}

#[verifier::ext_equal]
pub struct RecordModel {
    pub t_us: u64,
    pub motors: Seq<u8>,
    pub state: Seq<u32>,
    pub fault_flags: u16,
}

impl View for TickRecord {
    type V = RecordModel;

    open spec fn view(&self) -> RecordModel {
        RecordModel {
            t_us: self.t_us,
            motors: self.motors@,
            state: self.state@,
            fault_flags: self.fault_flags,
        }
    }
}

pub open spec fn state_of(b: Seq<u8>) -> Seq<u32> {
    Seq::new(17, |i: int| u32_of(b, 24 + 4 * i))
}

/// The record that 96 bytes hold, or what is wrong with them.
pub open spec fn record_of(b: Seq<u8>) -> Result<RecordModel, Seq<char>> {
    if b.len() != RECORD_LEN {
        Err("record length "@ + decimal(b.len()) + " != 96"@)
    } else if u16_of(b, 94) != crc_of(b.subrange(0, 94)) {
        Err(
            "CRC mismatch: stored "@ + hex_word(u16_of(b, 94)) + ", computed "@ + hex_word(
                crc_of(b.subrange(0, 94)),
            ),
        )
    } else {
        Ok(
            RecordModel {
                t_us: u64_of(b, 0),
                motors: b.subrange(8, 24),
                state: state_of(b),
                fault_flags: u16_of(b, 92),
            },
        )
    }
}

pub open spec fn record_result(r: Result<TickRecord, String>) -> Result<RecordModel, Seq<char>> {
    match r {
        Ok(h) => Ok(h@),
        Err(e) => Err(e@),
    }
}

/// Read a record and check its checksum.
pub fn decode_record(buf: &[u8]) -> (r: Result<TickRecord, String>)
    ensures
        record_result(r) == record_of(buf@),
{
    if buf.len() != RECORD_LEN {
        let mut s = String::from_str("record length ");
        push_decimal(&mut s, buf.len() as u64);
        s.append(" != 96");
        return Err(s);
    }
    let stored: u16 = u16_in(buf, 94);
    let mut c = X25Crc::new();
    c.accumulate_range(buf, 0, 94);
    let expected: u16 = c.value();
    if stored != expected {
        let mut s = String::from_str("CRC mismatch: stored ");
        push_hex_word(&mut s, stored);
        s.append(", computed ");
        push_hex_word(&mut s, expected);
        return Err(s);
    }
    let mut state: Vec<u32> = Vec::new();
    let mut i: usize = 0;
    while i < 17
        invariant
            i <= 17,
            buf@.len() == RECORD_LEN,
            state@.len() == i,
            forall|k: int| 0 <= k < i ==> #[trigger] state@[k] == u32_of(buf@, 24 + 4 * k),
        decreases 17 - i,
    {
        state.push(u32_in(buf, 24 + 4 * i));
        i = i + 1;
    }
    assert(state@ =~= state_of(buf@));
    let rec = TickRecord {
        t_us: u64_in(buf, 0),
        motors: copy_bytes(buf, 8, 24),
        state,
        fault_flags: u16_in(buf, 92),
    };
    Ok(rec)
}

// Topics.

/// A named part of a record's state.
#[derive(Debug, Clone, Copy, PartialEq, Eq, Structural)]
pub enum Topic {
    Position,
    Velocity,
    Attitude,
    BodyRates,
    Rotors,
}

/// A named part of a record's state, and how it is shown.
#[derive(Debug, Clone)]
pub struct TopicSpec {
    pub name: &'static str,
    pub label: &'static str,
    pub unit: &'static str,
    /// First place in the state.
    pub start: usize,
    /// Place behind the last.
    pub end: usize,
    /// One name per component.
    pub components: Vec<String>,
}

impl Topic {
    pub open spec fn name(self) -> Seq<char> {
        match self {
            Topic::Position => "pos_ned_m"@,
            Topic::Velocity => "vel_ned_ms"@,
            Topic::Attitude => "q_wxyz"@,
            Topic::BodyRates => "omega_rads"@,
            Topic::Rotors => "rotors"@,
        }
    }

    pub open spec fn label(self) -> Seq<char> {
        match self {
            Topic::Position => "Position (NED)"@,
            Topic::Velocity => "Velocity (NED)"@,
            Topic::Attitude => "Attitude quaternion (wxyz)"@,
            Topic::BodyRates => "Body rates"@,
            Topic::Rotors => "Rotor state"@,
        }
    }

    pub open spec fn unit(self) -> Seq<char> {
        match self {
            Topic::Position => "m"@,
            Topic::Velocity => "m/s"@,
            Topic::Attitude => ""@,
            Topic::BodyRates => "rad/s"@,
            Topic::Rotors => ""@,
        }
    }

    pub open spec fn start(self) -> int {
        match self {
            Topic::Position => 0,
            Topic::Velocity => 3,
            Topic::Attitude => 6,
            Topic::BodyRates => 10,
            Topic::Rotors => 13,
        }
    }

    pub open spec fn end(self) -> int {
        match self {
            Topic::Position => 3,
            Topic::Velocity => 6,
            Topic::Attitude => 10,
            Topic::BodyRates => 13,
            Topic::Rotors => 17,
        }
    }

    pub open spec fn components(self) -> Seq<Seq<char>> {
        match self {
            Topic::Attitude => seq!["w"@, "x"@, "y"@, "z"@],
            Topic::Rotors => seq!["r0"@, "r1"@, "r2"@, "r3"@],
            _ => seq!["x"@, "y"@, "z"@],
        }
    }
}

/// `t` describes the topic.
pub open spec fn describes(t: TopicSpec, topic: Topic) -> bool {
    &&& t.name@ == topic.name()
    &&& t.label@ == topic.label()
    &&& t.unit@ == topic.unit()
    &&& t.start == topic.start()
    &&& t.end == topic.end()
    &&& crate::text::texts(t.components@) == topic.components()
}

fn three(a: &str, b: &str, c: &str) -> (r: Vec<String>)
    ensures
        crate::text::texts(r@) == seq![a@, b@, c@],
{
    let mut r: Vec<String> = Vec::new();
    r.push(String::from_str(a));
    r.push(String::from_str(b));
    r.push(String::from_str(c));
    assert(crate::text::texts(r@) =~= seq![a@, b@, c@]);
    r
}

fn four(a: &str, b: &str, c: &str, d: &str) -> (r: Vec<String>)
    ensures
        crate::text::texts(r@) == seq![a@, b@, c@, d@],
{
    let mut r = three(a, b, c);
    let ghost t = crate::text::texts(r@);
    r.push(String::from_str(d));
    assert(crate::text::texts(r@) =~= t.push(d@));
    assert(t.push(d@) =~= seq![a@, b@, c@, d@]);
    r
}

impl Topic {
    /// How the topic is shown.
    pub fn spec(self) -> (r: TopicSpec)
        ensures
            describes(r, self),
    {
        match self {
            Topic::Position => TopicSpec {
                name: "pos_ned_m",
                label: "Position (NED)",
                unit: "m",
                start: 0,
                end: 3,
                components: three("x", "y", "z"),
            },
            Topic::Velocity => TopicSpec {
                name: "vel_ned_ms",
                label: "Velocity (NED)",
                unit: "m/s",
                start: 3,
                end: 6,
                components: three("x", "y", "z"),
            },
            Topic::Attitude => TopicSpec {
                name: "q_wxyz",
                label: "Attitude quaternion (wxyz)",
                unit: "",
                start: 6,
                end: 10,
                components: four("w", "x", "y", "z"),
            },
            Topic::BodyRates => TopicSpec {
                name: "omega_rads",
                label: "Body rates",
                unit: "rad/s",
                start: 10,
                end: 13,
                components: three("x", "y", "z"),
            },
            Topic::Rotors => TopicSpec {
                name: "rotors",
                label: "Rotor state",
                unit: "",
                start: 13,
                end: 17,
                components: four("r0", "r1", "r2", "r3"),
            },
        }
    }
}

/// Every topic, in the order of the state.
pub const TOPICS: [Topic; 5] = [
    Topic::Position,
    Topic::Velocity,
    Topic::Attitude,
    Topic::BodyRates,
    Topic::Rotors,
];

/// The topic of a name.
pub open spec fn topic_named(name: Seq<char>) -> Option<Topic> {
    if name == Topic::Position.name() {
        Some(Topic::Position)
    } else if name == Topic::Velocity.name() {
        Some(Topic::Velocity)
    } else if name == Topic::Attitude.name() {
        Some(Topic::Attitude)
    } else if name == Topic::BodyRates.name() {
        Some(Topic::BodyRates)
    } else if name == Topic::Rotors.name() {
        Some(Topic::Rotors)
    } else {
        None
    }
}

/// The topic of a name, if there is one.
pub fn topic_by_name(name: &str) -> (r: Option<TopicSpec>)
    ensures
        match topic_named(name@) {
            Some(t) => r is Some && describes(r->0, t),
            None => r is None,
        },
{
    if same(name, "pos_ned_m") {
        Some(Topic::Position.spec())
    } else if same(name, "vel_ned_ms") {
        Some(Topic::Velocity.spec())
    } else if same(name, "q_wxyz") {
        Some(Topic::Attitude.spec())
    } else if same(name, "omega_rads") {
        Some(Topic::BodyRates.spec())
    } else if same(name, "rotors") {
        Some(Topic::Rotors.spec())
    } else {
        None
    }
}

// Files.

/// Why a recording cannot be read.
#[derive(Debug, Clone, PartialEq, Eq)]
pub enum ReplayError {
    NotFound(String),
    BadHeader(String),
    BadRecord(String),
    TopicNotFound(String),
    RangeOutOfBounds { from: u64, to: u64, records: u64 },
    Io(String),
}

pub enum ReplayErrorModel {
    NotFound(Seq<char>),
    BadHeader(Seq<char>),
    BadRecord(Seq<char>),
    TopicNotFound(Seq<char>),
    RangeOutOfBounds { from: u64, to: u64, records: u64 },
    Io(Seq<char>),
}

impl View for ReplayError {
    type V = ReplayErrorModel;

    open spec fn view(&self) -> ReplayErrorModel {
        match self {
            ReplayError::NotFound(s) => ReplayErrorModel::NotFound(s@),
            ReplayError::BadHeader(s) => ReplayErrorModel::BadHeader(s@),
            ReplayError::BadRecord(s) => ReplayErrorModel::BadRecord(s@),
            ReplayError::TopicNotFound(s) => ReplayErrorModel::TopicNotFound(s@),
            ReplayError::RangeOutOfBounds { from, to, records } =>
                ReplayErrorModel::RangeOutOfBounds { from: *from, to: *to, records: *records },
            ReplayError::Io(s) => ReplayErrorModel::Io(s@),
        }
    }
}

pub open spec fn replay_error_text(e: ReplayErrorModel) -> Seq<char> {
    match e {
        ReplayErrorModel::NotFound(n) => "replay '"@ + n + "' not found"@,
        ReplayErrorModel::BadHeader(m) => "bad replay header: "@ + m,
        ReplayErrorModel::BadRecord(m) => "bad replay record: "@ + m,
        ReplayErrorModel::TopicNotFound(t) => "topic '"@ + t + "' not found"@,
        ReplayErrorModel::RangeOutOfBounds { from, to, records } => "tick range ["@ + decimal(
            from as nat,
        ) + ", "@ + decimal(to as nat) + "] out of bounds (file has "@ + decimal(records as nat)
            + " records)"@,
        ReplayErrorModel::Io(e) => "io: "@ + e,
    }
}

impl ReplayError {
    /// What a reader is told.
    pub fn text(&self) -> (r: String)
        ensures
            r@ == replay_error_text(self@),
    {
        match self {
            ReplayError::NotFound(n) => {
                let mut s = joined("replay '", n.as_str());
                s.append("' not found");
                s
            },
            ReplayError::BadHeader(m) => joined("bad replay header: ", m.as_str()),
            ReplayError::BadRecord(m) => joined("bad replay record: ", m.as_str()),
            ReplayError::TopicNotFound(t) => {
                let mut s = joined("topic '", t.as_str());
                s.append("' not found");
                s
            },
            ReplayError::RangeOutOfBounds { from, to, records } => {
                let mut s = String::from_str("tick range [");
                push_decimal(&mut s, *from);
                s.append(", ");
                push_decimal(&mut s, *to);
                s.append("] out of bounds (file has ");
                push_decimal(&mut s, *records);
                s.append(" records)");
                s
            },
            ReplayError::Io(e) => joined("io: ", e.as_str()),
        }
    }
}

/// A name that stays inside its directory: not empty, no separator, no
/// leading dot and no two dots in a row.
pub open spec fn safe_name(name: Seq<char>) -> bool {
    &&& name.len() > 0
    &&& !name.contains('/')
    &&& !name.contains('\\')
    &&& !has_text(name, ".."@)
    &&& name[0] != '.'
}

/// The name of a file, if it is safe.
pub fn sanitize_filename(name: &str) -> (r: Result<String, ReplayError>)
    ensures
        r is Ok <==> safe_name(name@),
        r matches Ok(s) ==> s@ == name@,
        r matches Err(e) ==> e@ == ReplayErrorModel::NotFound(name@),
{
    proof {
        reveal_strlit(".");
        reveal_strlit("");
        if name@.len() > 0 {
            assert(name@.subrange(0, 1) =~= seq![name@[0]]);
            assert("."@ =~= seq!['.']);
            assert(seq![name@[0]][0] == name@[0]);
            assert(seq!['.'][0] == '.');
        }
        assert(name@.len() == 0 <==> name@ =~= ""@);
    }
    if same(name, "") || contains_char(name, '/') || contains_char(name, '\\') || contains_text(
        name,
        "..",
    ) || starts_text(name, ".") {
        return Err(ReplayError::NotFound(String::from_str(name)));
    }
    Ok(String::from_str(name))
}

/// Where a recording lies in its directory, given whether there is such a file.
pub fn replay_path(dir: &str, name: &str, exists: bool) -> (r: Result<String, ReplayError>)
    ensures
        r is Ok <==> safe_name(name@) && exists,
        r matches Ok(s) ==> s@ == path_joined(dir@, name@),
        r matches Err(e) ==> e@ == ReplayErrorModel::NotFound(name@),
{
    match sanitize_filename(name) {
        Ok(safe) => {
            if exists {
                Ok(join_path(dir, safe.as_str()))
            } else {
                Err(ReplayError::NotFound(String::from_str(name)))
            }
        },
        Err(e) => Err(e),
    }
}

/// The recordings among the entries of a directory, by name.
pub fn list_replay_files(entries: &Vec<FileEntry>) -> (r: Vec<ReplaySummary>)
    ensures
        summaries(r@) == directory_listing(entries@, "replay"@),
{
    list_files(entries, "replay")
}

/// The flight logs among the entries of a directory, by name.
pub fn list_ulog_files(entries: &Vec<FileEntry>) -> (r: Vec<ReplaySummary>)
    ensures
        summaries(r@) == directory_listing(entries@, "ulg"@),
{
    list_files(entries, "ulg")
}

/// Number of whole records behind a header.
pub open spec fn record_count(len: nat) -> nat
    recommends
        len >= HEADER_LEN,
{
    ((len - HEADER_LEN) as nat) / (RECORD_LEN as nat)
}

/// What a recording says of itself.
#[derive(Debug, Clone, PartialEq, Eq)]
pub struct ReplayMeta {
    pub filename: String,
    pub version: u16,
    pub rate_millihz: u32,
    pub seed: u64,
    pub start_t_us: u64,
    pub scenario_sha256: String,
    pub records: u64,
    /// Length of the file, bytes.
    pub size_bytes: u64,
}

#[verifier::ext_equal]
pub struct MetaModel {
    pub filename: Seq<char>,
    pub version: u16,
    pub rate_millihz: u32,
    pub seed: u64,
    pub start_t_us: u64,
    pub scenario_sha256: Seq<char>,
    pub records: nat,
    pub size_bytes: nat,
}

impl View for ReplayMeta {
    type V = MetaModel;

    open spec fn view(&self) -> MetaModel {
        MetaModel {
            filename: self.filename@,
            version: self.version,
            rate_millihz: self.rate_millihz,
            seed: self.seed,
            start_t_us: self.start_t_us,
            scenario_sha256: self.scenario_sha256@,
            records: self.records as nat,
            size_bytes: self.size_bytes as nat,
        }
    }
}

/// What lies under a name.
#[derive(Debug, Clone, PartialEq, Eq)]
pub enum FileContent {
    /// Nothing.
    Missing,
    /// A file that could not be read, and why.
    Unreadable(String),
    Read(Vec<u8>),
}

pub enum ContentModel {
    Missing,
    Unreadable(Seq<char>),
    Read(Seq<u8>),
}

impl View for FileContent {
    type V = ContentModel;

    open spec fn view(&self) -> ContentModel {
        match self {
            FileContent::Missing => ContentModel::Missing,
            FileContent::Unreadable(e) => ContentModel::Unreadable(e@),
            FileContent::Read(b) => ContentModel::Read(b@),
        }
    }
}

/// The bytes of a file whose name is safe, which is there and can be read.
pub open spec fn file_found(name: Seq<char>, file: ContentModel) -> Result<
    Seq<u8>,
    ReplayErrorModel,
> {
    if !safe_name(name) {
        Err(ReplayErrorModel::NotFound(name))
    } else {
        match file {
            ContentModel::Missing => Err(ReplayErrorModel::NotFound(name)),
            ContentModel::Unreadable(e) => Err(ReplayErrorModel::Io(e)),
            ContentModel::Read(b) => Ok(b),
        }
    }
}

fn find_file<'a>(name: &str, file: &'a FileContent) -> (r: Result<&'a [u8], ReplayError>)
    ensures
        match file_found(name@, file@) {
            Ok(b) => r is Ok && r->Ok_0@ == b,
            Err(e) => r is Err && r->Err_0@ == e,
        },
{
    match sanitize_filename(name) {
        Err(e) => Err(e),
        Ok(_) => match file {
            FileContent::Missing => Err(ReplayError::NotFound(String::from_str(name))),
            FileContent::Unreadable(e) => Err(ReplayError::Io(String::from_str(e.as_str()))),
            FileContent::Read(b) => Ok(b.as_slice()),
        },
    }
}

/// What the file under a name says of itself.
pub open spec fn meta_found(name: Seq<char>, file: ContentModel) -> Result<
    MetaModel,
    ReplayErrorModel,
> {
    match file_found(name, file) {
        Err(e) => Err(e),
        Ok(bytes) => meta_of(name, bytes),
    }
}

pub open spec fn meta_of(name: Seq<char>, bytes: Seq<u8>) -> Result<MetaModel, ReplayErrorModel> {
    if bytes.len() < HEADER_LEN {
        Err(
            ReplayErrorModel::BadHeader(
                "file too small: "@ + decimal(bytes.len()) + " bytes (need >= 64)"@,
            ),
        )
    } else {
        match header_of(bytes.subrange(0, 64)) {
            Err(e) => Err(ReplayErrorModel::BadHeader(e)),
            Ok(h) => Ok(
                MetaModel {
                    filename: name,
                    version: h.version,
                    rate_millihz: h.rate_millihz,
                    seed: h.seed,
                    start_t_us: h.start_t_us,
                    scenario_sha256: hex_of(h.scenario_hash),
                    records: record_count(bytes.len()),
                    size_bytes: bytes.len(),
                },
            ),
        }
    }
}

pub open spec fn meta_result(r: Result<ReplayMeta, ReplayError>) -> Result<
    MetaModel,
    ReplayErrorModel,
> {
    match r {
        Ok(m) => Ok(m@),
        Err(e) => Err(e@),
    }
}

/// Read what a recording says of itself; `file` is what lies under the name.
pub fn read_replay_meta(name: &str, file: &FileContent) -> (r: Result<ReplayMeta, ReplayError>)
    ensures
        meta_result(r) == meta_found(name@, file@),
{
    let bytes = match find_file(name, file) {
        Ok(b) => b,
        Err(e) => return Err(e),
    };
    let n: usize = bytes.len();
    if n < HEADER_LEN {
        let mut s = String::from_str("file too small: ");
        push_decimal(&mut s, n as u64);
        s.append(" bytes (need >= 64)");
        return Err(ReplayError::BadHeader(s));
    }
    match decode_header(slice_subrange(bytes, 0, HEADER_LEN)) {
        Err(e) => Err(ReplayError::BadHeader(e)),
        Ok(h) => {
            let m = ReplayMeta {
                filename: String::from_str(name),
                version: h.version,
                rate_millihz: h.rate_millihz,
                seed: h.seed,
                start_t_us: h.start_t_us,
                scenario_sha256: hex_lower(h.scenario_hash.as_slice()),
                records: ((n - HEADER_LEN) / RECORD_LEN) as u64,
                size_bytes: n as u64,
            };
            Ok(m)
        },
    }
}

/// When a tick took place.
#[derive(Debug, Clone, Copy, PartialEq, Eq, Structural)]
pub enum TickTime {
    /// Microseconds into the run.
    Micros(u64),
    /// The recording has no tick rate to divide the tick's number by.
    NoRate,
}

/// A topic at one tick.
#[derive(Debug, Clone, PartialEq, Eq)]
pub struct TopicDataPoint {
    pub tick: u64,
    pub time: TickTime,
    /// One single precision number per component.
    pub values: Vec<u32>,
}

#[verifier::ext_equal]
pub struct PointModel {
    pub tick: u64,
    pub time: TickTime,
    pub values: Seq<u32>,
}

impl View for TopicDataPoint {
    type V = PointModel;

    open spec fn view(&self) -> PointModel {
        PointModel { tick: self.tick, time: self.time, values: self.values@ }
    }
}

pub open spec fn points_of(s: Seq<TopicDataPoint>) -> Seq<PointModel> {
    Seq::new(s.len(), |i: int| s[i]@)
}

/// A topic over a range of ticks.
#[derive(Debug, Clone)]
pub struct ReplayTopicData {
    pub topic: String,
    pub label: String,
    pub unit: String,
    pub components: Vec<String>,
    pub from_tick: u64,
    pub to_tick: u64,
    pub rate_millihz: u32,
    pub points: Vec<TopicDataPoint>,
}

#[verifier::ext_equal]
pub struct DataModel {
    pub topic: Topic,
    pub from_tick: u64,
    pub to_tick: u64,
    pub rate_millihz: u32,
    pub points: Seq<PointModel>,
}

/// `d` shows the data.
pub open spec fn shows(d: ReplayTopicData, m: DataModel) -> bool {
    &&& d.topic@ == m.topic.name()
    &&& d.label@ == m.topic.label()
    &&& d.unit@ == m.topic.unit()
    &&& crate::text::texts(d.components@) == m.topic.components()
    &&& d.from_tick == m.from_tick
    &&& d.to_tick == m.to_tick
    &&& d.rate_millihz == m.rate_millihz
    &&& points_of(d.points@) == m.points
}

/// The bytes of record `tick`.
pub open spec fn record_bytes(bytes: Seq<u8>, tick: int) -> Seq<u8> {
    bytes.subrange(64 + tick * 96, 64 + tick * 96 + 96)
}

/// The topic at the first `n` ticks from `from` on, up to a record that cannot
/// be read.
pub open spec fn points_read(
    bytes: Seq<u8>,
    topic: Topic,
    rate_millihz: u32,
    from: u64,
    n: nat,
) -> Result<Seq<PointModel>, Seq<char>>
    decreases n,
{
    if n == 0 {
        Ok(Seq::empty())
    } else {
        match points_read(bytes, topic, rate_millihz, from, (n - 1) as nat) {
            Err(e) => Err(e),
            Ok(s) => match record_of(record_bytes(bytes, from + n - 1)) {
                Err(e) => Err(e),
                Ok(rec) => Ok(
                    s.push(
                        PointModel {
                            tick: (from + n - 1) as u64,
                            time: if rate_millihz > 0 {
                                TickTime::Micros(rec.t_us)
                            } else {
                                TickTime::NoRate
                            },
                            values: rec.state.subrange(topic.start(), topic.end()),
                        },
                    ),
                ),
            },
        }
    }
}

/// A topic of a recording, from one tick to another, both included.
pub open spec fn topic_of(bytes: Seq<u8>, t: Topic, from: u64, to: u64) -> Result<
    DataModel,
    ReplayErrorModel,
> {
    if bytes.len() < HEADER_LEN {
        Err(
            ReplayErrorModel::BadHeader("file too small: "@ + decimal(bytes.len()) + " bytes"@),
        )
    } else {
        match header_of(bytes.subrange(0, 64)) {
            Err(e) => Err(ReplayErrorModel::BadHeader(e)),
            Ok(h) => if to >= record_count(bytes.len()) {
                Err(
                    ReplayErrorModel::RangeOutOfBounds {
                        from,
                        to,
                        records: record_count(bytes.len()) as u64,
                    },
                )
            } else {
                match points_read(bytes, t, h.rate_millihz, from, (to - from + 1) as nat) {
                    Err(e) => Err(ReplayErrorModel::BadRecord(e)),
                    Ok(points) => Ok(
                        DataModel {
                            topic: t,
                            from_tick: from,
                            to_tick: to,
                            rate_millihz: h.rate_millihz,
                            points,
                        },
                    ),
                }
            },
        }
    }
}

/// The answer to a request for a topic: the request is looked at before the
/// file is.
pub open spec fn topic_found(
    name: Seq<char>,
    file: ContentModel,
    topic: Seq<char>,
    from: u64,
    to: u64,
) -> Result<DataModel, ReplayErrorModel> {
    match topic_named(topic) {
        None => Err(ReplayErrorModel::TopicNotFound(topic)),
        Some(t) => if from > to {
            Err(ReplayErrorModel::RangeOutOfBounds { from, to, records: 0 })
        } else {
            match file_found(name, file) {
                Err(e) => Err(e),
                Ok(bytes) => topic_of(bytes, t, from, to),
            }
        },
    }
}

fn values_of(rec: &TickRecord, spec: &TopicSpec) -> (r: Vec<u32>)
    requires
        rec.state@.len() == 17,
        spec.start <= spec.end <= 17,
    ensures
        r@ == rec.state@.subrange(spec.start as int, spec.end as int),
{
    let mut r: Vec<u32> = Vec::new();
    let mut i: usize = spec.start;
    while i < spec.end
        invariant
            spec.start <= i <= spec.end <= 17,
            rec.state@.len() == 17,
            r@ == rec.state@.subrange(spec.start as int, i as int),
        decreases spec.end - i,
    {
        r.push(rec.state[i]);
        i = i + 1;
        assert(r@ =~= rec.state@.subrange(spec.start as int, i as int));
    }
    r
}

proof fn unread_record_stops(
    bytes: Seq<u8>,
    topic: Topic,
    rate_millihz: u32,
    from: u64,
    n: nat,
    m: nat,
)
    requires
        n <= m,
        points_read(bytes, topic, rate_millihz, from, n) is Err,
    ensures
        points_read(bytes, topic, rate_millihz, from, m) == points_read(
            bytes,
            topic,
            rate_millihz,
            from,
            n,
        ),
    decreases m,
{
    if n < m {
        unread_record_stops(bytes, topic, rate_millihz, from, n, (m - 1) as nat);
    }
}

/// Read a topic of a recording, from one tick to another, both included;
/// `file` is what lies under the name.
pub fn read_replay_topic(
    name: &str,
    file: &FileContent,
    topic: &str,
    from_tick: u64,
    to_tick: u64,
) -> (r: Result<ReplayTopicData, ReplayError>)
    ensures
        match topic_found(name@, file@, topic@, from_tick, to_tick) {
            Ok(d) => r is Ok && shows(r->Ok_0, d),
            Err(e) => r is Err && r->Err_0@ == e,
        },
{
    let found = topic_by_name(topic);
    let ghost t = topic_named(topic@)->0;
    let spec = match found {
        Some(s) => s,
        None => return Err(ReplayError::TopicNotFound(String::from_str(topic))),
    };
    if from_tick > to_tick {
        return Err(ReplayError::RangeOutOfBounds { from: from_tick, to: to_tick, records: 0 });
    }
    let bytes = match find_file(name, file) {
        Ok(b) => b,
        Err(e) => return Err(e),
    };
    let n: usize = bytes.len();
    if n < HEADER_LEN {
        let mut s = String::from_str("file too small: ");
        push_decimal(&mut s, n as u64);
        s.append(" bytes");
        return Err(ReplayError::BadHeader(s));
    }
    let header = match decode_header(slice_subrange(bytes, 0, HEADER_LEN)) {
        Ok(h) => h,
        Err(e) => return Err(ReplayError::BadHeader(e)),
    };
    let records: u64 = ((n - HEADER_LEN) / RECORD_LEN) as u64;
    if to_tick >= records {
        return Err(ReplayError::RangeOutOfBounds { from: from_tick, to: to_tick, records });
    }
    let mut points: Vec<TopicDataPoint> = Vec::new();
    let mut tick: u64 = from_tick;
    assert(points_of(points@) =~= Seq::<PointModel>::empty());
    while tick <= to_tick
        invariant
            from_tick <= tick <= to_tick + 1,
            to_tick < records,
            records == record_count(bytes@.len()),
            n == bytes@.len(),
            n >= HEADER_LEN,
            describes(spec, t),
            topic_named(topic@) == Some(t),
            from_tick <= to_tick,
            file_found(name@, file@) == Ok::<Seq<u8>, ReplayErrorModel>(bytes@),
            header_of(bytes@.subrange(0, 64)) == Ok::<HeaderModel, Seq<char>>(header@),
            points_read(bytes@, t, header.rate_millihz, from_tick, (tick - from_tick) as nat)
                == Ok::<Seq<PointModel>, Seq<char>>(points_of(points@)),
        decreases to_tick + 1 - tick,
    {
        assert(tick * 96 + 96 <= n - 64);
        let off: usize = HEADER_LEN + (tick as usize) * RECORD_LEN;
        let ghost k = (tick - from_tick) as nat;
        assert(record_bytes(bytes@, tick as int) == bytes@.subrange(off as int, off + 96));
        match decode_record(slice_subrange(bytes, off, off + RECORD_LEN)) {
            Err(e) => {
                proof {
                    let all = points_read(bytes@, t, header.rate_millihz, from_tick, k + 1);
                    assert(all == Err::<Seq<PointModel>, Seq<char>>(e@));
                    unread_record_stops(
                        bytes@,
                        t,
                        header.rate_millihz,
                        from_tick,
                        k + 1,
                        (to_tick - from_tick + 1) as nat,
                    );
                }
                return Err(ReplayError::BadRecord(e));
            },
            Ok(rec) => {
                let time = if header.rate_millihz > 0 {
                    TickTime::Micros(rec.t_us)
                } else {
                    TickTime::NoRate
                };
                let ghost before = points@;
                points.push(TopicDataPoint { tick, time, values: values_of(&rec, &spec) });
                assert(points_of(points@) =~= points_of(before).push(points@.last()@));
            },
        }
        tick = tick + 1;
    }
    Ok(
        ReplayTopicData {
            topic: String::from_str(spec.name),
            label: String::from_str(spec.label),
            unit: String::from_str(spec.unit),
            components: spec.components,
            from_tick,
            to_tick,
            rate_millihz: header.rate_millihz,
            points,
        },
    )
}

// Laws.

/// The topics tile the state: each begins where the one before ends, and the
/// last ends with the state.
pub proof fn topics_cover_the_state()
    ensures
        TOPICS@.len() == 5,
        TOPICS@[0].start() == 0,
        forall|i: int| 0 <= i < 4 ==> (#[trigger] TOPICS@[i]).end() == TOPICS@[i + 1].start(),
        TOPICS@[4].end() == 17,
        forall|i: int|
            0 <= i < 5 ==> (#[trigger] TOPICS@[i]).components().len() == TOPICS@[i].end()
                - TOPICS@[i].start(),
{
}

/// A record with one changed byte, other than in its checksum, is refused.
pub proof fn altered_record_is_refused(b: Seq<u8>, i: int, v: u8)
    requires
        record_of(b) is Ok,
        0 <= i < 94,
        v != b[i],
    ensures
        record_of(b.update(i, v)) is Err,
{
    let t = b.update(i, v);
    assert(t.subrange(0, 94) =~= b.subrange(0, 94).update(i, v));
    crc_detects_one_changed_byte(b.subrange(0, 94), i, v);
    assert(u16_of(t, 94) == u16_of(b, 94));
}

/// A topic that is read has one point per tick, in order, each with a value
/// per component.
pub proof fn every_tick_is_read(
    bytes: Seq<u8>,
    topic: Topic,
    rate_millihz: u32,
    from: u64,
    n: nat,
)
    requires
        from + n <= u64::MAX,
        points_read(bytes, topic, rate_millihz, from, n) is Ok,
    ensures
        ({
            let s = points_read(bytes, topic, rate_millihz, from, n)->Ok_0;
            &&& s.len() == n
            &&& forall|i: int|
                0 <= i < n ==> (#[trigger] s[i]).tick == from + i && s[i].values.len()
                    == topic.end() - topic.start()
        }),
    decreases n,
{
    if n > 0 {
        every_tick_is_read(bytes, topic, rate_millihz, from, (n - 1) as nat);
    }
}

} // verus!
