//! What is read from a recording, byte by byte.

use vstd::prelude::*;
#[allow(unused_imports)]
use crate::crc::crc_of;
#[allow(unused_imports)]
use crate::replay::{
    header_of, hex_byte, hex_digit, hex_of, meta_of, points_read, record_bytes, record_of,
    safe_name, topic_found, topic_named, ContentModel, TickTime, Topic, MAGIC,
};
#[allow(unused_imports)]
use crate::wire_laws::{b16, b32, b64, b8, joins16, joins32, joins64};

verus! {

/// The bytes begin a recording: `RSITSIM1`.
pub open spec fn begins_recording(b: Seq<u8>) -> bool {
    &&& b.len() >= 8
    &&& b[0] == 0x52
    &&& b[1] == 0x53
    &&& b[2] == 0x49
    &&& b[3] == 0x54
    &&& b[4] == 0x53
    &&& b[5] == 0x49
    &&& b[6] == 0x4D
    &&& b[7] == 0x31
}

/// A header is read exactly where it has 64 bytes, begins a recording and is
/// of version one; each of its values then comes from its own bytes.
pub proof fn header_is_read_by_its_bytes(b: Seq<u8>)
    ensures
        header_of(b) is Ok <==> b.len() == 64 && begins_recording(b) && b16(b, 8) == 1,
        header_of(b) matches Ok(h) ==> {
            &&& h.version == 1
            &&& h.rate_millihz == b32(b, 12)
            &&& h.seed == b64(b, 16)
            &&& h.start_t_us == b64(b, 24)
            &&& h.scenario_hash == b.subrange(32, 64)
        },
{
    joins16(b, 8);
    joins32(b, 12);
    joins64(b, 16);
    joins64(b, 24);
    if b.len() == 64 {
        let s = b.subrange(0, 8);
        if begins_recording(b) {
            assert(s =~= MAGIC@);
        }
        if s == MAGIC@ {
            assert(s[0] == b[0] && s[1] == b[1] && s[2] == b[2] && s[3] == b[3] && s[4] == b[4]
                && s[5] == b[5] && s[6] == b[6] && s[7] == b[7]);
        }
    }
}

/// A record is read exactly where it has 96 bytes and its last two are the
/// checksum of the others; each of its values then comes from its own bytes.
pub proof fn record_is_read_by_its_bytes(b: Seq<u8>)
    ensures
        record_of(b) is Ok <==> b.len() == 96 && b16(b, 94) == crc_of(b.subrange(0, 94)),
        record_of(b) matches Ok(r) ==> {
            &&& r.t_us == b64(b, 0)
            &&& r.motors == b.subrange(8, 24)
            &&& r.state.len() == 17
            &&& forall|i: int| 0 <= i < 17 ==> (#[trigger] r.state[i]) == b32(b, 24 + 4 * i)
            &&& r.fault_flags == b16(b, 92)
        },
{
    joins16(b, 94);
    joins16(b, 92);
    joins64(b, 0);
    if record_of(b) is Ok {
        let r = record_of(b)->Ok_0;
        assert forall|i: int| 0 <= i < 17 implies (#[trigger] r.state[i]) == b32(
            b,
            24 + 4 * i,
        ) by {
            joins32(b, 24 + 4 * i);
        }
    }
}

/// The values a topic takes from a record: position, velocity, attitude, body
/// rates and rotors stand one after another, as three, three, four, three and
/// four numbers.
pub open spec fn first_value(t: Topic) -> int {
    match t {
        Topic::Position => 0,
        Topic::Velocity => 3,
        Topic::Attitude => 6,
        Topic::BodyRates => 10,
        Topic::Rotors => 13,
    }
}

pub open spec fn value_count(t: Topic) -> int {
    if t is Attitude || t is Rotors {
        4
    } else {
        3
    }
}

/// A topic is asked for by its own name, and has as many labels as values.
pub proof fn topics_are_found_by_name(t: Topic)
    ensures
        t.start() == first_value(t),
        t.end() == first_value(t) + value_count(t),
        t.components().len() == value_count(t),
        t.name() == (match t {
            Topic::Position => "pos_ned_m"@,
            Topic::Velocity => "vel_ned_ms"@,
            Topic::Attitude => "q_wxyz"@,
            Topic::BodyRates => "omega_rads"@,
            Topic::Rotors => "rotors"@,
        }),
        topic_named(t.name()) == Some(t),
{
    reveal_strlit("pos_ned_m");
    reveal_strlit("vel_ned_ms");
    reveal_strlit("q_wxyz");
    reveal_strlit("omega_rads");
    reveal_strlit("rotors");
    assert("pos_ned_m"@.len() == 9 && "vel_ned_ms"@.len() == 10 && "vel_ned_ms"@[0] == 'v'
        && "q_wxyz"@.len() == 6 && "q_wxyz"@[0] == 'q' && "omega_rads"@.len() == 10
        && "omega_rads"@[0] == 'o' && "rotors"@.len() == 6 && "rotors"@[0] == 'r');
}

proof fn within_the_record(bytes: Seq<u8>, tick: int, i: int)
    requires
        0 <= tick,
        64 + tick * 96 + 96 <= bytes.len(),
    ensures
        0 <= i < 96 ==> b8(record_bytes(bytes, tick), i) == b8(bytes, 64 + tick * 96 + i),
{
}

/// Every tick read of a topic shows its own number, the time of its record
/// where the recording has a rate, and the values of the topic as they stand
/// in the file.
pub proof fn ticks_show_their_records(
    bytes: Seq<u8>,
    topic: Topic,
    rate_millihz: u32,
    from: u64,
    n: nat,
    i: int,
    k: int,
)
    requires
        from + n <= u64::MAX,
        64 + (from + n) * 96 <= bytes.len(),
        points_read(bytes, topic, rate_millihz, from, n) is Ok,
        0 <= i < n,
        0 <= k < value_count(topic),
    ensures
        ({
            let s = points_read(bytes, topic, rate_millihz, from, n)->Ok_0;
            let at = 64 + (from + i) * 96;
            &&& s.len() == n
            &&& s[i].tick == from + i
            &&& rate_millihz == 0 ==> s[i].time is NoRate
            &&& rate_millihz > 0 ==> (s[i].time matches TickTime::Micros(t) && t == b64(bytes, at))
            &&& s[i].values.len() == value_count(topic)
            &&& s[i].values[k] == b32(bytes, at + 24 + 4 * (first_value(topic) + k))
        }),
    decreases n,
{
    let m = (n - 1) as nat;
    topics_are_found_by_name(topic);
    if i < m {
        ticks_show_their_records(bytes, topic, rate_millihz, from, m, i, k);
    }
    points_are_one_per_tick(bytes, topic, rate_millihz, from, m);
    if i == m {
        let tick = from + i;
        let b = record_bytes(bytes, tick);
        record_is_read_by_its_bytes(b);
        let at = 64 + tick * 96;
        let j = 24 + 4 * (first_value(topic) + k);
        assert(0 <= j && j + 3 < 92);
        within_the_record(bytes, tick, j);
        within_the_record(bytes, tick, j + 1);
        within_the_record(bytes, tick, j + 2);
        within_the_record(bytes, tick, j + 3);
        assert(b32(b, j) == b32(bytes, at + j));
        within_the_record(bytes, tick, 0);
        within_the_record(bytes, tick, 1);
        within_the_record(bytes, tick, 2);
        within_the_record(bytes, tick, 3);
        within_the_record(bytes, tick, 4);
        within_the_record(bytes, tick, 5);
        within_the_record(bytes, tick, 6);
        within_the_record(bytes, tick, 7);
        assert(b64(b, 0) == b64(bytes, at));
        let r = record_of(b)->Ok_0;
        assert(r.state.subrange(topic.start(), topic.end())[k] == r.state[first_value(topic) + k]);
    }
}

proof fn points_are_one_per_tick(
    bytes: Seq<u8>,
    topic: Topic,
    rate_millihz: u32,
    from: u64,
    n: nat,
)
    ensures
        points_read(bytes, topic, rate_millihz, from, n) matches Ok(s) ==> s.len() == n,
    decreases n,
{
    if n > 0 {
        points_are_one_per_tick(bytes, topic, rate_millihz, from, (n - 1) as nat);
    }
}

/// What is told of a recording: its name, size and header, and as many records
/// as fit whole behind the header.
pub proof fn recording_is_described(name: Seq<char>, bytes: Seq<u8>)
    ensures
        meta_of(name, bytes) is Ok <==> bytes.len() >= 64 && begins_recording(bytes) && b16(bytes, 8)
            == 1,
        meta_of(name, bytes) matches Ok(m) ==> {
            &&& m.filename == name
            &&& m.version == 1
            &&& m.rate_millihz == b32(bytes, 12)
            &&& m.seed == b64(bytes, 16)
            &&& m.start_t_us == b64(bytes, 24)
            &&& m.size_bytes == bytes.len()
            &&& 64 + 96 * m.records <= bytes.len() < 64 + 96 * (m.records + 1)
            &&& m.scenario_sha256 == hex_of(bytes.subrange(32, 64))
        },
        meta_of(name, bytes) matches Err(e) ==> e is BadHeader,
{
    if bytes.len() >= 64 {
        let b = bytes.subrange(0, 64);
        header_is_read_by_its_bytes(b);
        assert(b32(b, 12) == b32(bytes, 12));
        assert(b64(b, 16) == b64(bytes, 16));
        assert(b64(b, 24) == b64(bytes, 24));
        assert(b16(b, 8) == b16(bytes, 8));
        assert(b.subrange(32, 64) =~= bytes.subrange(32, 64));
    }
}

/// Each byte in hexadecimal is two digits, the high one first.
pub proof fn hexadecimal_has_two_digits_a_byte(bytes: Seq<u8>, i: int)
    requires
        0 <= i < bytes.len(),
    ensures
        hex_of(bytes).len() == 2 * bytes.len(),
        ({
            let hi = bytes[i] as int / 16;
            let lo = bytes[i] as int % 16;
            let digits = seq![
                '0', '1', '2', '3', '4', '5', '6', '7', '8', '9', 'a', 'b', 'c', 'd', 'e', 'f',
            ];
            hex_of(bytes)[2 * i] == digits[hi] && hex_of(bytes)[2 * i + 1] == digits[lo]
        }),
    decreases bytes.len(),
{
    let rest = bytes.drop_last();
    let digits = seq![
        '0', '1', '2', '3', '4', '5', '6', '7', '8', '9', 'a', 'b', 'c', 'd', 'e', 'f',
    ];
    hexadecimal_length(bytes);
    hexadecimal_length(rest);
    assert forall|d: int| 0 <= d < 16 implies #[trigger] hex_digit(d) == digits[d] by {}
    let h = hex_of(rest);
    let t = hex_byte(bytes.last());
    assert(hex_of(bytes) == h + t);
    if i < rest.len() {
        hexadecimal_has_two_digits_a_byte(rest, i);
        assert((h + t)[2 * i] == h[2 * i] && (h + t)[2 * i + 1] == h[2 * i + 1]);
    } else {
        assert((h + t)[2 * i] == t[0] && (h + t)[2 * i + 1] == t[1]);
    }
}

proof fn hexadecimal_length(bytes: Seq<u8>)
    ensures
        hex_of(bytes).len() == 2 * bytes.len(),
    decreases bytes.len(),
{
    if bytes.len() > 0 {
        hexadecimal_length(bytes.drop_last());
    }
}

/// A topic is read of a range of ticks only: from a file with a plain name
/// that is there, by a known topic, with the range in order and inside the
/// recording. Each thing that is missing has its own error.
pub proof fn ranges_are_checked(
    name: Seq<char>,
    bytes: Seq<u8>,
    topic: Seq<char>,
    from: u64,
    to: u64,
)
    ensures
        ({
            let r = topic_found(name, ContentModel::Read(bytes), topic, from, to);
            &&& topic_named(topic) is None ==> r is Err && r->Err_0 is TopicNotFound
            &&& topic_named(topic) is Some && from > to ==> r is Err && r->Err_0 is RangeOutOfBounds
            &&& topic_named(topic) is Some && from <= to && !safe_name(name) ==> r is Err
                && r->Err_0 is NotFound
            &&& r matches Ok(d) ==> {
                &&& topic_named(topic) == Some(d.topic)
                &&& from <= to
                &&& 64 + 96 * (to + 1) <= bytes.len()
                &&& d.from_tick == from
                &&& d.to_tick == to
                &&& d.rate_millihz == b32(bytes, 12)
                &&& d.points.len() == to - from + 1
            }
        }),
        topic_named(topic) is Some ==> ({
            let r = topic_found(name, ContentModel::Missing, topic, from, to);
            from <= to ==> r is Err && r->Err_0 is NotFound
        }),
{
    if topic_named(topic) is Some && from <= to && bytes.len() >= 64 {
        let t = topic_named(topic)->0;
        let b = bytes.subrange(0, 64);
        header_is_read_by_its_bytes(b);
        assert(b32(b, 12) == b32(bytes, 12));
        if header_of(b) is Ok {
            points_are_one_per_tick(
                bytes,
                t,
                header_of(b)->Ok_0.rate_millihz,
                from,
                (to - from + 1) as nat,
            );
        }
    }
}

} // verus!
