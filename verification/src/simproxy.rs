//! Requests to a simulator's control plane and its answers: a JSON body is
//! posted, and the status and body of the answer are handed on.

use vstd::prelude::*;
#[allow(unused_imports)]
use vstd::utf8::{decode_utf8, encode_utf8, valid_utf8};
use crate::json::json_parses;
#[allow(unused_imports)]
use crate::json::json_bytes;
use crate::text::{chars_of, joined, parse_number, push_decimal, split_words, string_of, utf8_text};
#[allow(unused_imports)]
use crate::text::{
    blank, decimal, decimal_is_read_back, digit, number_of, words, words_begun,
};

verus! {

/// Time for one request, from connecting to the end of the answer.
pub const BUDGET_MS: u64 = 2_000;

/// Longest answer that is read.
pub const MAX_ANSWER: usize = 1_048_576;

/// The text Rust shows for a string when debugging: quoted and escaped.
pub uninterp spec fn shown_text(s: Seq<char>) -> Seq<char>;

/// The text that stands for bytes, each malformed part replaced.
pub uninterp spec fn lossy_text(bytes: Seq<u8>) -> Seq<char>;

/// `<str as Debug>::fmt`: the quoted and escaped text.
#[verifier::external_body]
fn shown(s: &str) -> (r: String)
    ensures
        r@ == shown_text(s@),
{
    format!("{:?}", s)
}

/// `String::from_utf8_lossy`: the text of the bytes; where they are UTF-8, the
/// text they encode.
#[verifier::external_body]
fn lossy(bytes: &[u8]) -> (r: String)
    ensures
        r@ == lossy_text(bytes@),
        valid_utf8(bytes@) ==> r@ == decode_utf8(bytes@),
{
    String::from_utf8_lossy(bytes).into_owned()
}

/// Why a request failed.
#[derive(Debug, Clone, PartialEq, Eq)]
pub enum ProxyError {
    /// The body could not be written as JSON.
    Encode(String),
    Unreachable(String),
    Write(String),
    Read(String),
    TooLong,
    NoAnswer,
    NoHeaderEnd,
    HeaderNotText,
    StatusLine(String),
}

#[verifier::ext_equal]
pub enum ProxyFault {
    Encode(Seq<char>),
    Unreachable(Seq<char>),
    Write(Seq<char>),
    Read(Seq<char>),
    TooLong,
    NoAnswer,
    NoHeaderEnd,
    HeaderNotText,
    StatusLine(Seq<char>),
}

impl View for ProxyError {
    type V = ProxyFault;

    open spec fn view(&self) -> ProxyFault {
        match self {
            ProxyError::Encode(e) => ProxyFault::Encode(e@),
            ProxyError::Unreachable(e) => ProxyFault::Unreachable(e@),
            ProxyError::Write(e) => ProxyFault::Write(e@),
            ProxyError::Read(e) => ProxyFault::Read(e@),
            ProxyError::TooLong => ProxyFault::TooLong,
            ProxyError::NoAnswer => ProxyFault::NoAnswer,
            ProxyError::NoHeaderEnd => ProxyFault::NoHeaderEnd,
            ProxyError::HeaderNotText => ProxyFault::HeaderNotText,
            ProxyError::StatusLine(l) => ProxyFault::StatusLine(l@),
        }
    }
}

pub open spec fn fault_text(e: ProxyFault, port: u16) -> Seq<char> {
    let p = decimal(port as nat);
    match e {
        ProxyFault::Encode(e) => "body encode: "@ + e,
        ProxyFault::Unreachable(e) => "sim control plane :"@ + p + " unreachable: "@ + e,
        ProxyFault::Write(e) => "write to :"@ + p + ": "@ + e,
        ProxyFault::Read(e) => "read from :"@ + p + ": "@ + e,
        ProxyFault::TooLong => "response from :"@ + p + " exceeds 1 MiB"@,
        ProxyFault::NoAnswer => "sim control plane :"@ + p + " did not answer within 2 s"@,
        ProxyFault::NoHeaderEnd => "malformed response: no header terminator"@,
        ProxyFault::HeaderNotText => "malformed response: non-UTF-8 headers"@,
        ProxyFault::StatusLine(l) => "malformed status line: "@ + shown_text(l),
    }
}

fn about_port(head: &str, port: u16, tail: &str) -> (r: String)
    ensures
        r@ == head@ + decimal(port as nat) + tail@,
{
    let mut s = String::from_str(head);
    push_decimal(&mut s, port as u64);
    s.append(tail);
    s
}

impl ProxyError {
    /// The failure in words, of a request to a port.
    pub fn text(&self, port: u16) -> (r: String)
        ensures
            r@ == fault_text(self@, port),
    {
        match self {
            ProxyError::Encode(e) => joined("body encode: ", e.as_str()),
            ProxyError::Unreachable(e) => {
                let mut s = about_port("sim control plane :", port, " unreachable: ");
                s.append(e.as_str());
                s
            },
            ProxyError::Write(e) => {
                let mut s = about_port("write to :", port, ": ");
                s.append(e.as_str());
                s
            },
            ProxyError::Read(e) => {
                let mut s = about_port("read from :", port, ": ");
                s.append(e.as_str());
                s
            },
            ProxyError::TooLong => about_port("response from :", port, " exceeds 1 MiB"),
            ProxyError::NoAnswer => about_port(
                "sim control plane :",
                port,
                " did not answer within 2 s",
            ),
            ProxyError::NoHeaderEnd => String::from_str("malformed response: no header terminator"),
            ProxyError::HeaderNotText => String::from_str("malformed response: non-UTF-8 headers"),
            ProxyError::StatusLine(l) => {
                let d = shown(l.as_str());
                joined("malformed status line: ", d.as_str())
            },
        }
    }
}

pub open spec fn request_of(port: u16, path: Seq<char>, payload: Seq<char>) -> Seq<char> {
    "POST "@ + path + " HTTP/1.1\r\nHost: 127.0.0.1:"@ + decimal(port as nat)
        + "\r\nContent-Type: application/json\r\nContent-Length: "@ + decimal(
        encode_utf8(payload).len(),
    ) + "\r\nConnection: close\r\n\r\n"@ + payload
}

/// The request that posts a JSON text to a port of this host.
pub fn request_text(port: u16, path: &str, payload: &str) -> (r: String)
    ensures
        r@ == request_of(port, path@, payload@),
{
    let length: usize = payload.as_bytes().len();
    let mut s = joined("POST ", path);
    s.append(" HTTP/1.1\r\nHost: 127.0.0.1:");
    push_decimal(&mut s, port as u64);
    s.append("\r\nContent-Type: application/json\r\nContent-Length: ");
    push_decimal(&mut s, length as u64);
    s.append("\r\nConnection: close\r\n\r\n");
    s.append(payload);
    s
}

/// Take in a part of the answer; refused where the answer gets too long.
pub fn take_chunk(answer: &mut Vec<u8>, chunk: &Vec<u8>) -> (r: Result<(), ProxyError>)
    ensures
        final(answer)@ == old(answer)@ + chunk@,
        match r {
            Ok(_) => final(answer)@.len() <= MAX_ANSWER,
            Err(e) => e@ == ProxyFault::TooLong && final(answer)@.len() > MAX_ANSWER,
        },
{
    let mut i: usize = 0;
    while i < chunk.len()
        invariant
            i <= chunk@.len(),
            answer@ == old(answer)@ + chunk@.take(i as int),
        decreases chunk@.len() - i,
    {
        answer.push(chunk[i]);
        i = i + 1;
        assert(answer@ =~= old(answer)@ + chunk@.take(i as int));
    }
    assert(chunk@.take(i as int) =~= chunk@);
    if answer.len() > MAX_ANSWER {
        Err(ProxyError::TooLong)
    } else {
        Ok(())
    }
}

/// What an answer's body is.
#[derive(Debug, Clone, PartialEq, Eq)]
pub enum SimBody {
    /// There is none.
    Null,
    /// A JSON text.
    Json(Vec<u8>),
    /// Anything else.
    Raw(String),
}

#[verifier::ext_equal]
pub enum BodyModel {
    Null,
    Json(Seq<u8>),
    Raw(Seq<char>),
}

impl View for SimBody {
    type V = BodyModel;

    open spec fn view(&self) -> BodyModel {
        match self {
            SimBody::Null => BodyModel::Null,
            SimBody::Json(b) => BodyModel::Json(b@),
            SimBody::Raw(s) => BodyModel::Raw(s@),
        }
    }
}

/// An empty line begins at a place: the headers end there.
pub open spec fn ends_headers(raw: Seq<u8>, i: int) -> bool {
    0 <= i && i + 4 <= raw.len() && raw[i] == 13 && raw[i + 1] == 10 && raw[i + 2] == 13 && raw[i
        + 3] == 10
}

/// Where the headers end, from a place on.
pub open spec fn header_end(raw: Seq<u8>, i: int) -> Option<int>
    decreases raw.len() - i,
{
    if i < 0 || i + 4 > raw.len() {
        None
    } else if ends_headers(raw, i) {
        Some(i)
    } else {
        header_end(raw, i + 1)
    }
}

/// Where the line that stands at a place ends.
pub open spec fn line_end(s: Seq<char>, i: int) -> int
    decreases s.len() - i,
{
    if i < 0 || i + 2 > s.len() {
        s.len() as int
    } else if s[i] == '\r' && s[i + 1] == '\n' {
        i
    } else {
        line_end(s, i + 1)
    }
}

pub open spec fn first_line(s: Seq<char>) -> Seq<char> {
    s.subrange(0, line_end(s, 0))
}

/// The status a status line gives: its second word, a 16-bit number.
pub open spec fn status_of(line: Seq<char>) -> Option<nat> {
    if words(line).len() > 1 {
        number_of(words(line)[1], 65535)
    } else {
        None
    }
}

/// A body: JSON where it parses, else the text that stands for it.
pub open spec fn body_of(bytes: Seq<u8>) -> BodyModel {
    if bytes.len() == 0 {
        BodyModel::Null
    } else if json_bytes(bytes) {
        BodyModel::Json(bytes)
    } else {
        BodyModel::Raw(lossy_text(bytes))
    }
}

/// What an answer says: the status of its first line and the body behind its
/// headers.
pub open spec fn answer_of(raw: Seq<u8>) -> Result<(nat, BodyModel), ProxyFault> {
    match header_end(raw, 0) {
        None => Err(ProxyFault::NoHeaderEnd),
        Some(e) => {
            let head = raw.subrange(0, e);
            if !valid_utf8(head) {
                Err(ProxyFault::HeaderNotText)
            } else {
                let line = first_line(decode_utf8(head));
                match status_of(line) {
                    None => Err(ProxyFault::StatusLine(line)),
                    Some(code) => Ok((code, body_of(raw.subrange(e + 4, raw.len() as int)))),
                }
            }
        },
    }
}

fn find_header_end(raw: &[u8]) -> (r: Option<usize>)
    ensures
        (match r {
            Some(e) => Some(e as int),
            None => None,
        }) == header_end(raw@, 0),
        r is Some ==> r->0 + 4 <= raw@.len(),
{
    let n: usize = raw.len();
    let mut i: usize = 0;
    while n >= 4 && i <= n - 4
        invariant
            n == raw@.len(),
            i <= n,
            n >= 4 ==> i <= n - 3,
            header_end(raw@, 0) == header_end(raw@, i as int),
        decreases n - i,
    {
        if raw[i] == 13 && raw[i + 1] == 10 && raw[i + 2] == 13 && raw[i + 3] == 10 {
            return Some(i);
        }
        i = i + 1;
    }
    None
}

fn part(raw: &[u8], from: usize, to: usize) -> (r: Vec<u8>)
    requires
        from <= to <= raw@.len(),
    ensures
        r@ == raw@.subrange(from as int, to as int),
{
    let mut r: Vec<u8> = Vec::new();
    let mut i: usize = from;
    while i < to
        invariant
            from <= i <= to <= raw@.len(),
            r@ == raw@.subrange(from as int, i as int),
        decreases to - i,
    {
        r.push(raw[i]);
        i = i + 1;
        assert(r@ =~= raw@.subrange(from as int, i as int));
    }
    r
}

fn line_of(head: &str) -> (r: String)
    ensures
        r@ == first_line(head@),
{
    let s = chars_of(head);
    let n: usize = s.len();
    let mut i: usize = 0;
    while n >= 2 && i <= n - 2
        invariant
            n == s@.len(),
            s@ == head@,
            i <= n,
            n >= 2 ==> i <= n - 1,
            line_end(s@, 0) == line_end(s@, i as int),
        decreases n - i,
    {
        if s[i] == '\r' && s[i + 1] == '\n' {
            return string_of(&s, 0, i);
        }
        i = i + 1;
    }
    string_of(&s, 0, n)
}

/// A body, read.
pub fn read_body(bytes: Vec<u8>) -> (r: SimBody)
    ensures
        r@ == body_of(bytes@),
{
    if bytes.len() == 0 {
        SimBody::Null
    } else if json_parses(bytes.as_slice()) {
        SimBody::Json(bytes)
    } else {
        SimBody::Raw(lossy(bytes.as_slice()))
    }
}

/// The status a status line gives.
pub fn read_status(line: &str) -> (r: Option<u16>)
    ensures
        (match r {
            Some(c) => Some(c as nat),
            None => None,
        }) == status_of(line@),
{
    let w = split_words(line);
    if w.len() > 1 {
        assert(w@[1]@ == words(line@)[1]);
        let digits = chars_of(w[1].as_str());
        match parse_number(&digits, 65535) {
            Some(n) => Some(n as u16),
            None => None,
        }
    } else {
        None
    }
}

/// Read an answer: its status and its body.
pub fn parse_response(raw: &[u8]) -> (r: Result<(u16, SimBody), ProxyError>)
    ensures
        (match r {
            Ok((code, body)) => Ok((code as nat, body@)),
            Err(e) => Err(e@),
        }) == answer_of(raw@),
{
    let n: usize = raw.len();
    let end: usize = match find_header_end(raw) {
        Some(e) => e,
        None => return Err(ProxyError::NoHeaderEnd),
    };
    let head_bytes = part(raw, 0, end);
    let head = match utf8_text(head_bytes.as_slice()) {
        Some(t) => t,
        None => return Err(ProxyError::HeaderNotText),
    };
    let line = line_of(head.as_str());
    match read_status(line.as_str()) {
        None => Err(ProxyError::StatusLine(line)),
        Some(code) => {
            let body = read_body(part(raw, end + 4, n));
            Ok((code, body))
        },
    }
}

// Laws.

/// An answer is its headers, an empty line and its body: whatever follows the
/// empty line is the body, whole.
pub proof fn body_is_read_whole(head: Seq<u8>, body: Seq<u8>)
    requires
        header_end(head + seq![13u8, 10, 13, 10], 0) == Some(head.len() as int),
        answer_of(head + seq![13u8, 10, 13, 10] + body) is Ok,
    ensures
        (answer_of(head + seq![13u8, 10, 13, 10] + body)->Ok_0).1 == body_of(body),
{
    let stop = seq![13u8, 10, 13, 10];
    let raw = head + stop + body;
    first_end_stays(head + stop, body, 0);
    assert(raw.subrange(head.len() as int + 4, raw.len() as int) =~= body);
}

proof fn first_end_stays(a: Seq<u8>, b: Seq<u8>, i: int)
    requires
        0 <= i,
        header_end(a, i) is Some,
    ensures
        header_end(a + b, i) == header_end(a, i),
    decreases a.len() - i,
{
    if !ends_headers(a, i) {
        assert(!ends_headers(a + b, i));
        first_end_stays(a, b, i + 1);
    }
}

/// The first place where two line ends stand together ends the headers; where
/// there is none the headers do not end.
pub proof fn headers_end_at_the_first_empty_line(raw: Seq<u8>, from: int)
    requires
        0 <= from,
    ensures
        match header_end(raw, from) {
            Some(e) => {
                &&& from <= e
                &&& e + 4 <= raw.len()
                &&& raw.subrange(e, e + 4) == seq![13u8, 10, 13, 10]
                &&& forall|i: int|
                    from <= i < e ==> #[trigger] raw.subrange(i, i + 4) != seq![13u8, 10, 13, 10]
            },
            None => forall|i: int|
                from <= i && i + 4 <= raw.len() ==> #[trigger] raw.subrange(i, i + 4) != seq![
                    13u8,
                    10,
                    13,
                    10,
                ],
        },
    decreases raw.len() - from,
{
    if from + 4 <= raw.len() {
        let four = raw.subrange(from, from + 4);
        assert(four[0] == raw[from] && four[1] == raw[from + 1] && four[2] == raw[from + 2]
            && four[3] == raw[from + 3]);
        if ends_headers(raw, from) {
            assert(four =~= seq![13u8, 10, 13, 10]);
        } else {
            headers_end_at_the_first_empty_line(raw, from + 1);
            if four == seq![13u8, 10, 13, 10] {
                assert(ends_headers(raw, from));
            }
        }
    }
}

proof fn word_goes_on(s: Seq<char>, w: Seq<char>)
    requires
        forall|i: int| 0 <= i < w.len() ==> !blank(#[trigger] w[i]),
    ensures
        words_begun(s + w) == (words_begun(s).0, words_begun(s).1 + w),
    decreases w.len(),
{
    if w.len() == 0 {
        assert(s + w =~= s);
        assert(words_begun(s).1 + w =~= words_begun(s).1);
    } else {
        let v = w.drop_last();
        word_goes_on(s, v);
        assert((s + w).drop_last() =~= s + v);
        assert((s + w).last() == w.last());
        assert((words_begun(s).1 + v).push(w.last()) =~= words_begun(s).1 + w);
    }
}

proof fn done_words_stay(s: Seq<char>, t: Seq<char>)
    ensures
        words_begun(s + t).0.len() >= words_begun(s).0.len(),
        forall|i: int|
            0 <= i < words_begun(s).0.len() ==> #[trigger] words_begun(s + t).0[i] == words_begun(
                s,
            ).0[i],
    decreases t.len(),
{
    if t.len() == 0 {
        assert(s + t =~= s);
    } else {
        done_words_stay(s, t.drop_last());
        assert((s + t).drop_last() =~= s + t.drop_last());
    }
}

/// The status of an answer is the number behind the first blank of its status
/// line, whatever reason follows it.
pub proof fn status_is_the_second_word(protocol: Seq<char>, code: nat, reason: Seq<char>)
    requires
        protocol.len() > 0,
        forall|i: int| 0 <= i < protocol.len() ==> !blank(#[trigger] protocol[i]),
        code <= 65535,
        reason.len() == 0 || reason[0] == ' ',
    ensures
        status_of(protocol + seq![' '] + decimal(code) + reason) == Some(code),
{
    let none = Seq::<char>::empty();
    let d = decimal(code);
    decimal_is_read_back(code, 65535);
    assert forall|i: int| 0 <= i < d.len() implies !blank(#[trigger] d[i]) by {
        assert(digit(d[i]));
    }
    let a = protocol + seq![' '];
    let b = a + d;
    word_goes_on(none, protocol);
    assert(none + protocol =~= protocol);
    assert(words_begun(none) == (Seq::<Seq<char>>::empty(), none));
    assert(none + protocol =~= protocol);
    assert(words_begun(protocol).1 =~= protocol);
    assert(a.drop_last() =~= protocol);
    assert(words_begun(a) == (Seq::<Seq<char>>::empty().push(protocol), none));
    word_goes_on(a, d);
    assert(none + d =~= d);
    assert(words_begun(b) == (Seq::<Seq<char>>::empty().push(protocol), d));
    let line = b + reason;
    if reason.len() == 0 {
        assert(line =~= b);
        assert(words(line)[1] == d);
    } else {
        let c = b.push(' ');
        assert(c.drop_last() =~= b);
        assert(words_begun(c).0 == Seq::<Seq<char>>::empty().push(protocol).push(d));
        let rest = reason.drop_first();
        assert(line =~= c + rest);
        done_words_stay(c, rest);
        assert(words_begun(line).0[1] == words_begun(c).0[1]);
        assert(words(line)[1] == d);
    }
}

/// A request names its path and host, says how many bytes of JSON follow, and
/// ends with them.
pub proof fn request_ends_with_its_payload(port: u16, path: Seq<char>, payload: Seq<char>)
    ensures
        ({
            let r = request_of(port, path, payload);
            let head = "POST "@ + path + " HTTP/1.1\r\nHost: 127.0.0.1:"@ + decimal(port as nat)
                + "\r\nContent-Type: application/json\r\nContent-Length: "@ + decimal(
                encode_utf8(payload).len(),
            ) + "\r\nConnection: close\r\n\r\n"@;
            r == head + payload
        }),
{
}

} // verus!
