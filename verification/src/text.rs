//! Text building and scanning over Unicode scalar values.

use vstd::prelude::*;
#[allow(unused_imports)]
use vstd::utf8::{decode_utf8, valid_utf8};

verus! {

/// `String::push`: appends one character at the end of the string.
pub assume_specification[ String::push ](s: &mut String, c: char)
    ensures
        final(s)@ == old(s)@.push(c),
;

/// `std::str::from_utf8`: the text that bytes encode, `None` where they are
/// not UTF-8.
#[verifier::external_body]
pub(crate) fn utf8_text(bytes: &[u8]) -> (r: Option<String>)
    ensures
        match r {
            Some(s) => valid_utf8(bytes@) && s@ == decode_utf8(bytes@),
            None => !valid_utf8(bytes@),
        },
{
    std::str::from_utf8(bytes).ok().map(String::from)
}

/// The text of a message's body, where there is one and it is text.
pub open spec fn body_text(body: Option<&[u8]>) -> Option<Seq<char>> {
    match body {
        Some(b) => if valid_utf8(b@) {
            Some(decode_utf8(b@))
        } else {
            None
        },
        None => None,
    }
}

/// Read a message's body as text.
pub fn read_body(body: Option<&[u8]>) -> (r: Option<String>)
    ensures
        (match r {
            Some(s) => Some(s@),
            None => None,
        }) == body_text(body),
{
    match body {
        Some(b) => utf8_text(b),
        None => None,
    }
}

/// The characters of a string.
pub fn chars_of(s: &str) -> (r: Vec<char>)
    ensures
        r@ == s@,
{
    let mut r: Vec<char> = Vec::new();
    for c in it: s.chars()
        invariant
            r@ == s@.subrange(0, it.index() as int),
            it.seq() == s@,
    {
        r.push(c);
        assert(s@.subrange(0, it.index() + 1) == s@.subrange(0, it.index() as int).push(
            s@[it.index() as int],
        ));
    }
    assert(s@.subrange(0, s@.len() as int) == s@);
    r
}

/// The string made of `chars[from..to]`.
pub fn string_of(chars: &Vec<char>, from: usize, to: usize) -> (r: String)
    requires
        from <= to <= chars@.len(),
    ensures
        r@ == chars@.subrange(from as int, to as int),
{
    let mut r = String::new();
    let mut i: usize = from;
    while i < to
        invariant
            from <= i <= to <= chars@.len(),
            r@ == chars@.subrange(from as int, i as int),
        decreases to - i,
    {
        r.push(chars[i]);
        assert(chars@.subrange(from as int, i + 1) == chars@.subrange(from as int, i as int).push(
            chars@[i as int],
        ));
        i = i + 1;
    }
    r
}

/// Whether two strings are equal.
pub fn same(a: &str, b: &str) -> (r: bool)
    ensures
        r == (a@ == b@),
{
    let x = chars_of(a);
    let y = chars_of(b);
    if x.len() != y.len() {
        return false;
    }
    let mut i: usize = 0;
    while i < x.len()
        invariant
            x@ == a@,
            y@ == b@,
            x@.len() == y@.len(),
            i <= x@.len(),
            forall|j: int| 0 <= j < i ==> x@[j] == y@[j],
        decreases x@.len() - i,
    {
        if x[i] != y[i] {
            assert(a@[i as int] != b@[i as int]);
            return false;
        }
        i = i + 1;
    }
    assert(a@ =~= b@);
    true
}

pub open spec fn digit_char(d: int) -> char {
    (48 + d) as char
}

/// The decimal digits of a number, no leading zeros.
pub open spec fn decimal(n: nat) -> Seq<char>
    decreases n,
{
    if n < 10 {
        seq![digit_char(n as int)]
    } else {
        decimal(n / 10).push(digit_char((n % 10) as int))
    }
}

/// Append a number in decimal.
pub fn push_decimal(s: &mut String, n: u64)
    ensures
        final(s)@ == old(s)@ + decimal(n as nat),
    decreases n,
{
    if n >= 10 {
        push_decimal(s, n / 10);
    }
    let ghost mid = s@;
    s.push((48u8 + (n % 10) as u8) as char);
    assert(s@ =~= old(s)@ + decimal(n as nat));
}

/// A number in decimal.
pub fn decimal_string(n: u64) -> (r: String)
    ensures
        r@ == decimal(n as nat),
{
    let mut s = String::new();
    push_decimal(&mut s, n);
    assert(s@ =~= decimal(n as nat));
    s
}

/// `head` followed by `tail`.
pub fn joined(head: &str, tail: &str) -> (r: String)
    ensures
        r@ == head@ + tail@,
{
    let mut s = String::from_str(head);
    s.append(tail);
    s
}

/// Dictionary order of two texts by Unicode scalar value, which is also the
/// byte order of their UTF-8 forms.
pub open spec fn precedes(a: Seq<char>, b: Seq<char>) -> bool
    decreases a.len(),
{
    if b.len() == 0 {
        false
    } else if a.len() == 0 {
        true
    } else if a[0] != b[0] {
        (a[0] as int) < (b[0] as int)
    } else {
        precedes(a.drop_first(), b.drop_first())
    }
}

proof fn precedes_from(a: Seq<char>, b: Seq<char>, n: int)
    requires
        0 <= n <= a.len(),
        n <= b.len(),
        forall|j: int| 0 <= j < n ==> a[j] == b[j],
    ensures
        precedes(a, b) == precedes(a.subrange(n, a.len() as int), b.subrange(n, b.len() as int)),
    decreases n,
{
    if n == 0 {
        assert(a.subrange(0, a.len() as int) == a);
        assert(b.subrange(0, b.len() as int) == b);
    } else {
        assert forall|j: int| 0 <= j < n - 1 implies a.drop_first()[j] == b.drop_first()[j] by {
            assert(a[j + 1] == b[j + 1]);
        }
        precedes_from(a.drop_first(), b.drop_first(), n - 1);
        assert(a.drop_first().subrange(n - 1, a.len() - 1) == a.subrange(n, a.len() as int));
        assert(b.drop_first().subrange(n - 1, b.len() - 1) == b.subrange(n, b.len() as int));
    }
}

/// No text precedes itself.
pub proof fn precedes_irreflexive(a: Seq<char>)
    ensures
        !precedes(a, a),
    decreases a.len(),
{
    if a.len() > 0 {
        precedes_irreflexive(a.drop_first());
    }
}

/// The order is transitive.
pub proof fn precedes_transitive(a: Seq<char>, b: Seq<char>, c: Seq<char>)
    requires
        precedes(a, b),
        precedes(b, c),
    ensures
        precedes(a, c),
    decreases a.len(),
{
    if a.len() > 0 && a[0] == b[0] && b[0] == c[0] {
        precedes_transitive(a.drop_first(), b.drop_first(), c.drop_first());
    }
}

/// Of two different texts one precedes the other.
pub proof fn precedes_total(a: Seq<char>, b: Seq<char>)
    requires
        a != b,
    ensures
        precedes(a, b) || precedes(b, a),
    decreases a.len(),
{
    if a.len() > 0 && b.len() > 0 && a[0] == b[0] {
        if a.drop_first() == b.drop_first() {
            assert(a =~= seq![a[0]] + a.drop_first());
            assert(b =~= seq![b[0]] + b.drop_first());
        }
        precedes_total(a.drop_first(), b.drop_first());
    } else if a.len() == 0 && b.len() == 0 {
        assert(a =~= b);
    }
}

/// Whether `a` comes before `b` in dictionary order.
pub fn before(a: &str, b: &str) -> (r: bool)
    ensures
        r == precedes(a@, b@),
{
    let x = chars_of(a);
    let y = chars_of(b);
    let mut i: usize = 0;
    while i < x.len() && i < y.len() && x[i] == y[i]
        invariant
            x@ == a@,
            y@ == b@,
            i <= x@.len(),
            i <= y@.len(),
            forall|j: int| 0 <= j < i ==> x@[j] == y@[j],
        decreases x@.len() - i,
    {
        i = i + 1;
    }
    proof {
        precedes_from(a@, b@, i as int);
    }
    if i >= y.len() {
        false
    } else if i >= x.len() {
        true
    } else {
        let cx: char = x[i];
        let cy: char = y[i];
        assert(a@.subrange(i as int, a@.len() as int)[0] == cx);
        assert(b@.subrange(i as int, b@.len() as int)[0] == cy);
        cx < cy
    }
}

/// Whether a list of strings holds a text.
pub fn holds(list: &Vec<String>, t: &str) -> (r: bool)
    ensures
        r == (exists|i: int| 0 <= i < list@.len() && #[trigger] list@[i]@ == t@),
{
    let mut i: usize = 0;
    while i < list.len()
        invariant
            i <= list@.len(),
            forall|k: int| 0 <= k < i ==> #[trigger] list@[k]@ != t@,
        decreases list@.len() - i,
    {
        if same(list[i].as_str(), t) {
            return true;
        }
        i = i + 1;
    }
    false
}

/// The texts of a list of strings.
pub open spec fn texts(s: Seq<String>) -> Seq<Seq<char>> {
    Seq::new(s.len(), |i: int| s[i]@)
}

/// A string that may be missing.
pub open spec fn opt_view(s: Option<&str>) -> Option<Seq<char>> {
    match s {
        Some(t) => Some(t@),
        None => None,
    }
}

/// A copy of a list of strings.
pub fn copy_texts(list: &Vec<String>) -> (r: Vec<String>)
    ensures
        texts(r@) == texts(list@),
{
    let mut r: Vec<String> = Vec::new();
    let mut i: usize = 0;
    while i < list.len()
        invariant
            i <= list@.len(),
            r@.len() == i,
            forall|k: int| 0 <= k < i ==> #[trigger] r@[k]@ == list@[k]@,
        decreases list@.len() - i,
    {
        r.push(list[i].clone());
        i = i + 1;
    }
    assert(texts(r@) =~= texts(list@));
    r
}

/// The first `n` texts of a list in quotes, separated by commas.
pub open spec fn quoted_items(list: Seq<Seq<char>>, n: nat) -> Seq<char>
    decreases n,
{
    if n == 0 {
        Seq::empty()
    } else if n == 1 {
        "\""@ + list[0] + "\""@
    } else {
        quoted_items(list, (n - 1) as nat) + ", \""@ + list[n - 1] + "\""@
    }
}

/// A list of texts in brackets, each in quotes.
pub open spec fn quoted_list(list: Seq<Seq<char>>) -> Seq<char> {
    "["@ + quoted_items(list, list.len()) + "]"@
}

/// Append a list of strings in brackets, each in quotes.
pub fn push_quoted_list(s: &mut String, list: &Vec<String>)
    ensures
        final(s)@ == old(s)@ + quoted_list(texts(list@)),
{
    s.append("[");
    let ghost head = s@;
    let mut i: usize = 0;
    assert(s@ =~= head + quoted_items(texts(list@), 0));
    while i < list.len()
        invariant
            i <= list@.len(),
            s@ == head + quoted_items(texts(list@), i as nat),
        decreases list@.len() - i,
    {
        if i == 0 {
            s.append("\"");
        } else {
            s.append(", \"");
        }
        s.append(list[i].as_str());
        s.append("\"");
        i = i + 1;
        assert(s@ =~= head + quoted_items(texts(list@), i as nat));
    }
    s.append("]");
    assert(s@ =~= old(s)@ + quoted_list(texts(list@)));
}

// Searching and trimming.

/// Bytes of a character in UTF-8.
pub open spec fn char_bytes(c: char) -> nat {
    if '\u{7f}' >= c {
        1
    } else if '\u{7ff}' >= c {
        2
    } else if '\u{ffff}' >= c {
        3
    } else {
        4
    }
}

/// Length of a text in UTF-8.
pub open spec fn byte_len(s: Seq<char>) -> nat
    decreases s.len(),
{
    if s.len() == 0 {
        0
    } else {
        byte_len(s.drop_last()) + char_bytes(s.last())
    }
}

/// Whether a text is longer than `limit` bytes of UTF-8.
pub fn longer_than(s: &str, limit: u64) -> (r: bool)
    requires
        limit < u64::MAX - 4,
    ensures
        r == (byte_len(s@) > limit),
{
    let chars = chars_of(s);
    let mut n: u64 = 0;
    let mut i: usize = 0;
    assert(s@.subrange(0, 0) =~= Seq::<char>::empty());
    while i < chars.len()
        invariant
            i <= chars@.len(),
            chars@ == s@,
            limit < u64::MAX - 4,
            n <= limit,
            n == byte_len(s@.subrange(0, i as int)),
        decreases chars@.len() - i,
    {
        let c: char = chars[i];
        proof {
            let head = s@.subrange(0, i + 1);
            assert(head.drop_last() =~= s@.subrange(0, i as int));
            assert(head.last() == c);
        }
        let width: u64 = if '\u{7f}' >= c {
            1
        } else if '\u{7ff}' >= c {
            2
        } else if '\u{ffff}' >= c {
            3
        } else {
            4
        };
        n = n + width;
        i = i + 1;
        if n > limit {
            proof {
                byte_len_grows(s@, i as int);
            }
            return true;
        }
    }
    assert(s@.subrange(0, s@.len() as int) =~= s@);
    false
}

proof fn byte_len_grows(s: Seq<char>, i: int)
    requires
        0 <= i <= s.len(),
    ensures
        byte_len(s.subrange(0, i)) <= byte_len(s),
    decreases s.len() - i,
{
    if i < s.len() {
        byte_len_grows(s, i + 1);
        assert(s.subrange(0, i + 1).drop_last() =~= s.subrange(0, i));
    } else {
        assert(s.subrange(0, i) =~= s);
    }
}

/// `p` stands at place `i` of `s`.
pub open spec fn stands_at(s: Seq<char>, p: Seq<char>, i: int) -> bool {
    0 <= i && i + p.len() <= s.len() && s.subrange(i, i + p.len()) == p
}

/// `p` stands somewhere in `s`.
pub open spec fn has_text(s: Seq<char>, p: Seq<char>) -> bool {
    exists|i: int| #[trigger] stands_at(s, p, i)
}

fn at_place(s: &Vec<char>, p: &Vec<char>, i: usize) -> (r: bool)
    requires
        i <= s@.len(),
    ensures
        r == stands_at(s@, p@, i as int),
{
    let n: usize = s.len();
    if p.len() > n - i {
        return false;
    }
    let mut k: usize = 0;
    while k < p.len()
        invariant
            k <= p@.len(),
            i + p@.len() <= n,
            n == s@.len(),
            forall|j: int| 0 <= j < k ==> s@[i + j] == #[trigger] p@[j],
        decreases p@.len() - k,
    {
        if s[i + k] != p[k] {
            assert(s@.subrange(i as int, i + p@.len())[k as int] != p@[k as int]);
            return false;
        }
        k = k + 1;
    }
    assert(s@.subrange(i as int, i + p@.len()) =~= p@);
    true
}

/// Whether a text holds another.
pub fn contains_text(s: &str, p: &str) -> (r: bool)
    ensures
        r == has_text(s@, p@),
{
    let x = chars_of(s);
    let y = chars_of(p);
    let mut i: usize = 0;
    while i < x.len()
        invariant
            i <= x@.len(),
            x@ == s@,
            y@ == p@,
            forall|j: int| 0 <= j < i ==> !#[trigger] stands_at(s@, p@, j),
        decreases x@.len() - i,
    {
        if at_place(&x, &y, i) {
            return true;
        }
        i = i + 1;
    }
    at_place(&x, &y, i)
}

/// Whether a text holds a character.
pub fn contains_char(s: &str, c: char) -> (r: bool)
    ensures
        r == s@.contains(c),
{
    let x = chars_of(s);
    let mut i: usize = 0;
    while i < x.len()
        invariant
            i <= x@.len(),
            x@ == s@,
            forall|j: int| 0 <= j < i ==> #[trigger] s@[j] != c,
        decreases x@.len() - i,
    {
        if x[i] == c {
            assert(s@[i as int] == c);
            return true;
        }
        i = i + 1;
    }
    false
}

pub open spec fn starts(s: Seq<char>, p: Seq<char>) -> bool {
    stands_at(s, p, 0)
}

pub open spec fn ends(s: Seq<char>, p: Seq<char>) -> bool {
    stands_at(s, p, s.len() - p.len())
}

/// Whether a text begins with another.
pub fn starts_text(s: &str, p: &str) -> (r: bool)
    ensures
        r == starts(s@, p@),
{
    at_place(&chars_of(s), &chars_of(p), 0)
}

/// Whether a text ends in another.
pub fn ends_text(s: &str, p: &str) -> (r: bool)
    ensures
        r == ends(s@, p@),
{
    let x = chars_of(s);
    let y = chars_of(p);
    if y.len() > x.len() {
        return false;
    }
    at_place(&x, &y, x.len() - y.len())
}

/// White space as Unicode defines it.
pub open spec fn blank(c: char) -> bool {
    ('\u{9}' <= c && c <= '\u{d}') || c == ' ' || c == '\u{85}' || c == '\u{a0}' || c == '\u{1680}' || (
    '\u{2000}' <= c && c <= '\u{200a}') || c == '\u{2028}' || c == '\u{2029}' || c == '\u{202f}' || c
        == '\u{205f}' || c == '\u{3000}'
}

pub fn is_blank(c: char) -> (r: bool)
    ensures
        r == blank(c),
{
    ('\u{9}' <= c && c <= '\u{d}') || c == ' ' || c == '\u{85}' || c == '\u{a0}' || c == '\u{1680}' || (
    '\u{2000}' <= c && c <= '\u{200a}') || c == '\u{2028}' || c == '\u{2029}' || c == '\u{202f}' || c
        == '\u{205f}' || c == '\u{3000}'
}

/// A text without the white space in front of it.
pub open spec fn trimmed_front(s: Seq<char>) -> Seq<char>
    decreases s.len(),
{
    if s.len() > 0 && blank(s[0]) {
        trimmed_front(s.drop_first())
    } else {
        s
    }
}

/// A text without the white space behind it.
pub open spec fn trimmed_back(s: Seq<char>) -> Seq<char>
    decreases s.len(),
{
    if s.len() > 0 && blank(s.last()) {
        trimmed_back(s.drop_last())
    } else {
        s
    }
}

/// A text without the white space around it.
pub open spec fn trimmed(s: Seq<char>) -> Seq<char> {
    trimmed_back(trimmed_front(s))
}

fn front_of(x: &Vec<char>) -> (r: usize)
    ensures
        r <= x@.len(),
        x@.subrange(r as int, x@.len() as int) == trimmed_front(x@),
{
    let mut i: usize = 0;
    assert(x@.subrange(0, x@.len() as int) =~= x@);
    while i < x.len() && is_blank(x[i])
        invariant
            i <= x@.len(),
            trimmed_front(x@.subrange(i as int, x@.len() as int)) == trimmed_front(x@),
        decreases x@.len() - i,
    {
        proof {
            let s = x@.subrange(i as int, x@.len() as int);
            assert(s[0] == x@[i as int]);
            assert(s.drop_first() =~= x@.subrange(i + 1, x@.len() as int));
        }
        i = i + 1;
    }
    proof {
        let s = x@.subrange(i as int, x@.len() as int);
        if s.len() > 0 {
            assert(s[0] == x@[i as int]);
        }
    }
    i
}

/// The characters of a text, without the white space around it.
pub fn trim_chars(s: &str) -> (r: Vec<char>)
    ensures
        r@ == trimmed(s@),
{
    let x = chars_of(s);
    let from: usize = front_of(&x);
    let ghost t = trimmed_front(s@);
    let mut to: usize = x.len();
    while to > from && is_blank(x[to - 1])
        invariant
            from <= to <= x@.len(),
            trimmed_back(x@.subrange(from as int, to as int)) == trimmed_back(t),
        decreases to,
    {
        proof {
            let s = x@.subrange(from as int, to as int);
            assert(s.last() == x@[to - 1]);
            assert(s.drop_last() =~= x@.subrange(from as int, to - 1));
        }
        to = to - 1;
    }
    proof {
        let s = x@.subrange(from as int, to as int);
        if s.len() > 0 {
            assert(s.last() == x@[to - 1]);
        }
    }
    let mut r: Vec<char> = Vec::new();
    let mut i: usize = from;
    while i < to
        invariant
            from <= i <= to <= x@.len(),
            r@ == x@.subrange(from as int, i as int),
        decreases to - i,
    {
        r.push(x[i]);
        i = i + 1;
        assert(r@ =~= x@.subrange(from as int, i as int));
    }
    r
}

/// A text without the white space around it.
pub fn trim_text(s: &str) -> (r: String)
    ensures
        r@ == trimmed(s@),
{
    let x = trim_chars(s);
    let r = string_of(&x, 0, x.len());
    assert(x@.subrange(0, x@.len() as int) =~= x@);
    r
}

/// A text without the white space in front of it.
pub fn trim_front_text(s: &str) -> (r: String)
    ensures
        r@ == trimmed_front(s@),
{
    let x = chars_of(s);
    let from: usize = front_of(&x);
    string_of(&x, from, x.len())
}

/// ASCII letters and digits.
pub open spec fn alphanumeric(c: char) -> bool {
    ('0' <= c && c <= '9') || ('A' <= c && c <= 'Z') || ('a' <= c && c <= 'z')
}

pub fn is_alphanumeric(c: char) -> (r: bool)
    ensures
        r == alphanumeric(c),
{
    ('0' <= c && c <= '9') || ('A' <= c && c <= 'Z') || ('a' <= c && c <= 'z')
}

// Numbers and parts.

pub open spec fn digit(c: char) -> bool {
    '0' <= c && c <= '9'
}

pub open spec fn all_digits(s: Seq<char>) -> bool {
    forall|i: int| 0 <= i < s.len() ==> digit(#[trigger] s[i])
}

/// The number that decimal digits stand for.
pub open spec fn digits_value(s: Seq<char>) -> nat
    decreases s.len(),
{
    if s.len() == 0 {
        0
    } else {
        (digits_value(s.drop_last()) * 10 + (s.last() as int - 48)) as nat
    }
}

/// A text without one plus sign in front of it.
pub open spec fn unsigned_part(s: Seq<char>) -> Seq<char> {
    if s.len() > 1 && s[0] == '+' {
        s.drop_first()
    } else {
        s
    }
}

/// The number a text stands for: decimal digits, perhaps behind a plus sign,
/// and at most `max`.
pub open spec fn number_of(s: Seq<char>, max: nat) -> Option<nat> {
    let t = unsigned_part(s);
    if t.len() > 0 && all_digits(t) && digits_value(t) <= max {
        Some(digits_value(t))
    } else {
        None
    }
}

pub open spec fn opt_nat(v: Option<u64>) -> Option<nat> {
    match v {
        Some(n) => Some(n as nat),
        None => None,
    }
}

proof fn digits_grow(s: Seq<char>, i: int)
    requires
        0 <= i <= s.len(),
        all_digits(s),
    ensures
        digits_value(s.subrange(0, i)) <= digits_value(s),
    decreases s.len() - i,
{
    if i < s.len() {
        digits_grow(s, i + 1);
        assert(s.subrange(0, i + 1).drop_last() =~= s.subrange(0, i));
        assert(s.subrange(0, i + 1).last() == s[i]);
        assert(digit(s[i]));
    } else {
        assert(s.subrange(0, i) =~= s);
    }
}

/// The value of a decimal digit.
pub fn digit_value(c: char) -> (r: Option<u64>)
    ensures
        digit(c) ==> r == Some((c as int - 48) as u64),
        !digit(c) ==> r is None,
{
    if c == '0' {
        Some(0)
    } else if c == '1' {
        Some(1)
    } else if c == '2' {
        Some(2)
    } else if c == '3' {
        Some(3)
    } else if c == '4' {
        Some(4)
    } else if c == '5' {
        Some(5)
    } else if c == '6' {
        Some(6)
    } else if c == '7' {
        Some(7)
    } else if c == '8' {
        Some(8)
    } else if c == '9' {
        Some(9)
    } else {
        None
    }
}

/// Read a number, at most `max`.
pub fn parse_number(s: &Vec<char>, max: u64) -> (r: Option<u64>)
    ensures
        opt_nat(r) == number_of(s@, max as nat),
{
    let from: usize = if s.len() > 1 && s[0] == '+' {
        1
    } else {
        0
    };
    let ghost t = unsigned_part(s@);
    assert(t =~= s@.subrange(from as int, s@.len() as int));
    if s.len() == from {
        return None;
    }
    let mut value: u64 = 0;
    let mut i: usize = from;
    assert(t.subrange(0, 0) =~= Seq::<char>::empty());
    while i < s.len()
        invariant
            from <= i <= s@.len(),
            t == unsigned_part(s@),
            t == s@.subrange(from as int, s@.len() as int),
            t.len() > 0,
            forall|k: int| 0 <= k < i - from ==> digit(#[trigger] t[k]),
            value == digits_value(t.subrange(0, i - from)),
            value <= max,
        decreases s@.len() - i,
    {
        assert(t[i - from] == s@[i as int]);
        match digit_value(s[i]) {
            None => {
                assert(!digit(t[i - from]));
                return None;
            },
            Some(d) => {
                let next: u128 = (value as u128) * 10 + (d as u128);
                proof {
                    let head = t.subrange(0, i - from + 1);
                    assert(head.drop_last() =~= t.subrange(0, i - from));
                    assert(head.last() == t[i - from]);
                    assert(next == digits_value(head));
                }
                if next > max as u128 {
                    proof {
                        if all_digits(t) {
                            digits_grow(t, i - from + 1);
                        }
                    }
                    return None;
                }
                value = next as u64;
            },
        }
        i = i + 1;
    }
    assert(t.subrange(0, t.len() as int) =~= t);
    Some(value)
}

/// The parts of a text between separators.
pub open spec fn split_on(s: Seq<char>, c: char) -> Seq<Seq<char>>
    decreases s.len(),
{
    if s.len() == 0 {
        seq![Seq::<char>::empty()]
    } else {
        let p = split_on(s.drop_last(), c);
        if s.last() == c {
            p.push(Seq::empty())
        } else {
            p.update(p.len() - 1, p.last().push(s.last()))
        }
    }
}

pub open spec fn char_lists(s: Seq<Vec<char>>) -> Seq<Seq<char>> {
    Seq::new(s.len(), |i: int| s[i]@)
}

/// The parts of a text between separators.
pub fn split_chars(s: &Vec<char>, c: char) -> (r: Vec<Vec<char>>)
    ensures
        char_lists(r@) == split_on(s@, c),
        r@.len() > 0,
{
    let mut parts: Vec<Vec<char>> = Vec::new();
    let mut part: Vec<char> = Vec::new();
    let mut i: usize = 0;
    assert(s@.subrange(0, 0) =~= Seq::<char>::empty());
    assert(char_lists(parts@).push(part@) =~= seq![Seq::<char>::empty()]);
    while i < s.len()
        invariant
            i <= s@.len(),
            char_lists(parts@).push(part@) == split_on(s@.subrange(0, i as int), c),
        decreases s@.len() - i,
    {
        let ghost before = char_lists(parts@).push(part@);
        let ghost old_parts = parts@;
        let ghost old_part = part@;
        proof {
            let head = s@.subrange(0, i + 1);
            assert(head.drop_last() =~= s@.subrange(0, i as int));
            assert(head.last() == s@[i as int]);
        }
        if s[i] == c {
            let mut done: Vec<char> = Vec::new();
            std::mem::swap(&mut done, &mut part);
            parts.push(done);
            assert(char_lists(parts@) =~= before);
            assert(part@ =~= Seq::<char>::empty());
        } else {
            part.push(s[i]);
            assert(char_lists(parts@).push(part@) =~= before.update(
                before.len() - 1,
                old_part.push(s@[i as int]),
            ));
        }
        i = i + 1;
    }
    assert(s@.subrange(0, s@.len() as int) =~= s@);
    let ghost before = parts@;
    parts.push(part);
    assert(char_lists(parts@) =~= char_lists(before).push(part@));
    parts
}

// Replacing and words.

/// A text with every `p` replaced by `w`, from the front.
pub open spec fn replaced(s: Seq<char>, p: Seq<char>, w: Seq<char>) -> Seq<char>
    decreases s.len(),
{
    if s.len() == 0 || p.len() == 0 {
        s
    } else if starts(s, p) {
        w + replaced(s.subrange(p.len() as int, s.len() as int), p, w)
    } else {
        seq![s[0]] + replaced(s.drop_first(), p, w)
    }
}

/// Replace every `p` in a text.
pub fn replace_text(s: &str, p: &str, w: &str) -> (r: String)
    requires
        p@.len() > 0,
    ensures
        r@ == replaced(s@, p@, w@),
{
    let x = chars_of(s);
    let y = chars_of(p);
    let mut r = String::new();
    let mut i: usize = 0;
    assert(x@.subrange(0, x@.len() as int) =~= s@);
    assert(r@ + replaced(s@, p@, w@) =~= replaced(s@, p@, w@));
    while i < x.len()
        invariant
            i <= x@.len(),
            x@ == s@,
            y@ == p@,
            p@.len() > 0,
            r@ + replaced(x@.subrange(i as int, x@.len() as int), p@, w@) == replaced(
                s@,
                p@,
                w@,
            ),
        decreases x@.len() - i,
    {
        let ghost rest = x@.subrange(i as int, x@.len() as int);
        let ghost before = r@;
        if at_place(&x, &y, i) {
            proof {
                assert(rest.subrange(0, p@.len() as int) =~= x@.subrange(i as int, i + p@.len()));
                assert(rest.subrange(p@.len() as int, rest.len() as int) =~= x@.subrange(
                    i + p@.len(),
                    x@.len() as int,
                ));
            }
            r.append(w);
            assert(before + replaced(rest, p@, w@) =~= r@ + replaced(
                x@.subrange(i + p@.len(), x@.len() as int),
                p@,
                w@,
            ));
            i = i + y.len();
        } else {
            proof {
                if starts(rest, p@) {
                    assert(rest.subrange(0, p@.len() as int) =~= x@.subrange(
                        i as int,
                        i + p@.len(),
                    ));
                }
                assert(rest[0] == x@[i as int]);
                assert(rest.drop_first() =~= x@.subrange(i + 1, x@.len() as int));
            }
            r.push(x[i]);
            assert(before + replaced(rest, p@, w@) =~= r@ + replaced(
                x@.subrange(i + 1, x@.len() as int),
                p@,
                w@,
            ));
            i = i + 1;
        }
    }
    assert(x@.subrange(i as int, x@.len() as int) =~= Seq::<char>::empty());
    assert(r@ + Seq::<char>::empty() =~= r@);
    r
}

/// The words of a text that are complete, and the one that is not.
pub open spec fn words_begun(s: Seq<char>) -> (Seq<Seq<char>>, Seq<char>)
    decreases s.len(),
{
    if s.len() == 0 {
        (Seq::empty(), Seq::empty())
    } else {
        let (done, word) = words_begun(s.drop_last());
        if !blank(s.last()) {
            (done, word.push(s.last()))
        } else if word.len() > 0 {
            (done.push(word), Seq::empty())
        } else {
            (done, word)
        }
    }
}

/// The words of a text: what stands between white space.
pub open spec fn words(s: Seq<char>) -> Seq<Seq<char>> {
    let (done, word) = words_begun(s);
    if word.len() > 0 {
        done.push(word)
    } else {
        done
    }
}

/// The words of a text.
pub fn split_words(s: &str) -> (r: Vec<String>)
    ensures
        texts(r@) == words(s@),
{
    let x = chars_of(s);
    let mut done: Vec<String> = Vec::new();
    let mut word = String::new();
    let mut empty: bool = true;
    let mut i: usize = 0;
    assert(s@.subrange(0, 0) =~= Seq::<char>::empty());
    assert(texts(done@) =~= Seq::<Seq<char>>::empty());
    assert(word@ =~= Seq::<char>::empty());
    while i < x.len()
        invariant
            i <= x@.len(),
            x@ == s@,
            (texts(done@), word@) == words_begun(s@.subrange(0, i as int)),
            empty == (word@.len() == 0),
        decreases x@.len() - i,
    {
        proof {
            let head = s@.subrange(0, i + 1);
            assert(head.drop_last() =~= s@.subrange(0, i as int));
            assert(head.last() == x@[i as int]);
        }
        if !is_blank(x[i]) {
            word.push(x[i]);
            empty = false;
        } else if !empty {
            let ghost before = done@;
            done.push(word.clone());
            assert(texts(done@) =~= texts(before).push(word@));
            word = String::new();
            assert(word@ =~= Seq::<char>::empty());
            empty = true;
        }
        i = i + 1;
    }
    assert(s@.subrange(0, s@.len() as int) =~= s@);
    if !empty {
        let ghost before = done@;
        done.push(word.clone());
        assert(texts(done@) =~= texts(before).push(word@));
    }
    done
}

// Laws of numbers and parts.

/// A number written in decimal is read back.
pub proof fn decimal_is_read_back(n: nat, max: nat)
    requires
        n <= max,
    ensures
        decimal(n).len() > 0,
        all_digits(decimal(n)),
        digits_value(decimal(n)) == n,
        number_of(decimal(n), max) == Some(n),
    decreases n,
{
    reveal_with_fuel(digits_value, 2);
    let d = decimal(n);
    if n >= 10 {
        decimal_is_read_back(n / 10, max);
        assert(d.drop_last() =~= decimal(n / 10));
        assert forall|i: int| 0 <= i < d.len() implies digit(#[trigger] d[i]) by {
            if i < d.len() - 1 {
                assert(d[i] == decimal(n / 10)[i]);
            }
        }
    } else {
        assert(d.drop_last() =~= Seq::<char>::empty());
    }
    assert(digit(d[0]));
}

/// Digits hold no separator.
pub proof fn digits_are_one_part(s: Seq<char>, c: char)
    requires
        all_digits(s),
        !digit(c),
    ensures
        split_on(s, c) == seq![s],
    decreases s.len(),
{
    if s.len() == 0 {
        assert(s =~= Seq::<char>::empty());
    } else {
        let t = s.drop_last();
        assert forall|i: int| 0 <= i < t.len() implies digit(#[trigger] t[i]) by {
            assert(t[i] == s[i]);
        }
        digits_are_one_part(t, c);
        assert(digit(s[s.len() - 1]));
        assert(t.push(s.last()) =~= s);
        assert(split_on(s, c) =~= seq![s]);
    }
}

/// The parts of two texts with a separator between them are those of the first,
/// then those of the second.
pub proof fn parts_on_both_sides(a: Seq<char>, c: char, b: Seq<char>)
    ensures
        split_on(a.push(c) + b, c) == split_on(a, c) + split_on(b, c),
        split_on(b, c).len() > 0,
    decreases b.len(),
{
    let s = a.push(c) + b;
    if b.len() == 0 {
        assert(s =~= a.push(c));
        assert(s.drop_last() =~= a);
        assert(split_on(s, c) =~= split_on(a, c) + split_on(b, c));
    } else {
        parts_on_both_sides(a, c, b.drop_last());
        assert(s.drop_last() =~= a.push(c) + b.drop_last());
        assert(split_on(s, c) =~= split_on(a, c) + split_on(b, c));
    }
}

/// A text that is one part is that part.
pub proof fn one_part_is_the_text(s: Seq<char>, c: char)
    requires
        split_on(s, c).len() == 1,
    ensures
        split_on(s, c)[0] == s,
    decreases s.len(),
{
    if s.len() == 0 {
        assert(s =~= Seq::<char>::empty());
    } else {
        parts_on_both_sides(Seq::empty(), c, s.drop_last());
        one_part_is_the_text(s.drop_last(), c);
        assert(s.drop_last().push(s.last()) =~= s);
    }
}

/// Trimming takes nothing in front of the last character that is not blank.
pub proof fn trimming_stops_at_ink(s: Seq<char>, n: int)
    requires
        0 <= n < s.len(),
        !blank(s[0]),
        !blank(s[n]),
    ensures
        n < trimmed(s).len() <= s.len(),
        trimmed(s) == s.subrange(0, trimmed(s).len() as int),
        n == s.len() - 1 ==> trimmed(s) == s,
    decreases s.len(),
{
    assert(trimmed_front(s) == s);
    if blank(s.last()) {
        let t = s.drop_last();
        trimming_stops_at_ink(t, n);
        assert(trimmed_front(t) == t);
        assert(trimmed(s) == trimmed(t));
        assert(t.subrange(0, trimmed(t).len() as int) =~= s.subrange(0, trimmed(t).len() as int));
    } else {
        assert(s.subrange(0, s.len() as int) =~= s);
    }
}

// Paths.

/// A name put behind a directory; an absolute name stands for itself.
pub open spec fn path_joined(dir: Seq<char>, name: Seq<char>) -> Seq<char> {
    if starts(name, "/"@) {
        name
    } else if dir.len() == 0 || ends(dir, "/"@) {
        dir + name
    } else {
        dir + "/"@ + name
    }
}

/// Put a name behind a directory.
pub fn join_path(dir: &str, name: &str) -> (r: String)
    ensures
        r@ == path_joined(dir@, name@),
{
    proof {
        reveal_strlit("");
        assert(dir@.len() == 0 <==> dir@ =~= ""@);
    }
    if starts_text(name, "/") {
        String::from_str(name)
    } else if same(dir, "") || ends_text(dir, "/") {
        joined(dir, name)
    } else {
        let mut s = joined(dir, "/");
        s.append(name);
        s
    }
}

/// A relative name stands behind its directory with one slash between them,
/// an absolute one stands for itself.
pub proof fn paths_are_joined_by_one_slash(dir: Seq<char>, name: Seq<char>)
    ensures
        name.len() > 0 && name[0] == '/' ==> path_joined(dir, name) == name,
        (name.len() == 0 || name[0] != '/') && dir.len() > 0 && dir.last() != '/' ==> path_joined(
            dir,
            name,
        ) == dir + seq!['/'] + name,
        (name.len() == 0 || name[0] != '/') && (dir.len() == 0 || dir.last() == '/')
            ==> path_joined(dir, name) == dir + name,
{
    reveal_strlit("/");
    assert("/"@ =~= seq!['/']);
    if name.len() > 0 {
        assert(name.subrange(0, 1) =~= seq![name[0]]);
        assert(seq![name[0]][0] == name[0]);
    }
    if dir.len() > 0 {
        assert(dir.subrange(dir.len() - 1, dir.len() as int) =~= seq![dir.last()]);
        assert(seq![dir.last()][0] == dir.last());
    }
}

} // verus!
