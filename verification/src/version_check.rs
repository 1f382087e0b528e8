//! The firmware a vehicle must run before a mission is uploaded to it.

use vstd::prelude::*;
use crate::json::{json_error, json_has, json_string_at};
#[allow(unused_imports)]
use crate::json::{json_fault, json_present, json_string};
#[allow(unused_imports)]
use crate::fleet::opt_text;
use crate::text::{parse_number, read_body, same, split_chars, trim_chars};
#[allow(unused_imports)]
use crate::text::{
    blank, body_text, char_lists, decimal, decimal_is_read_back, digit, digits_are_one_part, number_of,
    one_part_is_the_text, parts_on_both_sides, split_on, trimmed, trimming_stops_at_ink,
    unsigned_part,
};

verus! {

/// The one accepted version.
pub const REQUIRED_PX4_VERSION: &'static str = "v1.16.2";

/// Seconds within which the version must be known.
pub const VERSION_TIMEOUT_S: u64 = 2;

/// The word "true", in any mix of cases.
pub open spec fn spells_true(s: Seq<char>) -> bool {
    &&& s.len() == 4
    &&& s[0] == 't' || s[0] == 'T'
    &&& s[1] == 'r' || s[1] == 'R'
    &&& s[2] == 'u' || s[2] == 'U'
    &&& s[3] == 'e' || s[3] == 'E'
}

/// Whether another version is only warned about: the environment's switch is
/// `1` or `true`, in any case.
pub fn allow_unpinned(switch: Option<&str>) -> (r: bool)
    ensures
        r == (switch is Some && (switch->0@ == "1"@ || spells_true(switch->0@))),
{
    match switch {
        None => false,
        Some(v) => {
            let c = crate::text::chars_of(v);
            same(v, "1") || (c.len() == 4 && (c[0] == 't' || c[0] == 'T') && (c[1] == 'r' || c[1]
                == 'R') && (c[2] == 'u' || c[2] == 'U') && (c[3] == 'e' || c[3] == 'E'))
        },
    }
}

/// A text without the letters `v` in front of it.
pub open spec fn without_v(s: Seq<char>) -> Seq<char>
    decreases s.len(),
{
    if s.len() > 0 && s[0] == 'v' {
        without_v(s.drop_first())
    } else {
        s
    }
}

/// The version a text names: three numbers between dots, each perhaps with a
/// plus sign, and nothing else but letters `v` in front and white space around.
pub open spec fn version_of(s: Seq<char>) -> Option<(nat, nat, nat)> {
    let p = split_on(without_v(trimmed(s)), '.');
    if p.len() == 3 && number_of(p[0], 0xffff_ffff) is Some && number_of(p[1], 0xffff_ffff) is Some
        && number_of(p[2], 0xffff_ffff) is Some {
        Some(
            (
                number_of(p[0], 0xffff_ffff)->0,
                number_of(p[1], 0xffff_ffff)->0,
                number_of(p[2], 0xffff_ffff)->0,
            ),
        )
    } else {
        None
    }
}

pub open spec fn opt_version(v: Option<(u32, u32, u32)>) -> Option<(nat, nat, nat)> {
    match v {
        Some((a, b, c)) => Some((a as nat, b as nat, c as nat)),
        None => None,
    }
}

fn drop_v(s: &Vec<char>) -> (r: Vec<char>)
    ensures
        r@ == without_v(s@),
{
    let mut i: usize = 0;
    assert(s@.subrange(0, s@.len() as int) =~= s@);
    while i < s.len() && s[i] == 'v'
        invariant
            i <= s@.len(),
            without_v(s@.subrange(i as int, s@.len() as int)) == without_v(s@),
        decreases s@.len() - i,
    {
        proof {
            let t = s@.subrange(i as int, s@.len() as int);
            assert(t[0] == s@[i as int]);
            assert(t.drop_first() =~= s@.subrange(i + 1, s@.len() as int));
        }
        i = i + 1;
    }
    proof {
        let t = s@.subrange(i as int, s@.len() as int);
        if t.len() > 0 {
            assert(t[0] == s@[i as int]);
        }
    }
    let mut r: Vec<char> = Vec::new();
    let mut k: usize = i;
    while k < s.len()
        invariant
            i <= k <= s@.len(),
            r@ == s@.subrange(i as int, k as int),
        decreases s@.len() - k,
    {
        r.push(s[k]);
        k = k + 1;
        assert(r@ =~= s@.subrange(i as int, k as int));
    }
    r
}

/// Read a version.
pub fn parse_version(s: &str) -> (r: Option<(u32, u32, u32)>)
    ensures
        opt_version(r) == version_of(s@),
{
    let t = drop_v(&trim_chars(s));
    let parts = split_chars(&t, '.');
    let ghost p = split_on(without_v(trimmed(s@)), '.');
    assert(char_lists(parts@) == p);
    assert(p.len() == parts@.len());
    if parts.len() != 3 {
        return None;
    }
    assert(p[0] == parts@[0]@ && p[1] == parts@[1]@ && p[2] == parts@[2]@);
    let major = parse_number(&parts[0], 0xffff_ffff);
    let minor = parse_number(&parts[1], 0xffff_ffff);
    let patch = parse_number(&parts[2], 0xffff_ffff);
    match (major, minor, patch) {
        (Some(a), Some(b), Some(c)) => Some((a as u32, b as u32, c as u32)),
        _ => None,
    }
}

/// Whether a version is the required one.
pub fn version_matches(reported: &str) -> (r: bool)
    ensures
        r == (version_of(reported@) == Some((1nat, 16nat, 2nat))),
{
    match parse_version(reported) {
        Some((a, b, c)) => a == 1 && b == 16 && c == 2,
        None => false,
    }
}

/// What came of a version check.
#[derive(Debug, Clone, PartialEq, Eq)]
pub enum VersionCheckResult {
    /// The version is the required one.
    Match { reported_version: String, required_version: String },
    /// It is another one; no obstacle where it is only warned about.
    Mismatch { reported_version: String, required_version: String, warning_only: bool },
    /// It could not be found out in time.
    Unavailable { timeout_s: u64 },
}

pub enum VersionCheckModel {
    Match { reported_version: Seq<char> },
    Mismatch { reported_version: Seq<char>, warning_only: bool },
    Unavailable,
}

/// `r` states the result.
pub open spec fn states(r: VersionCheckResult, m: VersionCheckModel) -> bool {
    match (r, m) {
        (
            VersionCheckResult::Match { reported_version, required_version },
            VersionCheckModel::Match { reported_version: reported },
        ) => reported_version@ == reported && required_version@ == REQUIRED_PX4_VERSION@,
        (
            VersionCheckResult::Mismatch { reported_version, required_version, warning_only },
            VersionCheckModel::Mismatch { reported_version: reported, warning_only: warn },
        ) => reported_version@ == reported && required_version@ == REQUIRED_PX4_VERSION@
            && warning_only == warn,
        (VersionCheckResult::Unavailable { timeout_s }, VersionCheckModel::Unavailable) => timeout_s
            == VERSION_TIMEOUT_S,
        _ => false,
    }
}

impl VersionCheckResult {
    pub open spec fn blocks(self) -> bool {
        match self {
            VersionCheckResult::Match { .. } => false,
            VersionCheckResult::Mismatch { warning_only, .. } => !warning_only,
            VersionCheckResult::Unavailable { .. } => true,
        }
    }

    /// Whether an upload must not go on.
    pub fn is_blocking(&self) -> (r: bool)
        ensures
            r == self.blocks(),
    {
        match self {
            VersionCheckResult::Match { .. } => false,
            VersionCheckResult::Mismatch { warning_only, .. } => !*warning_only,
            VersionCheckResult::Unavailable { .. } => true,
        }
    }

    /// The HTTP status that tells the result.
    pub fn http_status(&self) -> (r: u16)
        ensures
            r == (match self {
                VersionCheckResult::Match { .. } => 200u16,
                VersionCheckResult::Mismatch { warning_only, .. } => if *warning_only {
                    200u16
                } else {
                    426u16
                },
                VersionCheckResult::Unavailable { .. } => 503u16,
            }),
            r == 200 <==> !self.blocks(),
    {
        match self {
            VersionCheckResult::Match { .. } => 200,
            VersionCheckResult::Mismatch { warning_only, .. } => if *warning_only {
                200
            } else {
                426
            },
            VersionCheckResult::Unavailable { .. } => 503,
        }
    }
}

/// The result for a reported version; an empty one counts as none.
pub open spec fn checked(reported: Seq<char>, lenient: bool) -> VersionCheckModel {
    if reported.len() == 0 {
        VersionCheckModel::Unavailable
    } else if version_of(reported) == Some((1nat, 16nat, 2nat)) {
        VersionCheckModel::Match { reported_version: reported }
    } else {
        VersionCheckModel::Mismatch { reported_version: reported, warning_only: lenient }
    }
}

/// Hold a reported version against the required one.
pub fn check_reported(reported: &str, lenient: bool) -> (r: VersionCheckResult)
    ensures
        states(r, checked(reported@, lenient)),
{
    proof {
        reveal_strlit("");
        assert(reported@.len() == 0 <==> reported@ =~= ""@);
    }
    if same(reported, "") {
        return VersionCheckResult::Unavailable { timeout_s: VERSION_TIMEOUT_S };
    }
    if version_matches(reported) {
        VersionCheckResult::Match {
            reported_version: String::from_str(reported),
            required_version: String::from_str(REQUIRED_PX4_VERSION),
        }
    } else {
        VersionCheckResult::Mismatch {
            reported_version: String::from_str(reported),
            required_version: String::from_str(REQUIRED_PX4_VERSION),
            warning_only: lenient,
        }
    }
}

/// The version in a vehicle's description: in its data, or else beside it.
pub open spec fn version_in(
    in_data: bool,
    data_version: Option<Seq<char>>,
    version: Option<Seq<char>>,
) -> Seq<char> {
    let found = if in_data {
        data_version
    } else {
        version
    };
    match found {
        Some(v) => v,
        None => Seq::empty(),
    }
}

/// Which of the two places a version is taken from.
pub fn pick_version(
    in_data: bool,
    data_version: Option<String>,
    version: Option<String>,
) -> (r: String)
    ensures
        r@ == version_in(in_data, opt_text(data_version), opt_text(version)),
{
    let found = if in_data {
        data_version
    } else {
        version
    };
    match found {
        Some(v) => v,
        None => {
            let s = String::new();
            assert(s@ =~= Seq::<char>::empty());
            s
        },
    }
}

/// Check the version in a vehicle's description, given the bytes its manager
/// sent; `None` where nothing came in time.
pub fn check_vehicle_version(reply: Option<&[u8]>, lenient: bool) -> (r: VersionCheckResult)
    ensures
        states(
            r,
            match body_text(reply) {
                None => VersionCheckModel::Unavailable,
                Some(body) => if json_fault(body) is Some {
                    VersionCheckModel::Unavailable
                } else {
                    checked(
                        version_in(
                            json_present(body, "/data/px4_version"@),
                            json_string(body, "/data/px4_version"@),
                            json_string(body, "/px4_version"@),
                        ),
                        lenient,
                    )
                },
            },
        ),
{
    let text = match read_body(reply) {
        None => return VersionCheckResult::Unavailable { timeout_s: VERSION_TIMEOUT_S },
        Some(t) => t,
    };
    let body = text.as_str();
    if json_error(body).is_some() {
        return VersionCheckResult::Unavailable { timeout_s: VERSION_TIMEOUT_S };
    }
    let v = pick_version(
        json_has(body, "/data/px4_version"),
        json_string_at(body, "/data/px4_version"),
        json_string_at(body, "/px4_version"),
    );
    check_reported(v.as_str(), lenient)
}

/// A version as it is written: its numbers with dots between them.
pub open spec fn version_text(a: u32, b: u32, c: u32) -> Seq<char> {
    decimal(a as nat).push('.') + decimal(b as nat).push('.') + decimal(c as nat)
}

/// The parts of a version with something behind it.
proof fn version_parts(a: u32, b: u32, c: u32, rest: Seq<char>)
    ensures
        split_on(version_text(a, b, c) + rest, '.') == seq![decimal(a as nat), decimal(b as nat)]
            + split_on(decimal(c as nat) + rest, '.'),
{
    let (x, y, z) = (decimal(a as nat), decimal(b as nat), decimal(c as nat));
    decimal_is_read_back(a as nat, a as nat);
    decimal_is_read_back(b as nat, b as nat);
    digits_are_one_part(x, '.');
    digits_are_one_part(y, '.');
    assert(version_text(a, b, c) + rest =~= x.push('.') + (y.push('.') + (z + rest)));
    parts_on_both_sides(x, '.', y.push('.') + (z + rest));
    parts_on_both_sides(y, '.', z + rest);
    assert(split_on(version_text(a, b, c) + rest, '.') =~= seq![x, y] + split_on(z + rest, '.'));
}

/// What is read of a version with something behind it, after an optional `v`:
/// the version and the front of what is behind, down to its first character.
proof fn version_core(a: u32, b: u32, c: u32, suffix: Seq<char>, v: bool)
    requires
        suffix.len() > 0 ==> !blank(suffix[0]),
    ensures
        ({
            let t = version_text(a, b, c);
            let s = if v {
                seq!['v'] + t + suffix
            } else {
                t + suffix
            };
            exists|n: int|
                0 <= n <= suffix.len() && (suffix.len() > 0 ==> n > 0) && without_v(trimmed(s))
                    == t + #[trigger] suffix.subrange(0, n)
        }),
{
    let t = version_text(a, b, c);
    let s = if v {
        seq!['v'] + t + suffix
    } else {
        t + suffix
    };
    let x = decimal(a as nat);
    let z = decimal(c as nat);
    decimal_is_read_back(a as nat, a as nat);
    decimal_is_read_back(c as nat, c as nat);
    assert(digit(x[0]) && digit(z[z.len() - 1]));
    assert(t[0] == x[0] && t.last() == z.last());
    let lead: int = if v {
        1
    } else {
        0
    };
    assert(s[lead + t.len() - 1] == t.last());
    let ink: int = if suffix.len() > 0 {
        lead + t.len()
    } else {
        lead + t.len() - 1
    };
    if suffix.len() > 0 {
        assert(s[ink] == suffix[0]);
    }
    assert(s[lead] == x[0]);
    trimming_stops_at_ink(s, ink);
    let w = trimmed(s);
    let n = w.len() - lead - t.len();
    let core = t + suffix.subrange(0, n);
    assert(w =~= s.subrange(0, w.len() as int));
    assert(core[0] == x[0]);
    if v {
        assert(w[0] == 'v');
        assert(w.drop_first() =~= core);
    } else {
        assert(w =~= core);
    }
    assert(without_v(core) == core);
}

/// A version reads back as it is written, with or without a `v` in front.
pub proof fn written_version_is_read_back(a: u32, b: u32, c: u32)
    ensures
        version_of(version_text(a, b, c)) == Some((a as nat, b as nat, c as nat)),
        version_of(seq!['v'] + version_text(a, b, c)) == Some((a as nat, b as nat, c as nat)),
{
    let t = version_text(a, b, c);
    let none = Seq::<char>::empty();
    version_core(a, b, c, none, false);
    version_core(a, b, c, none, true);
    assert(t + none =~= t);
    assert(seq!['v'] + t + none =~= seq!['v'] + t);
    assert(none.subrange(0, 0) =~= none);
    version_parts(a, b, c, none);
    assert(decimal(c as nat) + none =~= decimal(c as nat));
    decimal_is_read_back(a as nat, 0xffff_ffff);
    decimal_is_read_back(b as nat, 0xffff_ffff);
    decimal_is_read_back(c as nat, 0xffff_ffff);
    digits_are_one_part(decimal(c as nat), '.');
}

/// A version with anything behind it that starts with a minus, a plus or a dot
/// is no version.
pub proof fn version_with_a_suffix_is_refused(a: u32, b: u32, c: u32, suffix: Seq<char>)
    requires
        suffix.len() > 0,
        suffix[0] == '-' || suffix[0] == '+' || suffix[0] == '.',
    ensures
        version_of(version_text(a, b, c) + suffix) is None,
        version_of(seq!['v'] + version_text(a, b, c) + suffix) is None,
{
    let t = version_text(a, b, c);
    let z = decimal(c as nat);
    version_core(a, b, c, suffix, false);
    version_core(a, b, c, suffix, true);
    decimal_is_read_back(c as nat, c as nat);
    assert(digit(z[0]));
    assert forall|n: int| 0 < n <= suffix.len() implies ({
        let p = split_on(t + #[trigger] suffix.subrange(0, n), '.');
        p.len() != 3 || number_of(p[2], 0xffff_ffff) is None
    }) by {
        let rest = suffix.subrange(0, n);
        version_parts(a, b, c, rest);
        let p = split_on(t + rest, '.');
        let last = split_on(z + rest, '.');
        if p.len() == 3 {
            one_part_is_the_text(z + rest, '.');
            assert(p[2] == last[0]);
            let d = z + rest;
            assert(d[0] == z[0]);
            assert(unsigned_part(d) == d);
            assert(!digit(d[z.len() as int]));
        }
    }
}

/// Unless versions are left open, an upload goes on only to a vehicle that
/// reports the required version.
pub proof fn only_the_required_version_passes(reported: Seq<char>, r: VersionCheckResult)
    requires
        states(r, checked(reported, false)),
    ensures
        !r.blocks() <==> reported.len() > 0 && version_of(reported) == Some((1nat, 16nat, 2nat)),
{
}

/// A lenient check lets every reported version pass, with a warning for any
/// but the required one; a version that is not reported never passes. The
/// required version is v1.16.2, and a version is waited for two seconds.
pub proof fn lenient_check_only_warns(reported: Seq<char>, lenient: bool, r: VersionCheckResult)
    requires
        states(r, checked(reported, lenient)),
    ensures
        reported.len() == 0 ==> r.blocks() && (r matches VersionCheckResult::Unavailable { timeout_s }
            && timeout_s == 2),
        reported.len() > 0 && version_of(reported) == Some((1nat, 16nat, 2nat)) ==> (r matches
            VersionCheckResult::Match { reported_version, required_version } && reported_version@
            == reported && required_version@ == "v1.16.2"@),
        reported.len() > 0 && version_of(reported) != Some((1nat, 16nat, 2nat)) ==> (r matches
            VersionCheckResult::Mismatch { reported_version, required_version, warning_only }
            && reported_version@ == reported && required_version@ == "v1.16.2"@ && warning_only
            == lenient && r.blocks() == !lenient),
{
}

/// A reply's version stands beside its data where the reply has one there, at
/// the top where it has not, and is empty where it has neither.
pub proof fn version_is_looked_for_in_the_data_first(
    data_version: Option<Seq<char>>,
    version: Option<Seq<char>>,
)
    ensures
        data_version matches Some(v) ==> version_in(true, data_version, version) == v,
        data_version is None ==> version_in(true, data_version, version).len() == 0,
        version matches Some(v) ==> version_in(false, data_version, version) == v,
        version is None ==> version_in(false, data_version, version).len() == 0,
{
}

} // verus!
