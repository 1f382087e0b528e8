//! Ordered listings: a stable order by name, and the files of a directory.

use vstd::prelude::*;
use crate::text::{before, chars_of};
#[allow(unused_imports)]
use crate::text::{precedes, precedes_total, precedes_transitive, texts};

verus! {

/// Whether `a` goes in front of `b`.
pub open spec fn goes_first(a: Seq<char>, b: Seq<char>, descending: bool) -> bool {
    if descending {
        precedes(b, a)
    } else {
        precedes(a, b)
    }
}

fn comes_first(a: &str, b: &str, descending: bool) -> (r: bool)
    ensures
        r == goes_first(a@, b@, descending),
{
    if descending {
        before(b, a)
    } else {
        before(a, b)
    }
}

/// Where number `k` goes among the numbers `r`: in front of the first one from
/// `i` on whose key comes later.
pub open spec fn place_from(
    keys: Seq<Seq<char>>,
    r: Seq<int>,
    k: int,
    descending: bool,
    i: int,
) -> int
    decreases r.len() - i,
{
    if i >= r.len() || goes_first(keys[k], keys[r[i]], descending) {
        i
    } else {
        place_from(keys, r, k, descending, i + 1)
    }
}

/// The first `n` keys in order, each given by its number; equal keys keep the
/// order they came in.
pub open spec fn ranked(keys: Seq<Seq<char>>, n: nat, descending: bool) -> Seq<int>
    decreases n,
{
    if n == 0 {
        Seq::empty()
    } else {
        let r = ranked(keys, (n - 1) as nat, descending);
        r.insert(place_from(keys, r, n - 1, descending, 0), n - 1)
    }
}

/// A list in the order of its keys.
pub open spec fn in_order<T>(list: Seq<T>, keys: Seq<Seq<char>>, descending: bool) -> Seq<T> {
    let r = ranked(keys, keys.len(), descending);
    Seq::new(r.len(), |i: int| list[r[i]])
}

pub open spec fn numbers(s: Seq<usize>) -> Seq<int> {
    Seq::new(s.len(), |i: int| s[i] as int)
}

/// The numbers of a list of keys, in the order of the keys.
pub fn order_by(keys: &Vec<String>, descending: bool) -> (r: Vec<usize>)
    ensures
        numbers(r@) == ranked(texts(keys@), keys@.len(), descending),
        r@.len() == keys@.len(),
        forall|i: int| 0 <= i < r@.len() ==> #[trigger] r@[i] < keys@.len(),
{
    let ghost all = texts(keys@);
    let mut r: Vec<usize> = Vec::new();
    let mut k: usize = 0;
    assert(numbers(r@) =~= ranked(all, 0, descending));
    while k < keys.len()
        invariant
            k <= keys@.len(),
            all == texts(keys@),
            numbers(r@) == ranked(all, k as nat, descending),
            r@.len() == k,
            forall|i: int| 0 <= i < r@.len() ==> #[trigger] r@[i] < k,
        decreases keys@.len() - k,
    {
        let mut i: usize = 0;
        let ghost so_far = numbers(r@);
        while i < r.len() && !comes_first(keys[k].as_str(), keys[r[i]].as_str(), descending)
            invariant
                i <= r@.len(),
                k < keys@.len(),
                all == texts(keys@),
                so_far == numbers(r@),
                forall|j: int| 0 <= j < r@.len() ==> #[trigger] r@[j] < k,
                place_from(all, so_far, k as int, descending, 0) == place_from(
                    all,
                    so_far,
                    k as int,
                    descending,
                    i as int,
                ),
            decreases r@.len() - i,
        {
            i = i + 1;
        }
        let ghost old_r = r@;
        r.insert(i, k);
        proof {
            assert(numbers(r@) =~= so_far.insert(i as int, k as int));
            assert forall|j: int| 0 <= j < r@.len() implies #[trigger] r@[j] < k + 1 by {
                if j < i {
                    assert(r@[j] == old_r[j]);
                } else if j > i {
                    assert(r@[j] == old_r[j - 1]);
                }
            }
        }
        k = k + 1;
    }
    r
}

// Laws.

proof fn place_is_right(keys: Seq<Seq<char>>, r: Seq<int>, k: int, descending: bool, i: int)
    requires
        0 <= i <= r.len(),
    ensures
        ({
            let p = place_from(keys, r, k, descending, i);
            &&& i <= p <= r.len()
            &&& p < r.len() ==> goes_first(keys[k], keys[r[p]], descending)
            &&& forall|j: int|
                i <= j < p ==> !goes_first(keys[k], #[trigger] keys[r[j]], descending)
        }),
    decreases r.len() - i,
{
    if i < r.len() && !goes_first(keys[k], keys[r[i]], descending) {
        place_is_right(keys, r, k, descending, i + 1);
    }
}

/// `a` may stand in front of `b`: its key comes first, or is equal and it came
/// first.
pub open spec fn well_placed(keys: Seq<Seq<char>>, a: int, b: int, descending: bool) -> bool {
    goes_first(keys[a], keys[b], descending) || (keys[a] == keys[b] && a < b)
}

proof fn goes_first_transitive(a: Seq<char>, b: Seq<char>, c: Seq<char>, descending: bool)
    requires
        goes_first(a, b, descending),
        goes_first(b, c, descending),
    ensures
        goes_first(a, c, descending),
{
    if descending {
        precedes_transitive(c, b, a);
    } else {
        precedes_transitive(a, b, c);
    }
}

proof fn goes_first_total(a: Seq<char>, b: Seq<char>, descending: bool)
    requires
        a != b,
        !goes_first(a, b, descending),
    ensures
        goes_first(b, a, descending),
{
    precedes_total(a, b);
}

/// The order holds every number once, is by key, and keeps equal keys as they
/// came.
pub proof fn order_is_stable(keys: Seq<Seq<char>>, n: nat, descending: bool)
    requires
        n <= keys.len(),
    ensures
        ({
            let r = ranked(keys, n, descending);
            &&& r.len() == n
            &&& forall|i: int| 0 <= i < n ==> 0 <= #[trigger] r[i] < n
            &&& forall|k: int| 0 <= k < n ==> #[trigger] r.contains(k)
            &&& forall|i: int, j: int|
                0 <= i < j < n ==> well_placed(keys, #[trigger] r[i], #[trigger] r[j], descending)
        }),
    decreases n,
{
    if n > 0 {
        let k = n - 1;
        let b = ranked(keys, k as nat, descending);
        order_is_stable(keys, k as nat, descending);
        place_is_right(keys, b, k, descending, 0);
        let p = place_from(keys, b, k, descending, 0);
        let r = ranked(keys, n, descending);
        assert(r == b.insert(p, k));
        assert forall|i: int| 0 <= i < n implies 0 <= #[trigger] r[i] < n by {
            if i < p {
                assert(r[i] == b[i]);
            } else if i > p {
                assert(r[i] == b[i - 1]);
            }
        }
        assert forall|m: int| 0 <= m < n implies #[trigger] r.contains(m) by {
            if m == k {
                assert(r[p] == k);
            } else {
                assert(b.contains(m));
                let i = choose|i: int| 0 <= i < b.len() && b[i] == m;
                if i < p {
                    assert(r[i] == m);
                } else {
                    assert(r[i + 1] == m);
                }
            }
        }
        assert forall|i: int, j: int| 0 <= i < j < n implies well_placed(
            keys,
            #[trigger] r[i],
            #[trigger] r[j],
            descending,
        ) by {
            if j < p {
                assert(r[i] == b[i] && r[j] == b[j]);
            } else if i > p {
                assert(r[i] == b[i - 1] && r[j] == b[j - 1]);
            } else if i < p && j > p {
                assert(r[i] == b[i] && r[j] == b[j - 1]);
            } else if j == p {
                assert(r[i] == b[i] && r[j] == k);
                assert(!goes_first(keys[k], keys[b[i]], descending));
                if keys[b[i]] != keys[k] {
                    goes_first_total(keys[k], keys[b[i]], descending);
                }
            } else {
                assert(r[i] == k && r[j] == b[j - 1]);
                assert(goes_first(keys[k], keys[b[p]], descending));
                if j - 1 > p {
                    assert(well_placed(keys, b[p], b[j - 1], descending));
                    if goes_first(keys[b[p]], keys[b[j - 1]], descending) {
                        goes_first_transitive(keys[k], keys[b[p]], keys[b[j - 1]], descending);
                    }
                }
            }
        }
    }
}

// Directories.

/// What a directory holds under one name.
#[derive(Debug, Clone, PartialEq, Eq)]
pub struct FileEntry {
    /// The name, where it is text at all.
    pub name: Option<String>,
    /// A regular file, links followed.
    pub is_file: bool,
    pub size_bytes: u64,
    /// Seconds since the epoch.
    pub mtime: u64,
}

#[verifier::ext_equal]
pub struct SummaryModel {
    pub filename: Seq<char>,
    pub size_bytes: u64,
    pub mtime: u64,
}

/// A name with the given extension: something stands in front of its last dot,
/// and the extension behind it.
pub open spec fn has_extension(name: Seq<char>, ext: Seq<char>) -> bool {
    &&& name.len() > ext.len() + 1
    &&& name[name.len() - ext.len() - 1] == '.'
    &&& name.subrange(name.len() - ext.len(), name.len() as int) == ext
}

/// Whether a name has the given extension, which holds no dot itself.
pub fn extension_is(name: &str, ext: &str) -> (r: bool)
    ensures
        r == has_extension(name@, ext@),
{
    let x = chars_of(name);
    let e = chars_of(ext);
    let n: usize = x.len();
    if n <= e.len() || n - e.len() <= 1 {
        return false;
    }
    let from: usize = n - e.len();
    if x[from - 1] != '.' {
        return false;
    }
    let mut i: usize = 0;
    while i < e.len()
        invariant
            i <= e@.len(),
            from + e@.len() == n,
            n == x@.len(),
            x@ == name@,
            e@ == ext@,
            forall|j: int| 0 <= j < i ==> x@[from + j] == #[trigger] e@[j],
        decreases e@.len() - i,
    {
        if x[from + i] != e[i] {
            assert(x@.subrange(from as int, x@.len() as int)[i as int] != e@[i as int]);
            return false;
        }
        i = i + 1;
    }
    assert(x@.subrange(from as int, x@.len() as int) =~= e@);
    true
}

/// A regular file, or a link to one, with the given extension.
pub open spec fn listed(e: FileEntry, ext: Seq<char>) -> bool {
    &&& e.name is Some
    &&& has_extension(e.name->0@, ext)
    &&& e.is_file
}

pub open spec fn summary_of(e: FileEntry) -> SummaryModel {
    SummaryModel { filename: e.name->0@, size_bytes: e.size_bytes, mtime: e.mtime }
}

/// The listed ones among the first `n` entries.
pub open spec fn chosen(entries: Seq<FileEntry>, ext: Seq<char>, n: nat) -> Seq<SummaryModel>
    decreases n,
{
    if n == 0 {
        Seq::empty()
    } else {
        let s = chosen(entries, ext, (n - 1) as nat);
        if listed(entries[n - 1], ext) {
            s.push(summary_of(entries[n - 1]))
        } else {
            s
        }
    }
}

pub open spec fn filenames(s: Seq<SummaryModel>) -> Seq<Seq<char>> {
    Seq::new(s.len(), |i: int| s[i].filename)
}

/// The files of a directory with the given extension, by name.
pub open spec fn directory_listing(entries: Seq<FileEntry>, ext: Seq<char>) -> Seq<SummaryModel> {
    let s = chosen(entries, ext, entries.len());
    in_order(s, filenames(s), false)
}

/// A file of a directory.
#[derive(Debug, Clone, PartialEq, Eq)]
pub struct ReplaySummary {
    pub filename: String,
    /// File size, bytes.
    pub size_bytes: u64,
    /// Seconds since the epoch.
    pub mtime: u64,
}

impl View for ReplaySummary {
    type V = SummaryModel;

    open spec fn view(&self) -> SummaryModel {
        SummaryModel {
            filename: self.filename@,
            size_bytes: self.size_bytes,
            mtime: self.mtime,
        }
    }
}

pub open spec fn summaries(s: Seq<ReplaySummary>) -> Seq<SummaryModel> {
    Seq::new(s.len(), |i: int| s[i]@)
}

/// The files among the entries of a directory that have the given extension,
/// by name.
pub fn list_files(entries: &Vec<FileEntry>, ext: &str) -> (r: Vec<ReplaySummary>)
    ensures
        summaries(r@) == directory_listing(entries@, ext@),
{
    let mut found: Vec<ReplaySummary> = Vec::new();
    let mut keys: Vec<String> = Vec::new();
    let mut i: usize = 0;
    assert(summaries(found@) =~= chosen(entries@, ext@, 0));
    assert(texts(keys@) =~= filenames(summaries(found@)));
    while i < entries.len()
        invariant
            i <= entries@.len(),
            summaries(found@) == chosen(entries@, ext@, i as nat),
            texts(keys@) == filenames(summaries(found@)),
            keys@.len() == found@.len(),
        decreases entries@.len() - i,
    {
        let e = &entries[i];
        match &e.name {
            Some(name) => {
                if extension_is(name.as_str(), ext) && e.is_file {
                    let ghost f = found@;
                    let ghost k = keys@;
                    keys.push(name.clone());
                    found.push(
                        ReplaySummary {
                            filename: name.clone(),
                            size_bytes: e.size_bytes,
                            mtime: e.mtime,
                        },
                    );
                    assert(summaries(found@) =~= summaries(f).push(summary_of(entries@[i as int])));
                    assert(texts(keys@) =~= texts(k).push(name@));
                    assert(filenames(summaries(found@)) =~= filenames(summaries(f)).push(name@));
                }
            },
            None => {},
        }
        i = i + 1;
    }
    let order = order_by(&keys, false);
    let ghost all = summaries(found@);
    let mut r: Vec<ReplaySummary> = Vec::new();
    let mut k: usize = 0;
    while k < order.len()
        invariant
            k <= order@.len(),
            order@.len() == found@.len(),
            all == summaries(found@),
            forall|j: int| 0 <= j < order@.len() ==> #[trigger] order@[j] < found@.len(),
            r@.len() == k,
            forall|j: int| 0 <= j < k ==> (#[trigger] r@[j])@ == all[order@[j] as int],
        decreases order@.len() - k,
    {
        let s = &found[order[k]];
        assert(order@[k as int] < found@.len());
        r.push(
            ReplaySummary {
                filename: s.filename.clone(),
                size_bytes: s.size_bytes,
                mtime: s.mtime,
            },
        );
        assert(r@[k as int]@ =~= all[order@[k as int] as int]);
        k = k + 1;
    }
    proof {
        let q = ranked(filenames(all), all.len(), false);
        assert(numbers(order@) == q);
        assert forall|j: int| 0 <= j < r@.len() implies #[trigger] summaries(r@)[j]
            == in_order(all, filenames(all), false)[j] by {
            assert(r@[j]@ == all[order@[j] as int]);
            assert(numbers(order@)[j] == q[j]);
        }
        assert(summaries(r@) =~= in_order(all, filenames(all), false));
    }
    r
}

/// The next entry of a directory is listed, with its name, size and time,
/// where it is a file whose name has the extension behind a dot and something
/// before it.
pub proof fn files_with_the_extension_are_listed(
    entries: Seq<FileEntry>,
    ext: Seq<char>,
    n: nat,
)
    requires
        n < entries.len(),
    ensures
        ({
            let e = entries[n as int];
            let b = chosen(entries, ext, n);
            let r = chosen(entries, ext, n + 1);
            let fits = e.is_file && (e.name matches Some(s) && exists|stem: Seq<char>|
                stem.len() > 0 && #[trigger] (stem + seq!['.'] + ext) == s@);
            &&& !fits ==> r == b
            &&& fits ==> r.len() == b.len() + 1 && r.drop_last() == b && r.last().filename
                == e.name->0@ && r.last().size_bytes == e.size_bytes && r.last().mtime == e.mtime
            &&& chosen(entries, ext, 0).len() == 0
        }),
{
    let e = entries[n as int];
    let b = chosen(entries, ext, n);
    let r = chosen(entries, ext, n + 1);
    if let Some(name) = e.name {
        let s = name@;
        if has_extension(s, ext) {
            let stem = s.subrange(0, s.len() - ext.len() - 1);
            assert(stem + seq!['.'] + ext =~= s) by {
                assert forall|i: int| 0 <= i < ext.len() implies s[s.len() - ext.len() + i]
                    == #[trigger] ext[i] by {
                    assert(s.subrange(s.len() - ext.len(), s.len() as int)[i] == ext[i]);
                }
            }
        }
        if exists|stem: Seq<char>| stem.len() > 0 && #[trigger] (stem + seq!['.'] + ext) == s {
            let stem = choose|stem: Seq<char>|
                stem.len() > 0 && #[trigger] (stem + seq!['.'] + ext) == s;
            assert(s.len() == stem.len() + 1 + ext.len());
            assert(s[stem.len() as int] == '.');
            assert(s.subrange(s.len() - ext.len(), s.len() as int) =~= ext);
        }
    }
    if r.len() > b.len() {
        assert(r.drop_last() =~= b);
    }
}

/// The files of a directory are listed by name.
pub proof fn files_are_listed_by_name(entries: Seq<FileEntry>, ext: Seq<char>, j: int, k: int)
    requires
        0 <= j < k < directory_listing(entries, ext).len(),
    ensures
        ({
            let a = directory_listing(entries, ext)[j].filename;
            let b = directory_listing(entries, ext)[k].filename;
            a == b || precedes(a, b)
        }),
{
    let s = chosen(entries, ext, entries.len());
    let names = filenames(s);
    order_is_stable(names, s.len(), false);
    let r = ranked(names, s.len(), false);
    assert(well_placed(names, r[j], r[k], false));
}

} // verus!
