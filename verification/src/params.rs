//! The per-vehicle parameter cache: every parameter value the vehicle reports
//! lands here, with the progress of the last full download.
//!
//! Parameter values travel in a floating-point field. An integer parameter is
//! carried there as its bit pattern, so a value means nothing without its type.

use vstd::prelude::*;
use crate::float::f32_to_i32;
#[allow(unused_imports)]
use crate::float::f32_as_i32;
use crate::text::{before, same};
#[allow(unused_imports)]
use crate::text::{precedes, precedes_irreflexive, precedes_total, precedes_transitive};

verus! {

/// Wire type of an integer parameter.
pub const PARAM_INT32: u8 = 6;

/// Wire type of a floating-point parameter.
pub const PARAM_REAL32: u8 = 9;

/// A download with no value for longer than this is stalled.
pub const STALE_AFTER_MS: u64 = 3_000;

/// A parameter's value in its own type; floating-point values as bit patterns.
#[derive(Debug, Clone, Copy, PartialEq, Eq, Structural)]
pub enum ParamVal {
    Real32(u32),
    Int32(i32),
    /// A type this cache does not interpret.
    Other(u32),
}

impl ParamVal {
    pub open spec fn wire(self) -> u32 {
        match self {
            ParamVal::Real32(v) => v,
            ParamVal::Other(v) => v,
            ParamVal::Int32(v) => v as u32,
        }
    }

    /// The bits a PARAM_SET of this value carries.
    pub fn to_wire(self) -> (r: u32)
        ensures
            r == self.wire(),
    {
        match self {
            ParamVal::Real32(v) => v,
            ParamVal::Other(v) => v,
            ParamVal::Int32(v) => v as u32,
        }
    }

    pub open spec fn wire_tag(self) -> u8 {
        if self is Int32 {
            PARAM_INT32
        } else {
            PARAM_REAL32
        }
    }

    /// The type byte a PARAM_SET of this value carries; the vehicle rejects a
    /// mismatch.
    pub fn wire_type(self) -> (r: u8)
        ensures
            r == self.wire_tag(),
    {
        match self {
            ParamVal::Int32(_) => PARAM_INT32,
            _ => PARAM_REAL32,
        }
    }
}

/// One parameter as last seen on the wire.
#[derive(Debug, Clone, Copy, PartialEq, Eq, Structural)]
pub struct ParamEntry {
    /// Raw bits of the value field.
    pub value: u32,
    pub param_type: u8,
    /// The vehicle's own index for this parameter.
    pub param_index: u16,
    /// Link time when the entry was last refreshed.
    pub last_seen_ms: u64,
}

/// The typed reading of a raw value.
pub open spec fn typed_reading(value: u32, param_type: u8) -> ParamVal {
    if param_type == PARAM_INT32 {
        ParamVal::Int32(value as i32)
    } else if param_type == PARAM_REAL32 {
        ParamVal::Real32(value)
    } else {
        ParamVal::Other(value)
    }
}

impl ParamEntry {
    /// Decode the raw value through the parameter's own type.
    pub fn typed_value(&self) -> (r: ParamVal)
        ensures
            r == typed_reading(self.value, self.param_type),
    {
        if self.param_type == PARAM_INT32 {
            ParamVal::Int32(self.value as i32)
        } else if self.param_type == PARAM_REAL32 {
            ParamVal::Real32(self.value)
        } else {
            ParamVal::Other(self.value)
        }
    }
}

/// Progress of the last full download.
#[derive(Debug, Clone, Copy, PartialEq, Eq, Structural)]
pub enum ParamDownloadState {
    /// Nothing requested yet; unsolicited values may still be cached.
    Idle,
    /// Requested, values in flight.
    Downloading,
    /// The ids received since the request cover the reported total.
    Complete,
    /// Incomplete, and no value for more than three seconds.
    Stalled,
}

impl Default for ParamDownloadState {
    fn default() -> (r: Self)
        ensures
            r == ParamDownloadState::Idle,
    {
        ParamDownloadState::Idle
    }
}

/// A cached parameter under its id.
#[derive(Debug, Clone)]
pub struct NamedParam {
    pub id: String,
    pub entry: ParamEntry,
    /// Reported since the last download request.
    pub seen: bool,
}

/// The cache, ordered by id.
#[derive(Debug, Clone)]
pub struct ParamStore {
    pub params: Vec<NamedParam>,
    /// Parameter count as the vehicle reports it.
    pub total: u16,
    /// Different ids received since the last download request, up to the
    /// range of the counter.
    pub received_unique: u16,
    pub state: ParamDownloadState,
    /// Link time of the last download request.
    pub requested_ms: Option<u64>,
    /// Link time of the last value.
    pub last_value_ms: Option<u64>,
}

/// What the cache holds.
#[verifier::ext_equal]
pub struct StoreModel {
    pub params: Map<Seq<char>, ParamEntry>,
    /// Ids received since the last download request.
    pub seen: Set<Seq<char>>,
    /// Number of cached ids.
    pub count: nat,
    pub total: u16,
    pub received_unique: u16,
    pub state: ParamDownloadState,
    pub requested_ms: Option<u64>,
    pub last_value_ms: Option<u64>,
}

spec fn has_id(s: Seq<NamedParam>, id: Seq<char>) -> bool {
    exists|i: int| 0 <= i < s.len() && #[trigger] s[i].id@ == id
}

spec fn index_of_id(s: Seq<NamedParam>, id: Seq<char>) -> int {
    choose|i: int| 0 <= i < s.len() && #[trigger] s[i].id@ == id
}

/// The contents of an ordered list of named entries.
pub closed spec fn contents(s: Seq<NamedParam>) -> Map<Seq<char>, ParamEntry> {
    Map::new(|id: Seq<char>| has_id(s, id), |id: Seq<char>| s[index_of_id(s, id)].entry)
}

spec fn is_seen(s: Seq<NamedParam>, id: Seq<char>) -> bool {
    exists|i: int| 0 <= i < s.len() && #[trigger] s[i].id@ == id && s[i].seen
}

/// The ids of a list that were reported since the last download request.
pub closed spec fn seen_ids(s: Seq<NamedParam>) -> Set<Seq<char>> {
    Set::new(|id: Seq<char>| is_seen(s, id))
}

/// A number within the range of the counter.
pub open spec fn u16_capped(n: nat) -> u16 {
    if n > u16::MAX {
        u16::MAX
    } else {
        n as u16
    }
}

/// Ids in strictly increasing order.
pub open spec fn ordered(s: Seq<NamedParam>) -> bool {
    forall|i: int, j: int|
        0 <= i < j < s.len() ==> precedes(#[trigger] s[i].id@, #[trigger] s[j].id@)
}

proof fn ordered_ids_are_unique(s: Seq<NamedParam>, i: int, j: int)
    requires
        ordered(s),
        0 <= i < s.len(),
        0 <= j < s.len(),
        s[i].id@ == s[j].id@,
    ensures
        i == j,
{
    precedes_irreflexive(s[i].id@);
}

proof fn contents_at(s: Seq<NamedParam>, i: int)
    requires
        ordered(s),
        0 <= i < s.len(),
    ensures
        contents(s).contains_key(s[i].id@),
        contents(s)[s[i].id@] == s[i].entry,
{
    let id = s[i].id@;
    assert(has_id(s, id));
    ordered_ids_are_unique(s, i, index_of_id(s, id));
}

impl View for ParamStore {
    type V = StoreModel;

    open spec fn view(&self) -> StoreModel {
        StoreModel {
            params: contents(self.params@),
            seen: seen_ids(self.params@),
            count: self.params@.len(),
            total: self.total,
            received_unique: self.received_unique,
            state: self.state,
            requested_ms: self.requested_ms,
            last_value_ms: self.last_value_ms,
        }
    }
}

/// The empty cache.
pub open spec fn empty_store() -> StoreModel {
    StoreModel {
        params: Map::empty(),
        seen: Set::empty(),
        count: 0,
        total: 0,
        received_unique: 0,
        state: ParamDownloadState::Idle,
        requested_ms: None,
        last_value_ms: None,
    }
}

pub open spec fn u16_up(n: u16) -> u16 {
    if n == u16::MAX {
        n
    } else {
        (n + 1) as u16
    }
}

/// The cache after one reported value. An id counts once for each download
/// request, up to the range of the counter; a value under an empty id only
/// updates the bookkeeping. A running download is complete once the ids
/// received for it cover the reported total.
pub open spec fn ingested(
    s: StoreModel,
    id: Seq<char>,
    value: u32,
    param_type: u8,
    param_count: u16,
    param_index: u16,
    now_ms: u64,
) -> StoreModel {
    let named = id.len() > 0;
    let total = if param_count > 0 {
        param_count
    } else {
        s.total
    };
    let received_unique = if named && !s.seen.contains(id) {
        u16_up(s.received_unique)
    } else {
        s.received_unique
    };
    let running = s.state is Downloading || s.state is Stalled;
    StoreModel {
        params: if named {
            s.params.insert(id, ParamEntry { value, param_type, param_index, last_seen_ms: now_ms })
        } else {
            s.params
        },
        seen: if named {
            s.seen.insert(id)
        } else {
            s.seen
        },
        count: if named && !s.params.contains_key(id) {
            s.count + 1
        } else {
            s.count
        },
        total,
        received_unique,
        state: if running && total > 0 && received_unique >= total {
            ParamDownloadState::Complete
        } else {
            s.state
        },
        requested_ms: s.requested_ms,
        last_value_ms: Some(now_ms),
    }
}

impl Default for ParamStore {
    fn default() -> (r: Self)
        ensures
            r.wf(),
            r@ == empty_store(),
    {
        let r = ParamStore {
            params: Vec::new(),
            total: 0,
            received_unique: 0,
            state: ParamDownloadState::Idle,
            requested_ms: None,
            last_value_ms: None,
        };
        assert(r@.params =~= Map::<Seq<char>, ParamEntry>::empty());
        assert(r@.seen =~= Set::<Seq<char>>::empty());
        r
    }
}

impl ParamStore {
    /// Ids are in order, so none occurs twice, and the counter tells how many
    /// were reported since the last request.
    pub open spec fn wf(&self) -> bool {
        &&& ordered(self.params@)
        &&& seen_ids(self.params@).finite()
        &&& self.received_unique == u16_capped(seen_ids(self.params@).len())
    }

    /// Where `id` stands, or where it belongs.
    fn slot_for(&self, id: &str) -> (i: usize)
        requires
            self.wf(),
        ensures
            i <= self.params@.len(),
            forall|j: int| 0 <= j < i ==> precedes(#[trigger] self.params@[j].id@, id@),
            i < self.params@.len() ==> !precedes(self.params@[i as int].id@, id@),
    {
        let mut i: usize = 0;
        while i < self.params.len() && before(self.params[i].id.as_str(), id)
            invariant
                i <= self.params@.len(),
                forall|j: int| 0 <= j < i ==> precedes(#[trigger] self.params@[j].id@, id@),
            decreases self.params@.len() - i,
        {
            i = i + 1;
        }
        i
    }

    /// The index of `id`, if it is cached.
    fn find(&self, id: &str) -> (r: Option<usize>)
        requires
            self.wf(),
        ensures
            match r {
                Some(i) => i < self.params@.len() && self.params@[i as int].id@ == id@
                    && self@.params.contains_key(id@) && self@.params[id@]
                    == self.params@[i as int].entry,
                None => !self@.params.contains_key(id@),
            },
    {
        let i: usize = self.slot_for(id);
        let ghost s = self.params@;
        if i < self.params.len() && same(self.params[i].id.as_str(), id) {
            proof {
                contents_at(s, i as int);
            }
            Some(i)
        } else {
            proof {
                absent_at(s, i as int, id@);
            }
            None
        }
    }

    /// Take in one reported parameter value.
    pub fn ingest(
        &mut self,
        param_id: &str,
        value: u32,
        param_type: u8,
        param_count: u16,
        param_index: u16,
        now_ms: u64,
    )
        requires
            old(self).wf(),
        ensures
            final(self).wf(),
            final(self)@ == ingested(
                old(self)@,
                param_id@,
                value,
                param_type,
                param_count,
                param_index,
                now_ms,
            ),
    {
        let ghost s0 = self.params@;
        if !param_id.is_empty() {
            let entry = ParamEntry { value, param_type, param_index, last_seen_ms: now_ms };
            let named = NamedParam { id: String::from_str(param_id), entry, seen: true };
            let i: usize = self.slot_for(param_id);
            let mut counted: bool = false;
            if i < self.params.len() && same(self.params[i].id.as_str(), param_id) {
                counted = self.params[i].seen;
                self.params.set(i, named);
                proof {
                    contents_at(s0, i as int);
                    seen_at(s0, i as int);
                    replaced_contents(s0, i as int, named);
                    replaced_seen(s0, i as int, named);
                }
            } else {
                self.params.insert(i, named);
                proof {
                    absent_at(s0, i as int, param_id@);
                    inserted_contents(s0, i as int, named);
                    inserted_seen(s0, i as int, named);
                }
            }
            if !counted {
                self.received_unique = self.received_unique.saturating_add(1);
            }
        }
        if param_count > 0 {
            self.total = param_count;
        }
        self.last_value_ms = Some(now_ms);
        if self.state == ParamDownloadState::Downloading || self.state
            == ParamDownloadState::Stalled {
            if self.total > 0 && self.received_unique >= self.total {
                self.state = ParamDownloadState::Complete;
            }
        }
    }

    /// A full download was requested: the ids are counted anew.
    pub fn mark_requested(&mut self, now_ms: u64)
        requires
            old(self).wf(),
        ensures
            final(self).wf(),
            final(self)@ == requested(old(self)@, now_ms),
    {
        let ghost s0 = self.params@;
        let mut i: usize = 0;
        while i < self.params.len()
            invariant
                i <= self.params@.len(),
                self.params@.len() == s0.len(),
                forall|j: int|
                    0 <= j < s0.len() ==> (#[trigger] self.params@[j]).id == s0[j].id
                        && self.params@[j].entry == s0[j].entry,
                forall|j: int| 0 <= j < i ==> !(#[trigger] self.params@[j]).seen,
                self.total == old(self).total,
                self.last_value_ms == old(self).last_value_ms,
            decreases self.params@.len() - i,
        {
            self.params[i].seen = false;
            i = i + 1;
        }
        proof {
            same_contents(s0, self.params@);
        }
        self.received_unique = 0;
        self.requested_ms = Some(now_ms);
        self.state = ParamDownloadState::Downloading;
        assert(seen_ids(self.params@) =~= Set::<Seq<char>>::empty());
    }

    /// A running download becomes stalled once more than three seconds have
    /// passed without a value, counted from the request where none came since.
    pub fn refresh_staleness(&mut self, now_ms: u64)
        requires
            old(self).wf(),
        ensures
            final(self).wf(),
            final(self)@ == staleness_refreshed(old(self)@, now_ms),
    {
        if self.state == ParamDownloadState::Downloading {
            let asked: u64 = match self.requested_ms {
                Some(t) => t,
                None => 0,
            };
            let heard: u64 = match self.last_value_ms {
                Some(t) => t,
                None => 0,
            };
            let since: u64 = if asked < heard {
                heard
            } else {
                asked
            };
            if now_ms.saturating_sub(since) > STALE_AFTER_MS {
                self.state = ParamDownloadState::Stalled;
            }
        }
    }

    /// A parameter's raw bits.
    pub fn get(&self, id: &str) -> (r: Option<u32>)
        requires
            self.wf(),
        ensures
            r == (if self@.params.contains_key(id@) {
                Some(self@.params[id@].value)
            } else {
                None
            }),
    {
        match self.find(id) {
            Some(i) => Some(self.params[i].entry.value),
            None => None,
        }
    }

    /// A parameter's value in its own type.
    pub fn typed(&self, id: &str) -> (r: Option<ParamVal>)
        requires
            self.wf(),
        ensures
            r == typed_of(self@, id@),
    {
        match self.find(id) {
            Some(i) => Some(self.params[i].entry.typed_value()),
            None => None,
        }
    }

    /// A parameter's value as an integer; a floating-point one is rounded
    /// toward zero.
    pub fn get_i32(&self, id: &str) -> (r: Option<i32>)
        requires
            self.wf(),
        ensures
            r == i32_of(self@, id@),
    {
        match self.typed(id) {
            Some(ParamVal::Int32(v)) => Some(v),
            Some(ParamVal::Real32(v)) => Some(f32_to_i32(v)),
            Some(ParamVal::Other(v)) => Some(f32_to_i32(v)),
            None => None,
        }
    }

    /// The wire type last seen for a parameter.
    pub fn type_of(&self, id: &str) -> (r: Option<u8>)
        requires
            self.wf(),
        ensures
            r == type_in(self@, id@),
    {
        match self.find(id) {
            Some(i) => Some(self.params[i].entry.param_type),
            None => None,
        }
    }
}

/// After a download request: running, and no id received for it yet.
pub open spec fn requested(s: StoreModel, now_ms: u64) -> StoreModel {
    StoreModel {
        seen: Set::empty(),
        received_unique: 0,
        requested_ms: Some(now_ms),
        state: ParamDownloadState::Downloading,
        ..s
    }
}

/// A moment, the start of the link where there was none.
pub open spec fn moment(t: Option<u64>) -> u64 {
    match t {
        Some(t) => t,
        None => 0,
    }
}

/// Since when a download waits for a value: the last value or the request,
/// whichever came later.
pub open spec fn silent_since(s: StoreModel) -> u64 {
    if moment(s.requested_ms) < moment(s.last_value_ms) {
        moment(s.last_value_ms)
    } else {
        moment(s.requested_ms)
    }
}

/// A running download that has waited too long is stalled.
pub open spec fn staleness_refreshed(s: StoreModel, now_ms: u64) -> StoreModel {
    if s.state is Downloading && now_ms - silent_since(s) > STALE_AFTER_MS {
        StoreModel { state: ParamDownloadState::Stalled, ..s }
    } else {
        s
    }
}

pub open spec fn typed_of(s: StoreModel, id: Seq<char>) -> Option<ParamVal> {
    if s.params.contains_key(id) {
        Some(typed_reading(s.params[id].value, s.params[id].param_type))
    } else {
        None
    }
}

pub open spec fn i32_of(s: StoreModel, id: Seq<char>) -> Option<i32> {
    match typed_of(s, id) {
        Some(ParamVal::Int32(v)) => Some(v),
        Some(ParamVal::Real32(v)) => Some(f32_as_i32(v)),
        Some(ParamVal::Other(v)) => Some(f32_as_i32(v)),
        None => None,
    }
}

pub open spec fn type_in(s: StoreModel, id: Seq<char>) -> Option<u8> {
    if s.params.contains_key(id) {
        Some(s.params[id].param_type)
    } else {
        None
    }
}

proof fn absent_at(s: Seq<NamedParam>, i: int, id: Seq<char>)
    requires
        ordered(s),
        0 <= i <= s.len(),
        forall|j: int| 0 <= j < i ==> precedes(#[trigger] s[j].id@, id),
        i < s.len() ==> !precedes(s[i].id@, id) && s[i].id@ != id,
    ensures
        !contents(s).contains_key(id),
        forall|j: int| i <= j < s.len() ==> precedes(id, #[trigger] s[j].id@),
{
    assert forall|j: int| i <= j < s.len() implies precedes(id, #[trigger] s[j].id@) by {
        precedes_total(s[i].id@, id);
        if i < j {
            precedes_transitive(id, s[i].id@, s[j].id@);
        }
    }
    assert forall|j: int| 0 <= j < s.len() implies #[trigger] s[j].id@ != id by {
        precedes_irreflexive(id);
    }
}

proof fn replaced_contents(s: Seq<NamedParam>, i: int, named: NamedParam)
    requires
        ordered(s),
        0 <= i < s.len(),
        named.id@ == s[i].id@,
    ensures
        ordered(s.update(i, named)),
        contents(s.update(i, named)) == contents(s).insert(named.id@, named.entry),
{
    let t = s.update(i, named);
    assert forall|a: int, b: int| 0 <= a < b < t.len() implies precedes(
        #[trigger] t[a].id@,
        #[trigger] t[b].id@,
    ) by {
        assert(t[a].id@ == s[a].id@ && t[b].id@ == s[b].id@);
    }
    assert forall|id: Seq<char>| has_id(t, id) == has_id(s, id) by {
        if has_id(s, id) {
            let k = index_of_id(s, id);
            assert(t[k].id@ == id);
        }
        if has_id(t, id) {
            let k = index_of_id(t, id);
            assert(s[k].id@ == id);
        }
    }
    contents_at(t, i);
    contents_at(s, i);
    assert forall|id: Seq<char>| contents(t).contains_key(id) && id != named.id@ implies contents(
        t,
    )[id] == contents(s)[id] by {
        let k = index_of_id(s, id);
        assert(has_id(s, id));
        contents_at(s, k);
        assert(t[k].id@ == id);
        contents_at(t, k);
    }
    assert(contents(t) =~= contents(s).insert(named.id@, named.entry));
}

proof fn inserted_contents(s: Seq<NamedParam>, i: int, named: NamedParam)
    requires
        ordered(s),
        0 <= i <= s.len(),
        !contents(s).contains_key(named.id@),
        forall|j: int| 0 <= j < i ==> precedes(#[trigger] s[j].id@, named.id@),
        forall|j: int| i <= j < s.len() ==> precedes(named.id@, #[trigger] s[j].id@),
    ensures
        ordered(s.insert(i, named)),
        contents(s.insert(i, named)) == contents(s).insert(named.id@, named.entry),
{
    let t = s.insert(i, named);
    let old_index = |k: int|
        if k < i {
            k
        } else {
            k - 1
        };
    assert forall|a: int, b: int| 0 <= a < b < t.len() implies precedes(
        #[trigger] t[a].id@,
        #[trigger] t[b].id@,
    ) by {
        if a != i {
            assert(t[a] == s[old_index(a)]);
        }
        if b != i {
            assert(t[b] == s[old_index(b)]);
        }
        if a == i {
            assert(precedes(named.id@, s[old_index(b)].id@));
        } else if b == i {
            assert(precedes(s[old_index(a)].id@, named.id@));
        } else {
            assert(precedes(s[old_index(a)].id@, s[old_index(b)].id@));
        }
    }
    contents_at(t, i);
    assert forall|id: Seq<char>| #[trigger] has_id(t, id) == (has_id(s, id) || id == named.id@) by {
        if has_id(s, id) {
            let k = index_of_id(s, id);
            let k2 = if k < i {
                k
            } else {
                k + 1
            };
            assert(t[k2].id@ == id);
        }
        if id == named.id@ {
            assert(t[i].id@ == id);
        }
        if has_id(t, id) && id != named.id@ {
            let k = index_of_id(t, id);
            assert(s[old_index(k)].id@ == id);
        }
    }
    assert forall|id: Seq<char>| has_id(t, id) && id != named.id@ implies contents(t)[id]
        == contents(s)[id] by {
        let k = index_of_id(s, id);
        assert(has_id(s, id));
        contents_at(s, k);
        let k2 = if k < i {
            k
        } else {
            k + 1
        };
        assert(t[k2] == s[k]);
        contents_at(t, k2);
    }
    assert(contents(t) =~= contents(s).insert(named.id@, named.entry));
}

proof fn same_contents(s: Seq<NamedParam>, t: Seq<NamedParam>)
    requires
        ordered(s),
        s.len() == t.len(),
        forall|j: int|
            0 <= j < s.len() ==> (#[trigger] t[j]).id == s[j].id && t[j].entry == s[j].entry,
    ensures
        ordered(t),
        contents(t) == contents(s),
{
    assert forall|a: int, b: int| 0 <= a < b < t.len() implies precedes(
        #[trigger] t[a].id@,
        #[trigger] t[b].id@,
    ) by {
        assert(t[a].id@ == s[a].id@ && t[b].id@ == s[b].id@);
    }
    assert forall|id: Seq<char>| #[trigger] has_id(t, id) == has_id(s, id) by {
        if has_id(s, id) {
            assert(t[index_of_id(s, id)].id@ == id);
        }
        if has_id(t, id) {
            assert(s[index_of_id(t, id)].id@ == id);
        }
    }
    assert forall|id: Seq<char>| has_id(t, id) implies contents(t)[id] == contents(s)[id] by {
        let k = index_of_id(s, id);
        assert(has_id(s, id));
        contents_at(s, k);
        assert(t[k].id@ == id);
        contents_at(t, k);
    }
    assert(contents(t) =~= contents(s));
}

proof fn seen_at(s: Seq<NamedParam>, i: int)
    requires
        ordered(s),
        0 <= i < s.len(),
    ensures
        seen_ids(s).contains(s[i].id@) == s[i].seen,
{
    let id = s[i].id@;
    if is_seen(s, id) {
        let k = choose|k: int| 0 <= k < s.len() && #[trigger] s[k].id@ == id && s[k].seen;
        ordered_ids_are_unique(s, i, k);
    }
}

proof fn replaced_seen(s: Seq<NamedParam>, i: int, named: NamedParam)
    requires
        ordered(s),
        0 <= i < s.len(),
        named.id@ == s[i].id@,
        named.seen,
    ensures
        seen_ids(s.update(i, named)) == seen_ids(s).insert(named.id@),
{
    let t = s.update(i, named);
    assert forall|id: Seq<char>| #[trigger] is_seen(t, id) == (is_seen(s, id) || id == named.id@) by {
        if is_seen(s, id) {
            let k = choose|k: int| 0 <= k < s.len() && #[trigger] s[k].id@ == id && s[k].seen;
            assert(t[k].id@ == id && t[k].seen);
        }
        if id == named.id@ {
            assert(t[i].id@ == id && t[i].seen);
        }
        if is_seen(t, id) && id != named.id@ {
            let k = choose|k: int| 0 <= k < t.len() && #[trigger] t[k].id@ == id && t[k].seen;
            assert(s[k].id@ == id && s[k].seen);
        }
    }
    assert(seen_ids(t) =~= seen_ids(s).insert(named.id@));
}

proof fn inserted_seen(s: Seq<NamedParam>, i: int, named: NamedParam)
    requires
        0 <= i <= s.len(),
        !contents(s).contains_key(named.id@),
        named.seen,
    ensures
        !seen_ids(s).contains(named.id@),
        seen_ids(s.insert(i, named)) == seen_ids(s).insert(named.id@),
{
    let t = s.insert(i, named);
    if is_seen(s, named.id@) {
        assert(has_id(s, named.id@));
    }
    assert forall|id: Seq<char>| #[trigger] is_seen(t, id) == (is_seen(s, id) || id == named.id@) by {
        if is_seen(s, id) {
            let k = choose|k: int| 0 <= k < s.len() && #[trigger] s[k].id@ == id && s[k].seen;
            let k2 = if k < i {
                k
            } else {
                k + 1
            };
            assert(t[k2].id@ == id && t[k2].seen);
        }
        if id == named.id@ {
            assert(t[i].id@ == id && t[i].seen);
        }
        if is_seen(t, id) && id != named.id@ {
            let k = choose|k: int| 0 <= k < t.len() && #[trigger] t[k].id@ == id && t[k].seen;
            let k2 = if k < i {
                k
            } else {
                k - 1
            };
            assert(s[k2].id@ == id && s[k2].seen);
        }
    }
    assert(seen_ids(t) =~= seen_ids(s).insert(named.id@));
}

// Laws.

/// A store in order holds as many ids as it counts, and what it counts for the
/// last request are ids it holds.
pub proof fn count_is_number_of_ids(s: ParamStore)
    requires
        s.wf(),
    ensures
        s@.params.dom().finite(),
        s@.count == s@.params.dom().len(),
        s@.seen.subset_of(s@.params.dom()),
        s@.received_unique == u16_capped(s@.seen.len()),
{
    count_of_contents(s.params@);
    assert forall|id: Seq<char>| s@.seen.contains(id) implies s@.params.dom().contains(id) by {
        assert(is_seen(s.params@, id));
        assert(has_id(s.params@, id));
    }
}

proof fn count_of_contents(s: Seq<NamedParam>)
    requires
        ordered(s),
    ensures
        contents(s).dom().finite(),
        contents(s).dom().len() == s.len(),
    decreases s.len(),
{
    if s.len() == 0 {
        assert(contents(s).dom() =~= Set::<Seq<char>>::empty());
    } else {
        let t = s.drop_last();
        assert forall|a: int, b: int| 0 <= a < b < t.len() implies precedes(
            #[trigger] t[a].id@,
            #[trigger] t[b].id@,
        ) by {
            assert(t[a].id@ == s[a].id@ && t[b].id@ == s[b].id@);
        }
        count_of_contents(t);
        let last = s.last().id@;
        assert forall|id: Seq<char>| #[trigger] has_id(s, id) == (has_id(t, id) || id == last) by {
            if has_id(t, id) {
                assert(s[index_of_id(t, id)].id@ == id);
            }
            if id == last {
                assert(s[s.len() - 1].id@ == id);
            }
            if has_id(s, id) && id != last {
                assert(t[index_of_id(s, id)].id@ == id);
            }
        }
        assert(!has_id(t, last)) by {
            if has_id(t, last) {
                ordered_ids_are_unique(s, index_of_id(t, last), s.len() - 1);
            }
        }
        assert(contents(s).dom() =~= contents(t).dom().insert(last));
    }
}

/// Reporting a parameter again changes no count: an echo of a write is never
/// counted as progress of the download.
pub proof fn repeated_value_is_not_counted_twice(
    s: StoreModel,
    id: Seq<char>,
    value: u32,
    param_type: u8,
    param_count: u16,
    param_index: u16,
    now_ms: u64,
)
    requires
        s.params.contains_key(id),
        s.seen.contains(id),
    ensures
        ingested(s, id, value, param_type, param_count, param_index, now_ms).count == s.count,
        ingested(s, id, value, param_type, param_count, param_index, now_ms).received_unique
            == s.received_unique,
{
}

/// What was reported is what is read back, and no other parameter changes.
pub proof fn reported_value_is_read_back(
    s: StoreModel,
    id: Seq<char>,
    value: u32,
    param_type: u8,
    param_count: u16,
    param_index: u16,
    now_ms: u64,
    other: Seq<char>,
)
    requires
        id.len() > 0,
        other != id,
    ensures
        typed_of(ingested(s, id, value, param_type, param_count, param_index, now_ms), id) == Some(
            typed_reading(value, param_type),
        ),
        typed_of(ingested(s, id, value, param_type, param_count, param_index, now_ms), other)
            == typed_of(s, other),
{
}

/// A typed value that goes out with its own wire type and comes back in an
/// echo reads as the same value.
pub proof fn written_value_reads_the_same(v: ParamVal)
    requires
        !(v is Other),
    ensures
        typed_reading(v.wire(), v.wire_tag()) == v,
{
    if let ParamVal::Int32(i) = v {
        assert((i as u32) as i32 == i) by (bit_vector);
    }
}

/// A fresh request always leaves a stalled or completed download running and
/// starts its count anew: the first value for it counts one, whatever was
/// cached before.
pub proof fn request_restarts_download(
    s: StoreModel,
    now_ms: u64,
    id: Seq<char>,
    value: u32,
    param_type: u8,
    param_count: u16,
    param_index: u16,
    later_ms: u64,
)
    requires
        id.len() > 0,
    ensures
        requested(s, now_ms).state is Downloading,
        requested(s, now_ms).params == s.params,
        requested(s, now_ms).received_unique == 0,
        ingested(
            requested(s, now_ms),
            id,
            value,
            param_type,
            param_count,
            param_index,
            later_ms,
        ).received_unique == 1,
{
}

/// A download is stalled only after more than three seconds in which it was
/// neither requested nor given a value, and then it is.
pub proof fn stalling_takes_three_seconds(s: StoreModel, now_ms: u64)
    requires
        s.state is Downloading,
    ensures
        staleness_refreshed(s, now_ms).state is Stalled <==> now_ms - moment(s.requested_ms) > 3000
            && now_ms - moment(s.last_value_ms) > 3000,
{
}

/// A download that becomes complete has received at least as many ids since its
/// request as the vehicle says it has.
pub proof fn completion_covers_the_total(
    s: StoreModel,
    id: Seq<char>,
    value: u32,
    param_type: u8,
    param_count: u16,
    param_index: u16,
    now_ms: u64,
)
    requires
        !(s.state is Complete),
        ingested(s, id, value, param_type, param_count, param_index, now_ms).state is Complete,
    ensures
        ingested(s, id, value, param_type, param_count, param_index, now_ms).received_unique
            >= ingested(
            s,
            id,
            value,
            param_type,
            param_count,
            param_index,
            now_ms,
        ).total > 0,
{
}

/// A download counts each id once, up to the largest count there is, and is
/// complete as soon as it has counted as many as the vehicle has; a report
/// without a name counts nothing. Before it is requested, or once it is
/// complete, reports change nothing about it.
pub proof fn download_counts_each_id_once(
    s: StoreModel,
    id: Seq<char>,
    value: u32,
    param_type: u8,
    param_count: u16,
    param_index: u16,
    now_ms: u64,
)
    ensures
        ({
            let t = ingested(s, id, value, param_type, param_count, param_index, now_ms);
            let fresh = id.len() > 0 && !s.seen.contains(id);
            &&& fresh && s.received_unique < 0xffff ==> t.received_unique == s.received_unique + 1
            &&& !fresh || s.received_unique == 0xffff ==> t.received_unique == s.received_unique
            &&& t.seen == (if id.len() > 0 {
                s.seen.insert(id)
            } else {
                s.seen
            })
            &&& id.len() > 0 && !s.params.contains_key(id) ==> t.count == s.count + 1
            &&& id.len() == 0 || s.params.contains_key(id) ==> t.count == s.count
            &&& (s.state is Downloading || s.state is Stalled) && t.total > 0 && t.received_unique
                >= t.total ==> t.state is Complete
            &&& (s.state is Downloading || s.state is Stalled) && (t.total == 0 || t.received_unique
                < t.total) ==> t.state == s.state
            &&& s.state is Idle || s.state is Complete ==> t.state == s.state
            &&& t.requested_ms == s.requested_ms
        }),
{
}

/// A value goes out under type six as the bits of a signed integer, else under
/// type nine as it is.
pub proof fn values_go_out_by_type(v: ParamVal)
    ensures
        match v {
            ParamVal::Int32(i) => v.wire_tag() == 6 && v.wire() == (if i < 0 {
                i + 0x1_0000_0000
            } else {
                i as int
            }),
            ParamVal::Real32(b) => v.wire_tag() == 9 && v.wire() == b,
            ParamVal::Other(b) => v.wire_tag() == 9 && v.wire() == b,
        },
{
    if let ParamVal::Int32(i) = v {
        assert(i < 0i32 ==> (i as u32) as i64 == (i as i64) + 0x1_0000_0000i64) by (bit_vector);
    }
}

/// A request notes its time and forgets which ids were counted; what is cached
/// stays.
pub proof fn request_is_noted(s: StoreModel, now_ms: u64)
    ensures
        ({
            let r = requested(s, now_ms);
            &&& r.requested_ms == Some(now_ms)
            &&& r.seen == Set::<Seq<char>>::empty()
            &&& r.received_unique == 0
            &&& r.state is Downloading
            &&& r.params == s.params
            &&& r.count == s.count
            &&& r.total == s.total
            &&& r.last_value_ms == s.last_value_ms
        }),
{
}

/// A cached parameter is read as a signed integer where it is one, and else as
/// the whole part of its number; its type is the one it was reported with. One
/// that is not cached is not read.
pub proof fn cached_parameter_is_read(s: StoreModel, id: Seq<char>)
    ensures
        !s.params.contains_key(id) ==> i32_of(s, id) is None && typed_of(s, id) is None && type_in(
            s,
            id,
        ) is None,
        s.params.contains_key(id) ==> {
            let e = s.params[id];
            &&& type_in(s, id) == Some(e.param_type)
            &&& e.param_type == 6 ==> i32_of(s, id) == Some(e.value as i32)
            &&& e.param_type != 6 ==> i32_of(s, id) == Some(f32_as_i32(e.value))
        },
{
}

} // verus!
