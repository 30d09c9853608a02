use vstd::prelude::*;
use crate::breakend::Breakend;
use crate::keyed::ByteKeyMap;

verus! {

/// Whether record `i` belongs to event `e`.
pub open spec fn has_event(events: Seq<Option<Vec<u8>>>, i: int, e: Seq<u8>) -> bool {
    events[i] matches Some(x) && x@ == e
}

/// For each breakend event, the index of its last record, so that the group
/// can be built when that record is reached.
pub struct BreakendIndex {
    last_records: ByteKeyMap<usize>,
}

impl BreakendIndex {
    pub closed spec fn view(&self) -> Map<Seq<u8>, usize> {
        self.last_records@
    }

    pub closed spec fn wf(&self) -> bool {
        self.last_records.wf()
    }

    /// Index the events of the records in file order (`None` for records
    /// that are not breakends).
    pub fn new(events: &Vec<Option<Vec<u8>>>) -> (r: BreakendIndex)
        ensures
            r.wf(),
            forall|e: Seq<u8>| r@.contains_key(e) <==> exists|i: int| 0 <= i < events@.len() && #[trigger] has_event(events@, i, e),
            forall|e: Seq<u8>| #[trigger] r@.contains_key(e) ==> {
                &&& r@[e] < events@.len()
                &&& has_event(events@, r@[e] as int, e)
                &&& forall|j: int| r@[e] < j < events@.len() ==> !#[trigger] has_event(events@, j, e)
            },
    {
        let mut last_records: ByteKeyMap<usize> = ByteKeyMap::new();
        let mut i: usize = 0;
        while i < events.len()
            invariant
                0 <= i <= events@.len(),
                last_records.wf(),
                forall|e: Seq<u8>| last_records@.contains_key(e) <==> exists|k: int| 0 <= k < i && #[trigger] has_event(events@, k, e),
                forall|e: Seq<u8>| #[trigger] last_records@.contains_key(e) ==> {
                    &&& last_records@[e] < i
                    &&& has_event(events@, last_records@[e] as int, e)
                    &&& forall|j: int| last_records@[e] < j < i ==> !#[trigger] has_event(events@, j, e)
                },
            decreases events@.len() - i,
        {
            match &events[i] {
                Some(event) => {
                    let key = crate::text::copy_range(event.as_slice(), 0, event.len());
                    assert(key@ =~= event@);
                    last_records.insert(key, i);
                    assert(has_event(events@, i as int, event@));
                },
                None => {},
            }
            i = i + 1;
        }
        BreakendIndex { last_records }
    }

    /// Index of the last record of `event`.
    pub fn last_record_index(&self, event: &[u8]) -> (r: Option<usize>)
        requires
            self.wf(),
        ensures
            self@.contains_key(event@) ==> r == Some(self@[event@]),
            !self@.contains_key(event@) ==> r is None,
    {
        match self.last_records.get(event) {
            Some(i) => Some(*i),
            None => None,
        }
    }
}

/// The state of one breakend event while its records come in.
pub enum BreakendGroupState {
    /// The breakends read so far.
    Building(Vec<Breakend>),
    /// A breakend of the event is not supported; the whole event is skipped.
    Rejected,
}

/// What becomes of a breakend record.
pub enum BreakendStep {
    /// More records of the event are to come.
    Pending,
    /// The event is skipped.
    Rejected,
    /// The last record was reached: the complete group, in record order.
    Complete(Vec<Breakend>),
}

/// The breakends of the events whose records are not all read yet. Groups
/// leave the arena as soon as they are complete.
pub struct BreakendArena {
    groups: ByteKeyMap<BreakendGroupState>,
}

/// The breakends collected so far for an event.
pub open spec fn collected(groups: Map<Seq<u8>, BreakendGroupState>, e: Seq<u8>) -> Seq<Breakend> {
    if groups.contains_key(e) && groups[e] is Building {
        groups[e]->Building_0@
    } else {
        seq![]
    }
}

impl BreakendArena {
    pub closed spec fn view(&self) -> Map<Seq<u8>, BreakendGroupState> {
        self.groups@
    }

    pub closed spec fn wf(&self) -> bool {
        self.groups.wf()
    }

    pub fn new() -> (r: BreakendArena)
        ensures
            r.wf(),
            r@ == Map::<Seq<u8>, BreakendGroupState>::empty(),
    {
        BreakendArena { groups: ByteKeyMap::new() }
    }

    /// Take in the record of `event` that gave `breakend` (`None` when the
    /// breakend is not supported). A rejected event stays rejected; an
    /// unsupported breakend rejects its event; the last record of the event
    /// completes its group, which then leaves the arena.
    pub fn push(&mut self, event: &[u8], breakend: Option<Breakend>, is_last_record: bool) -> (r: BreakendStep)
        requires
            old(self).wf(),
        ensures
            final(self).wf(),
            old(self)@.contains_key(event@) && old(self)@[event@] is Rejected ==> {
                &&& r is Rejected
                &&& final(self)@ == old(self)@
            },
            !(old(self)@.contains_key(event@) && old(self)@[event@] is Rejected) ==> match breakend {
                None => {
                    &&& r is Rejected
                    &&& final(self)@ == old(self)@.insert(event@, BreakendGroupState::Rejected)
                },
                Some(b) => if is_last_record {
                    &&& r matches BreakendStep::Complete(g) && g@ == collected(old(self)@, event@).push(b)
                    &&& final(self)@ == old(self)@.remove(event@)
                } else {
                    &&& r is Pending
                    &&& final(self)@.dom() == old(self)@.dom().insert(event@)
                    &&& final(self)@[event@] matches BreakendGroupState::Building(g)
                        && g@ == collected(old(self)@, event@).push(b)
                    &&& forall|k: Seq<u8>| k != event@ && #[trigger] old(self)@.contains_key(k)
                        ==> final(self)@[k] == old(self)@[k]
                },
            },
    {
        let state = self.groups.take(event);
        let key = crate::text::copy_range(event, 0, event.len());
        assert(key@ =~= event@);
        let mut group = match state {
            Some(BreakendGroupState::Rejected) => {
                self.groups.insert(key, BreakendGroupState::Rejected);
                assert(self.groups@ =~= old(self).groups@);
                return BreakendStep::Rejected;
            },
            Some(BreakendGroupState::Building(g)) => g,
            None => Vec::new(),
        };
        match breakend {
            None => {
                self.groups.insert(key, BreakendGroupState::Rejected);
                assert(self.groups@ =~= old(self).groups@.insert(event@, BreakendGroupState::Rejected));
                BreakendStep::Rejected
            },
            Some(b) => {
                group.push(b);
                if is_last_record {
                    BreakendStep::Complete(group)
                } else {
                    self.groups.insert(key, BreakendGroupState::Building(group));
                    assert(self.groups@.dom() =~= old(self).groups@.dom().insert(event@));
                    BreakendStep::Pending
                }
            },
        }
    }
}

/// The calls of a complete breakend group: one per breakend, in group order.
/// Only the first carries the observations, so that they are stored once.
pub fn breakend_calls<B, P>(breakends: Vec<B>, pileup: P) -> (r: Vec<(B, Option<P>)>)
    ensures
        r@.len() == breakends@.len(),
        forall|i: int| 0 <= i < r@.len() ==> (#[trigger] r@[i]).0 == breakends@[i],
        r@.len() > 0 ==> r@[0].1 == Some(pileup),
        forall|i: int| 1 <= i < r@.len() ==> (#[trigger] r@[i]).1 is None,
{
    let ghost orig = breakends@;
    let n = breakends.len();
    let mut rest = breakends;
    let mut pileup = Some(pileup);
    let ghost p = pileup;
    let mut r: Vec<(B, Option<P>)> = Vec::new();
    let mut i: usize = 0;
    while i < n
        invariant
            n == orig.len(),
            0 <= i <= n,
            rest@ == orig.subrange(i as int, n as int),
            r@.len() == i,
            forall|k: int| 0 <= k < i ==> (#[trigger] r@[k]).0 == orig[k],
            i > 0 ==> r@[0].1 == p,
            forall|k: int| 1 <= k < i ==> (#[trigger] r@[k]).1 is None,
            i == 0 ==> pileup == p,
            i > 0 ==> pileup is None,
        decreases n - i,
    {
        let b = rest.remove(0);
        let obs = pileup.take();
        r.push((b, obs));
        i = i + 1;
    }
    r
}

} // verus!
