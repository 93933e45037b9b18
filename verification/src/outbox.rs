//! The reports of a worker that could not be stored or sent yet. A report
//! that fails is kept here and tried again at the next tick, never dropped.
//! Of each mirror only the newest report is kept.

use vstd::prelude::*;

use crate::database::spec_accept;
use crate::msg::{MirrorStatus, MirrorStatusView};
use crate::text::str_eq;

verus! {

/// Whether two records are about the same mirror of the same worker.
pub open spec fn same_mirror(a: MirrorStatusView, b: MirrorStatusView) -> bool {
    a.worker == b.worker && a.name == b.name
}

/// The place of the pending report about the mirror of `record`.
pub open spec fn spec_pending_at(
    pending: Seq<MirrorStatusView>,
    record: MirrorStatusView,
) -> Option<int>
    decreases pending.len(),
{
    if pending.len() == 0 {
        None
    } else {
        match spec_pending_at(pending.drop_last(), record) {
            Some(i) => Some(i),
            None => if same_mirror(pending.last(), record) {
                Some(pending.len() - 1)
            } else {
                None
            },
        }
    }
}

/// The pending reports once `record` has been put off: it takes the place
/// of an older report about the same mirror, is dropped where a newer one
/// is pending, and is added at the end where none is.
pub open spec fn spec_defer(pending: Seq<MirrorStatusView>, record: MirrorStatusView) -> Seq<
    MirrorStatusView,
> {
    match spec_pending_at(pending, record) {
        Some(i) => pending.update(i, spec_accept(Some(pending[i]), record)),
        None => pending.push(record),
    }
}

/// No two of the reports are about the same mirror.
pub open spec fn one_per_mirror(pending: Seq<MirrorStatusView>) -> bool {
    forall|i: int, j: int|
        0 <= i < j < pending.len() ==> !same_mirror(#[trigger] pending[i], #[trigger] pending[j])
}

/// What is found is the first pending report about the mirror.
pub proof fn lemma_pending_at(pending: Seq<MirrorStatusView>, record: MirrorStatusView)
    ensures
        match spec_pending_at(pending, record) {
            Some(i) => 0 <= i < pending.len() && same_mirror(pending[i], record) && forall|j: int|
                0 <= j < i ==> !same_mirror(#[trigger] pending[j], record),
            None => forall|j: int|
                0 <= j < pending.len() ==> !same_mirror(#[trigger] pending[j], record),
        },
    decreases pending.len(),
{
    if pending.len() > 0 {
        let front = pending.drop_last();
        lemma_pending_at(front, record);
        assert forall|j: int| 0 <= j < front.len() implies #[trigger] pending[j] == front[j] by {}
    }
}

/// Putting a report off keeps one report for each mirror, and afterwards
/// the report that is pending for the mirror is the newer of the report
/// and what was pending before.
pub proof fn lemma_defer(pending: Seq<MirrorStatusView>, record: MirrorStatusView)
    requires
        one_per_mirror(pending),
    ensures
        one_per_mirror(spec_defer(pending, record)),
        spec_pending_at(spec_defer(pending, record), record) matches Some(i) && spec_defer(
            pending,
            record,
        )[i] == spec_accept(
            match spec_pending_at(pending, record) {
                Some(k) => Some(pending[k]),
                None => None,
            },
            record,
        ),
{
    lemma_pending_at(pending, record);
    let after = spec_defer(pending, record);
    lemma_pending_at(after, record);
    match spec_pending_at(pending, record) {
        Some(k) => {
            assert(same_mirror(after[k], record));
        },
        None => {
            assert(same_mirror(after[pending.len() as int], record));
        },
    }
}

/// The views of a list of records.
pub open spec fn record_views(list: Seq<MirrorStatus>) -> Seq<MirrorStatusView> {
    Seq::new(list.len(), |i: int| list[i]@)
}

pub struct Outbox {
    pending: Vec<MirrorStatus>,
}

impl View for Outbox {
    type V = Seq<MirrorStatusView>;

    closed spec fn view(&self) -> Seq<MirrorStatusView> {
        record_views(self.pending@)
    }
}

impl Outbox {
    #[verifier::type_invariant]
    spec fn well_formed(self) -> bool {
        one_per_mirror(self@)
    }

    /// An outbox with nothing pending.
    pub fn new() -> (outbox: Outbox)
        ensures
            outbox@ == Seq::<MirrorStatusView>::empty(),
            one_per_mirror(outbox@),
    {
        let outbox = Outbox { pending: Vec::new() };
        assert(outbox@ =~= Seq::<MirrorStatusView>::empty());
        outbox
    }

    /// How many reports are pending.
    pub fn len(&self) -> (n: usize)
        ensures
            n == self@.len(),
    {
        self.pending.len()
    }

    fn pending_at(&self, record: &MirrorStatus) -> (found: Option<usize>)
        ensures
            match found {
                Some(i) => spec_pending_at(self@, record@) == Some(i as int) && i < self@.len(),
                None => spec_pending_at(self@, record@) is None,
            },
    {
        let ghost views = self@;
        let mut i: usize = 0;
        while i < self.pending.len()
            invariant
                i <= self.pending.len(),
                views == record_views(self.pending@),
                spec_pending_at(views.subrange(0, i as int), record@) is None,
            decreases self.pending.len() - i,
        {
            proof {
                let next = views.subrange(0, i + 1);
                assert(next.drop_last() =~= views.subrange(0, i as int));
                assert(next.last() == self.pending[i as int]@);
            }
            if str_eq(self.pending[i].worker.as_str(), record.worker.as_str()) && str_eq(
                self.pending[i].name.as_str(),
                record.name.as_str(),
            ) {
                proof {
                    lemma_pending_prefix(views, i + 1, record@);
                }
                return Some(i);
            }
            i += 1;
        }
        assert(views.subrange(0, i as int) =~= views);
        None
    }

    /// Puts a report off until the next tick. Of each mirror the outbox
    /// keeps one report, the newest.
    pub fn defer(&mut self, record: MirrorStatus)
        ensures
            one_per_mirror(old(self)@),
            final(self)@ == spec_defer(old(self)@, record@),
            one_per_mirror(final(self)@),
    {
        proof {
            use_type_invariant(&*self);
            lemma_defer(self@, record@);
        }
        let ghost before = self@;
        let found = self.pending_at(&record);
        let mut pending: Vec<MirrorStatus> = Vec::new();
        core::mem::swap(&mut self.pending, &mut pending);
        match found {
            Some(i) => {
                if !record.last_update.is_before(pending[i].last_update) {
                    pending[i] = record;
                }
            },
            None => {
                pending.push(record);
            },
        }
        assert(record_views(pending@) =~= spec_defer(before, record@));
        core::mem::swap(&mut self.pending, &mut pending);
    }

    /// Takes every pending report out, in the order in which their mirrors
    /// were first put off.
    pub fn take(&mut self) -> (reports: Vec<MirrorStatus>)
        ensures
            record_views(reports@) == old(self)@,
            one_per_mirror(old(self)@),
            final(self)@ == Seq::<MirrorStatusView>::empty(),
    {
        proof {
            use_type_invariant(&*self);
        }
        let mut reports: Vec<MirrorStatus> = Vec::new();
        assert(record_views(reports@) =~= Seq::<MirrorStatusView>::empty());
        core::mem::swap(&mut self.pending, &mut reports);
        reports
    }
}

/// What is found among the first reports is found among all of them.
proof fn lemma_pending_prefix(pending: Seq<MirrorStatusView>, len: int, record: MirrorStatusView)
    requires
        0 <= len <= pending.len(),
        spec_pending_at(pending.subrange(0, len), record) is Some,
    ensures
        spec_pending_at(pending, record) == spec_pending_at(pending.subrange(0, len), record),
    decreases pending.len() - len,
{
    if len < pending.len() {
        let longer = pending.subrange(0, len + 1);
        assert(longer.drop_last() =~= pending.subrange(0, len));
        lemma_pending_prefix(pending, len + 1, record);
    } else {
        assert(pending.subrange(0, len) =~= pending);
    }
}

} // verus!
