use vstd::prelude::*;
use crate::identifier::PraziCrate;
use crate::layout::{url_of, staging_of, unpacked_of, workspace_of};

verus! {

broadcast use vstd::set_lib::group_set_properties;

/// Where one item of the fetch stage stands.
#[derive(Debug, Clone, Copy, PartialEq, Eq, Structural)]
pub enum ItemState {
    /// Not started yet.
    Pending,
    /// Its download is outstanding.
    InFlight,
    /// Finished: successfully or not.
    Done(bool),
}

/// What the driver of the fetch stage should do next.
#[derive(Debug, Clone, Copy, PartialEq, Eq, Structural)]
pub enum FetchAction {
    /// Start downloading the item at this index.
    Start(usize),
    /// Wait for an outstanding download to complete.
    Wait,
    /// Every item has reached a terminal state.
    Finished,
}

/// The invariant of the fetch scheduler, over its parts: items before `next`
/// were started, those from `next` on were not, `ids` is the set of items in
/// flight, of size `in_flight`, never over `limit`.
pub open spec fn sched_inv(
    states: Seq<ItemState>,
    limit: nat,
    next: nat,
    in_flight: nat,
    ids: Set<int>,
) -> bool {
    &&& limit > 0
    &&& in_flight <= limit
    &&& next <= states.len()
    &&& forall|i: int| 0 <= i < next ==> states[i] != ItemState::Pending
    &&& forall|i: int| next <= i < states.len() ==> states[i] == ItemState::Pending
    &&& forall|i: int| #[trigger] ids.contains(i) <==> (0 <= i < states.len() && states[i] == ItemState::InFlight)
    &&& ids.finite()
    &&& ids.len() == in_flight
}

/// A measure of the work left in a run: every start and every completion
/// lowers it, so a driver that starts when told and otherwise completes an
/// outstanding download reaches the end.
pub open spec fn work_left(total: nat, next: nat, in_flight: nat) -> int {
    2 * (total - next) + in_flight
}

/// The items whose downloads are outstanding.
pub open spec fn in_flight_ids(states: Seq<ItemState>) -> Set<int> {
    Set::new(|i: int| 0 <= i < states.len() && states[i] == ItemState::InFlight)
}

/// Whether every item has reached a terminal state.
pub open spec fn all_done(states: Seq<ItemState>) -> bool {
    forall|i: int| 0 <= i < states.len() ==> (#[trigger] states[i]) is Done
}

/// Bounded fetch scheduling: at most `limit` downloads are outstanding at
/// once, items are started in catalog order, and each item's outcome is
/// recorded independently of every other.
pub struct FetchScheduler {
    states: Vec<ItemState>,
    limit: usize,
    next: usize,
    in_flight: usize,
    ids: Ghost<Set<int>>,
}

/// The number of downloads outstanding never exceeds the ceiling.
pub proof fn lemma_fetch_bound(states: Seq<ItemState>, limit: nat, next: nat, in_flight: nat, ids: Set<int>)
    requires
        sched_inv(states, limit, next, in_flight, ids),
    ensures
        in_flight_ids(states).finite(),
        in_flight_ids(states).len() <= limit,
{
    assert(in_flight_ids(states) =~= ids);
}

/// A failed download changes nothing but its own item: every other item keeps
/// its state, the scheduler stays consistent, and one fewer download is
/// outstanding, so the remaining items can still be started and finished.
pub proof fn lemma_failure_isolated(
    states: Seq<ItemState>,
    limit: nat,
    next: nat,
    in_flight: nat,
    ids: Set<int>,
    i: int,
)
    requires
        sched_inv(states, limit, next, in_flight, ids),
        0 <= i < states.len(),
        states[i] == ItemState::InFlight,
    ensures
        sched_inv(states.update(i, ItemState::Done(false)), limit, next, (in_flight - 1) as nat, ids.remove(i)),
        forall|j: int| 0 <= j < states.len() && j != i ==> states.update(i, ItemState::Done(false))[j] == states[j],
{
    lemma_complete(states, limit, next, in_flight, ids, i, false);
}

proof fn lemma_complete(
    states: Seq<ItemState>,
    limit: nat,
    next: nat,
    in_flight: nat,
    ids: Set<int>,
    i: int,
    ok: bool,
)
    requires
        sched_inv(states, limit, next, in_flight, ids),
        0 <= i < states.len(),
        states[i] == ItemState::InFlight,
    ensures
        in_flight >= 1,
        sched_inv(states.update(i, ItemState::Done(ok)), limit, next, (in_flight - 1) as nat, ids.remove(i)),
{
    assert(ids.contains(i));
    let s2 = states.update(i, ItemState::Done(ok));
    assert forall|j: int| #[trigger] ids.remove(i).contains(j) <==> (0 <= j < s2.len() && s2[j] == ItemState::InFlight) by {
        if j == i {
        } else {
        }
    }
}

/// In every state a scheduler can reach, the items in flight are no more
/// than its ceiling.
pub proof fn lemma_scheduler_bound(s: &FetchScheduler)
    requires
        s.wf(),
    ensures
        in_flight_ids(s.states()).finite(),
        in_flight_ids(s.states()).len() == s.outstanding(),
        in_flight_ids(s.states()).len() <= s.limit(),
{
    s.lemma_bound();
}

impl FetchScheduler {
    proof fn lemma_bound(&self)
        requires
            self.wf(),
        ensures
            in_flight_ids(self.states()).finite(),
            in_flight_ids(self.states()).len() == self.outstanding(),
            in_flight_ids(self.states()).len() <= self.limit(),
    {
        assert(in_flight_ids(self.states@) =~= self.ids@);
    }

    pub closed spec fn states(&self) -> Seq<ItemState> {
        self.states@
    }

    pub closed spec fn limit(&self) -> nat {
        self.limit as nat
    }

    pub closed spec fn next_index(&self) -> nat {
        self.next as nat
    }

    pub closed spec fn outstanding(&self) -> nat {
        self.in_flight as nat
    }

    pub closed spec fn wf(&self) -> bool {
        sched_inv(self.states@, self.limit as nat, self.next as nat, self.in_flight as nat, self.ids@)
    }

    /// A scheduler for `total` items with at most `limit` in flight.
    pub fn new(total: usize, limit: usize) -> (r: FetchScheduler)
        requires
            limit > 0,
        ensures
            r.wf(),
            r.states() == Seq::new(total as nat, |i: int| ItemState::Pending),
            r.limit() == limit,
            r.next_index() == 0,
            r.outstanding() == 0,
    {
        let mut states: Vec<ItemState> = Vec::new();
        let mut k: usize = 0;
        while k < total
            invariant
                k <= total,
                states@ == Seq::new(k as nat, |i: int| ItemState::Pending),
            decreases total - k,
        {
            states.push(ItemState::Pending);
            k = k + 1;
            assert(states@ =~= Seq::new(k as nat, |i: int| ItemState::Pending));
        }
        let r = FetchScheduler { states, limit, next: 0, in_flight: 0, ids: Ghost(Set::empty()) };
        proof {
            assert forall|i: int| #[trigger] r.ids@.contains(i) <==> (0 <= i < r.states@.len() && r.states@[i] == ItemState::InFlight) by {}
        }
        r
    }

    /// How many downloads are outstanding: the number of items in flight.
    pub fn in_flight(&self) -> (r: usize)
        requires
            self.wf(),
        ensures
            r == self.outstanding(),
            r == in_flight_ids(self.states()).len(),
            r <= self.limit(),
    {
        proof {
            assert(in_flight_ids(self.states@) =~= self.ids@);
        }
        self.in_flight
    }

    /// The number of items.
    pub fn len(&self) -> (r: usize)
        ensures
            r == self.states().len(),
    {
        self.states.len()
    }

    /// The state of item `i`.
    pub fn state(&self, i: usize) -> (r: ItemState)
        requires
            i < self.states().len(),
        ensures
            r == self.states()[i as int],
    {
        self.states[i]
    }

    /// Decides the next step. An item is started while fewer than `limit`
    /// downloads are outstanding and some item was not started yet; the run is
    /// finished once every item has completed; otherwise the driver waits for
    /// an outstanding download.
    pub fn next_action(&mut self) -> (r: FetchAction)
        requires
            old(self).wf(),
        ensures
            final(self).wf(),
            final(self).limit() == old(self).limit(),
            (r is Start) <==> (old(self).outstanding() < old(self).limit()
                && old(self).next_index() < old(self).states().len()),
            r matches FetchAction::Start(i) ==> {
                &&& i == old(self).next_index()
                &&& old(self).states()[i as int] == ItemState::Pending
                &&& final(self).states() == old(self).states().update(i as int, ItemState::InFlight)
                &&& final(self).next_index() == i + 1
                &&& final(self).outstanding() == old(self).outstanding() + 1
                &&& work_left(final(self).states().len(), final(self).next_index(), final(self).outstanding())
                    < work_left(old(self).states().len(), old(self).next_index(), old(self).outstanding())
            },
            !(r is Start) ==> *final(self) == *old(self),
            (r is Finished) <==> all_done(old(self).states()),
            r is Wait ==> exists|i: int|
                0 <= i < old(self).states().len() && old(self).states()[i] == ItemState::InFlight,
    {
        proof {
            lemma_fetch_bound(self.states@, self.limit as nat, self.next as nat, self.in_flight as nat, self.ids@);
        }
        if self.in_flight < self.limit && self.next < self.states.len() {
            let i = self.next;
            let ghost old_ids = self.ids@;
            self.states.set(i, ItemState::InFlight);
            self.next = i + 1;
            self.in_flight = self.in_flight + 1;
            self.ids = Ghost(old_ids.insert(i as int));
            proof {
                assert(!old_ids.contains(i as int));
                assert forall|j: int| #[trigger] self.ids@.contains(j) <==> (0 <= j < self.states@.len() && self.states@[j] == ItemState::InFlight) by {}
            }
            FetchAction::Start(i)
        } else if self.next == self.states.len() && self.in_flight == 0 {
            proof {
                assert forall|j: int| 0 <= j < self.states@.len() implies (#[trigger] self.states@[j]) is Done by {
                    if self.states@[j] == ItemState::InFlight {
                        assert(self.ids@.contains(j));
                    }
                }
            }
            FetchAction::Finished
        } else {
            proof {
                if self.next < self.states.len() {
                    assert(self.states@[self.next as int] == ItemState::Pending);
                    assert(self.in_flight > 0);
                }
                assert(self.in_flight > 0);
                assert(self.ids@.len() > 0);
                let w = self.ids@.choose();
                assert(self.ids@.contains(w));
                if all_done(self.states@) {
                    assert(self.states@[w] is Done);
                }
            }
            FetchAction::Wait
        }
    }

    /// Records the outcome of item `i`'s download. Nothing else changes: a
    /// failure is confined to its own item.
    pub fn complete(&mut self, i: usize, ok: bool)
        requires
            old(self).wf(),
            i < old(self).states().len(),
            old(self).states()[i as int] == ItemState::InFlight,
        ensures
            final(self).wf(),
            final(self).states() == old(self).states().update(i as int, ItemState::Done(ok)),
            final(self).limit() == old(self).limit(),
            final(self).next_index() == old(self).next_index(),
            final(self).outstanding() == old(self).outstanding() - 1,
            work_left(final(self).states().len(), final(self).next_index(), final(self).outstanding())
                < work_left(old(self).states().len(), old(self).next_index(), old(self).outstanding()),
    {
        proof {
            lemma_complete(self.states@, self.limit as nat, self.next as nat, self.in_flight as nat, self.ids@, i as int, ok);
        }
        let ghost old_ids = self.ids@;
        self.states.set(i, ItemState::Done(ok));
        self.in_flight = self.in_flight - 1;
        self.ids = Ghost(old_ids.remove(i as int));
    }
}

/// The paths that fetching one item uses.
pub struct FetchPlan {
    /// Where its source archive is downloaded from.
    pub url: String,
    /// The directory the archive is unpacked into.
    pub staging: String,
    /// The tree that unpacking creates there.
    pub unpacked: String,
    /// The workspace that tree is renamed to.
    pub workspace: String,
}

impl FetchPlan {
    /// The fetch of `krate` under the storage root `root`.
    pub fn for_crate(krate: &PraziCrate, root: &str) -> (r: FetchPlan)
        ensures
            r.url@ == url_of(krate.name@, krate.version@),
            r.staging@ == staging_of(root@, krate.name@),
            r.unpacked@ == unpacked_of(root@, krate.name@, krate.version@),
            r.workspace@ == workspace_of(root@, krate.name@, krate.version@),
    {
        FetchPlan {
            url: krate.url_src(),
            staging: krate.dir_src(root),
            unpacked: krate.unpacked_dir(root),
            workspace: krate.dir(root),
        }
    }
}

/// Whether an item must be downloaded: only when its workspace does not exist
/// yet, so that a second run does not rename onto a committed workspace.
pub fn should_fetch(workspace_exists: bool) -> (r: bool)
    ensures
        r == !workspace_exists,
{
    !workspace_exists
}

} // verus!
