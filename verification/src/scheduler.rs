//! The scheduler state machine.
//!
//! The loop that owns a [`Scheduler`] runs elsewhere: it drains the
//! control channel, reloads the snapshot when a `true` signal was
//! seen, performs one match attempt per tick, hands the returned URI
//! to the activation sink, and sleeps between ticks. Every decision
//! the loop takes is made here, over plain values, and is verified.

use vstd::prelude::*;

use crate::channel::try_recv_signal;
use crate::clock::observe_now;
use crate::target::Target;
use crate::target::TargetView;
use crate::target::is_first_hit;
use crate::target::retired_from;
use crate::time::Trigger;

verus! {

/// How many pending control signals one drain is willing to process;
/// far beyond any burst the editing surface can issue between ticks.
pub const DRAIN_BOUND: u64 = 1000000;

/// The scheduler's private state: the run flag, the full snapshot of
/// the target store taken at the last reload, and the working copy
/// that matching progressively thins out. Neither snapshot is ever
/// written back to the shared store.
pub struct Scheduler {
    pub running: bool,
    pub full: Vec<Target>,
    pub working: Vec<Target>,
}

/// Every target in the snapshot is out of triggers.
pub open spec fn exhausted(s: Seq<TargetView>) -> bool {
    forall|i: int| 0 <= i < s.len() ==> s[i].triggers.len() == 0
}

/// The total trigger count across a snapshot.
pub open spec fn total_triggers(s: Seq<TargetView>) -> nat
    decreases s.len(),
{
    if s.len() == 0 {
        0
    } else {
        s[0].triggers.len() + total_triggers(s.drop_first())
    }
}

/// Index `k` points at the first target in `s` that matches `now`.
pub open spec fn is_first_match(s: Seq<TargetView>, now: Trigger, k: int) -> bool {
    &&& 0 <= k < s.len()
    &&& s[k].matches(now)
    &&& forall|j: int| 0 <= j < k ==> !s[j].matches(now)
}

/// Some target in `s` matches `now`.
pub open spec fn any_match(s: Seq<TargetView>, now: Trigger) -> bool {
    exists|k: int| 0 <= k < s.len() && s[k].matches(now)
}

/// One match attempt over the working snapshot. When some target
/// matches, the first matching one is retired: the action carries its
/// URI, the target moves to the end of the snapshot with its fired
/// trigger removed, and every other target is untouched. When none
/// matches, nothing changes and no action is taken.
pub open spec fn match_rel(
    pre: Seq<TargetView>,
    post: Seq<TargetView>,
    now: Trigger,
    action: Option<String>,
) -> bool {
    if any_match(pre, now) {
        exists|k: int|
            {
                &&& #[trigger] is_first_match(pre, now, k)
                &&& action is Some
                &&& action->0@ == pre[k].uri
                &&& post.len() == pre.len()
                &&& post.subrange(0, post.len() - 1) == pre.remove(k)
                &&& retired_from(post[post.len() - 1], pre[k], now)
            }
    } else {
        post == pre && action is None
    }
}

/// The snapshot reset: a working snapshot whose triggers are all spent
/// is replaced wholesale by the full snapshot, which restores every
/// trigger for the next cycle; otherwise it is left alone.
pub open spec fn reset_rel(full: Seq<TargetView>, pre: Seq<TargetView>, post: Seq<TargetView>) -> bool {
    post == if exhausted(pre) {
        full
    } else {
        pre
    }
}

/// One whole tick while the run flag is up: one match attempt, then
/// the reset check. A paused scheduler does nothing and fires nothing.
pub open spec fn tick_rel(pre: Scheduler, post: Scheduler, now: Trigger, action: Option<String>) -> bool {
    &&& post.running == pre.running
    &&& post.full.deep_view() == pre.full.deep_view()
    &&& if pre.running {
        exists|mid: Seq<TargetView>|
            #[trigger] match_rel(pre.working.deep_view(), mid, now, action)
                && reset_rel(pre.full.deep_view(), mid, post.working.deep_view())
    } else {
        post.working.deep_view() == pre.working.deep_view() && action is None
    }
}

/// A copy of a target list whose mathematical value is the same.
fn clone_targets(v: &Vec<Target>) -> (r: Vec<Target>)
    ensures
        r.deep_view() == v.deep_view(),
{
    let r = v.clone();
    proof {
        assert forall|i: int| 0 <= i < v@.len() implies r@[i].deep_view() == v@[i].deep_view() by {
            assert(cloned::<Target>(v@[i], r@[i]));
        }
        assert(r.deep_view() =~= v.deep_view());
    }
    r
}

/// Whether every target in the list is out of triggers.
fn all_exhausted(v: &Vec<Target>) -> (r: bool)
    ensures
        r == exhausted(v.deep_view()),
{
    let n: usize = v.len();
    let mut i: usize = 0;
    while i < n
        invariant
            n == v@.len(),
            i <= n,
            forall|j: int| 0 <= j < i ==> v.deep_view()[j].triggers.len() == 0,
        decreases n - i,
    {
        if v[i].triggers.len() > 0 {
            proof {
                assert(v.deep_view()[i as int].triggers.len() > 0);
            }
            return false;
        }
        i = i + 1;
    }
    true
}

impl Scheduler {
    /// A scheduler as the loop starts: paused, with empty snapshots.
    pub fn new() -> (s: Scheduler)
        ensures
            !s.running,
            s.full.deep_view() == Seq::<TargetView>::empty(),
            s.working.deep_view() == Seq::<TargetView>::empty(),
    {
        let s = Scheduler { running: false, full: Vec::new(), working: Vec::new() };
        proof {
            assert(s.full.deep_view() =~= Seq::<TargetView>::empty());
            assert(s.working.deep_view() =~= Seq::<TargetView>::empty());
        }
        s
    }

    /// Takes one control signal: the run flag becomes the signal, and
    /// the snapshots are left as they are. (A `true` signal obliges
    /// the loop to reload the snapshot next, see [`Self::load_snapshot`].)
    pub fn apply_signal(&mut self, sig: bool)
        ensures
            final(self).running == sig,
            final(self).full == old(self).full,
            final(self).working == old(self).working,
    {
        self.running = sig;
    }

    /// Replaces both snapshots wholesale with a copy of the given
    /// store contents. The loop calls this after a drain that saw a
    /// `true` signal, with the store read under its lock, so stale
    /// snapshots are never matched against.
    pub fn load_snapshot(&mut self, store: &Vec<Target>)
        ensures
            final(self).running == old(self).running,
            final(self).full.deep_view() == store.deep_view(),
            final(self).working.deep_view() == store.deep_view(),
    {
        self.full = clone_targets(store);
        self.working = clone_targets(store);
    }

    /// Drains every pending control signal in send order without
    /// blocking and applies each to the run flag. Returns whether any
    /// `true` was seen: the burst of signals — a stop-then-start pulse
    /// included — then collapses into exactly one snapshot reload,
    /// which the caller performs from the current store.
    #[verifier::loop_isolation(false)]
    pub fn drain_signals(&mut self, r: &crossbeam_channel::Receiver<bool>) -> (resync: bool)
        ensures
            final(self).full == old(self).full,
            final(self).working == old(self).working,
            !resync ==> final(self).running == old(self).running || final(self).running == false,
    {
        let mut resync: bool = false;
        let mut budget: u64 = DRAIN_BOUND;
        let mut more: bool = true;
        while more && budget > 0
            invariant
                self.full == old(self).full,
                self.working == old(self).working,
                !resync ==> self.running == old(self).running || self.running == false,
            decreases budget,
        {
            match try_recv_signal(r) {
                Some(sig) => {
                    self.apply_signal(sig);
                    if sig {
                        resync = true;
                    }
                },
                None => {
                    more = false;
                },
            }
            budget = budget - 1;
        }
        resync
    }

    /// One match attempt over the working snapshot, exactly
    /// [`match_rel`]: at most one target fires, the first matching
    /// one, and its fired trigger is retired into a copy appended at
    /// the snapshot's end.
    #[verifier::loop_isolation(false)]
    fn match_step(&mut self, now: &Trigger) -> (action: Option<String>)
        ensures
            final(self).running == old(self).running,
            final(self).full == old(self).full,
            match_rel(old(self).working.deep_view(), final(self).working.deep_view(), *now, action),
    {
        let n: usize = self.working.len();
        let mut k: usize = 0;
        while k < n
            invariant
                *self == *old(self),
                n == self.working@.len(),
                k <= n,
                forall|j: int| 0 <= j < k ==> !self.working.deep_view()[j].matches(*now),
            decreases n - k,
    {
            if self.working[k].matches(now) {
                proof {
                    assert(is_first_match(old(self).working.deep_view(), *now, k as int));
                    assert(any_match(old(self).working.deep_view(), *now));
                }
                let t: Target = self.working.remove(k);
                let uri: String = t.uri.clone();
                let t2: Target = t.retire(now);
                self.working.push(t2);
                proof {
                    let pre = old(self).working.deep_view();
                    let post = self.working.deep_view();
                    assert(post.len() == pre.len());
                    assert(post.subrange(0, post.len() - 1) =~= pre.remove(k as int));
                    assert(post[post.len() - 1] == t2@);
                    assert(t@ == pre[k as int]);
                    assert(retired_from(post[post.len() - 1], pre[k as int], *now));
                }
                return Some(uri);
            }
            k = k + 1;
        }
        proof {
            let pre = old(self).working.deep_view();
            assert(!any_match(pre, *now)) by {
                if any_match(pre, *now) {
                    let kk = choose|kk: int| 0 <= kk < pre.len() && pre[kk].matches(*now);
                    assert(!pre[kk].matches(*now));
                }
            }
        }
        None
    }

    /// The reset check, exactly [`reset_rel`]: an exhausted working
    /// snapshot is replaced by a fresh copy of the full snapshot.
    fn reset_step(&mut self)
        ensures
            final(self).running == old(self).running,
            final(self).full == old(self).full,
            reset_rel(old(self).full.deep_view(), old(self).working.deep_view(), final(self).working.deep_view()),
    {
        if all_exhausted(&self.working) {
            self.working = clone_targets(&self.full);
        }
    }

    /// One tick of the running loop against a given clock observation:
    /// a match attempt followed by the reset check, exactly
    /// [`tick_rel`]. A paused scheduler returns no action and is left
    /// unchanged.
    pub fn tick_match(&mut self, now: &Trigger) -> (action: Option<String>)
        ensures
            tick_rel(*old(self), *final(self), *now, action),
    {
        if !self.running {
            return None;
        }
        let action = self.match_step(now);
        let ghost mid = self.working.deep_view();
        self.reset_step();
        proof {
            assert(match_rel(old(self).working.deep_view(), mid, *now, action));
            assert(reset_rel(old(self).full.deep_view(), mid, final(self).working.deep_view()));
        }
        action
    }

    /// One tick against the wall clock, truncated to the minute: what
    /// the loop performs each time it wakes while running.
    pub fn tick_now(&mut self) -> (action: Option<String>)
        ensures
            exists|now: Trigger|
                #[trigger] now.wf() && tick_rel(*old(self), *final(self), now, action),
    {
        let now = observe_now();
        let action = self.tick_match(&now);
        proof {
            assert(now.wf() && tick_rel(*old(self), *final(self), now, action));
        }
        action
    }
}

/// Law: a match step touches exactly the first matching target. Every
/// target before it keeps its place and value, every one after it
/// only moves up one place, the changed one reappears at the end with
/// just its fired trigger retired, and the action carries that
/// target's URI.
pub proof fn lemma_match_changes_one_target(
    pre: Seq<TargetView>,
    post: Seq<TargetView>,
    now: Trigger,
    action: Option<String>,
    k: int,
)
    requires
        match_rel(pre, post, now, action),
        is_first_match(pre, now, k),
    ensures
        post.len() == pre.len(),
        forall|j: int| 0 <= j < k ==> post[j] == pre[j],
        forall|j: int| k <= j < pre.len() - 1 ==> post[j] == pre[j + 1],
        retired_from(post[pre.len() - 1], pre[k], now),
        action is Some,
        action->0@ == pre[k].uri,
{
    assert(any_match(pre, now)) by {
        assert(0 <= k < pre.len() && pre[k].matches(now));
    }
    let k2 = choose|k2: int|
        {
            &&& #[trigger] is_first_match(pre, now, k2)
            &&& action is Some
            &&& action->0@ == pre[k2].uri
            &&& post.len() == pre.len()
            &&& post.subrange(0, post.len() - 1) == pre.remove(k2)
            &&& retired_from(post[post.len() - 1], pre[k2], now)
        };
    assert(k2 == k) by {
        if k2 < k {
            assert(!pre[k2].matches(now));
        }
        if k < k2 {
            assert(!pre[k].matches(now));
        }
    }
    assert forall|j: int| 0 <= j < k implies post[j] == pre[j] by {
        assert(post.subrange(0, post.len() - 1)[j] == pre.remove(k)[j]);
    }
    assert forall|j: int| k <= j < pre.len() - 1 implies post[j] == pre[j + 1] by {
        assert(post.subrange(0, post.len() - 1)[j] == pre.remove(k)[j]);
    }
}

proof fn lemma_total_push(s: Seq<TargetView>, t: TargetView)
    ensures
        total_triggers(s.push(t)) == total_triggers(s) + t.triggers.len(),
    decreases s.len(),
{
    if s.len() == 0 {
        assert(s.push(t).drop_first() =~= Seq::<TargetView>::empty());
        assert(s.push(t)[0] == t);
        assert(total_triggers(Seq::<TargetView>::empty()) == 0);
        assert(total_triggers(s.push(t)) == t.triggers.len() + total_triggers(
            s.push(t).drop_first(),
        ));
    } else {
        lemma_total_push(s.drop_first(), t);
        assert(s.push(t).drop_first() =~= s.drop_first().push(t));
        assert(s.push(t)[0] == s[0]);
        assert(total_triggers(s.push(t)) == s[0].triggers.len() + total_triggers(
            s.push(t).drop_first(),
        ));
    }
}

proof fn lemma_total_remove(s: Seq<TargetView>, k: int)
    requires
        0 <= k < s.len(),
    ensures
        total_triggers(s) == total_triggers(s.remove(k)) + s[k].triggers.len(),
    decreases s.len(),
{
    if k == 0 {
        assert(s.remove(0) =~= s.drop_first());
    } else {
        lemma_total_remove(s.drop_first(), k - 1);
        assert(s.remove(k).drop_first() =~= s.drop_first().remove(k - 1));
        assert(s.remove(k)[0] == s[0]);
    }
}

/// Law: a match attempt that fires spends exactly one trigger of the
/// working snapshot — the total count drops by one — and one that
/// does not fire spends none. So a sequence of matches can only thin
/// the snapshot out, one trigger at a time, towards the reset.
pub proof fn lemma_match_spends_one_trigger(
    pre: Seq<TargetView>,
    post: Seq<TargetView>,
    now: Trigger,
    action: Option<String>,
)
    requires
        match_rel(pre, post, now, action),
    ensures
        any_match(pre, now) ==> total_triggers(post) + 1 == total_triggers(pre),
        !any_match(pre, now) ==> total_triggers(post) == total_triggers(pre),
{
    if any_match(pre, now) {
        let k = choose|k: int|
            {
                &&& #[trigger] is_first_match(pre, now, k)
                &&& action is Some
                &&& action->0@ == pre[k].uri
                &&& post.len() == pre.len()
                &&& post.subrange(0, post.len() - 1) == pre.remove(k)
                &&& retired_from(post[post.len() - 1], pre[k], now)
            };
        let r = post[post.len() - 1];
        assert forall|j: int| 0 <= j < post.len() - 1 implies post[j] == pre.remove(k)[j] by {
            assert(post.subrange(0, post.len() - 1)[j] == pre.remove(k)[j]);
        }
        assert(post =~= pre.remove(k).push(r));
        lemma_total_remove(pre, k);
        lemma_total_push(pre.remove(k), r);
        let i = choose|i: int|
            #[trigger] is_first_hit(pre[k].triggers, now, i) && r.triggers == pre[k].triggers.remove(
                i,
            );
        assert(r.triggers.len() + 1 == pre[k].triggers.len());
    }
}

/// Law: a snapshot is exhausted exactly when its total trigger count
/// is zero, so the reset fires precisely when nothing is left to match.
pub proof fn lemma_exhausted_iff_no_triggers(s: Seq<TargetView>)
    ensures
        exhausted(s) <==> total_triggers(s) == 0,
    decreases s.len(),
{
    if s.len() > 0 {
        lemma_exhausted_iff_no_triggers(s.drop_first());
        if exhausted(s) {
            assert forall|i: int| 0 <= i < s.drop_first().len() implies s.drop_first()[i].triggers.len()
                == 0 by {
                assert(s.drop_first()[i] == s[i + 1]);
            }
        }
        if total_triggers(s) == 0 {
            assert forall|i: int| 0 <= i < s.len() implies s[i].triggers.len() == 0 by {
                if i > 0 {
                    assert(s.drop_first()[i - 1] == s[i]);
                }
            }
        }
    }
}

/// Law: once a sequence of matches has exhausted every trigger in the
/// working snapshot, the reset replaces it with the full snapshot, so
/// the next tick matches against a snapshot whose total trigger count
/// equals the full copy's again.
pub proof fn lemma_exhausted_snapshot_resets(
    full: Seq<TargetView>,
    pre: Seq<TargetView>,
    post: Seq<TargetView>,
)
    requires
        reset_rel(full, pre, post),
        exhausted(pre),
    ensures
        post == full,
        total_triggers(post) == total_triggers(full),
{
}

/// Law: after a re-sync pulse has made the loop reload its snapshot
/// from the store, the next tick decides from the freshly loaded
/// contents alone — never from a stale snapshot: the action is the
/// first matching target of the store, or nothing when none matches.
pub proof fn lemma_resync_matches_fresh_store(
    pre: Scheduler,
    post: Scheduler,
    store: Seq<TargetView>,
    now: Trigger,
    action: Option<String>,
)
    requires
        pre.running,
        pre.working.deep_view() == store,
        tick_rel(pre, post, now, action),
    ensures
        !any_match(store, now) ==> action is None,
        any_match(store, now) ==> action is Some && exists|k: int|
            #[trigger] is_first_match(store, now, k) && action->0@ == store[k].uri,
{
    let mid = choose|mid: Seq<TargetView>|
        #[trigger] match_rel(pre.working.deep_view(), mid, now, action) && reset_rel(
            pre.full.deep_view(),
            mid,
            post.working.deep_view(),
        );
    assert(match_rel(store, mid, now, action));
}

/// Law: at most one activation happens per tick. Even when two or
/// more targets match the same observation, the tick's action is a
/// single URI, the first matching target's; later matching targets do
/// not fire in that tick.
pub proof fn lemma_one_activation_per_tick(
    pre: Scheduler,
    post: Scheduler,
    now: Trigger,
    action: Option<String>,
    k1: int,
    k2: int,
)
    requires
        tick_rel(pre, post, now, action),
        pre.running,
        0 <= k1 < k2 < pre.working.deep_view().len(),
        pre.working.deep_view()[k1].matches(now),
        pre.working.deep_view()[k2].matches(now),
    ensures
        action is Some,
        exists|k: int|
            #[trigger] is_first_match(pre.working.deep_view(), now, k) && k <= k1 && action->0@
                == pre.working.deep_view()[k].uri,
{
    let w = pre.working.deep_view();
    assert(any_match(w, now)) by {
        assert(0 <= k1 < w.len() && w[k1].matches(now));
    }
    let mid = choose|mid: Seq<TargetView>|
        #[trigger] match_rel(pre.working.deep_view(), mid, now, action) && reset_rel(
            pre.full.deep_view(),
            mid,
            post.working.deep_view(),
        );
    let k = choose|k: int|
        {
            &&& #[trigger] is_first_match(w, now, k)
            &&& action is Some
            &&& action->0@ == w[k].uri
            &&& mid.len() == w.len()
            &&& mid.subrange(0, mid.len() - 1) == w.remove(k)
            &&& retired_from(mid[mid.len() - 1], w[k], now)
        };
    assert(k <= k1) by {
        if k1 < k {
            assert(!w[k1].matches(now));
        }
    }
}

} // verus!
