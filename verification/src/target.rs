//! Launch targets and the trigger matching and retirement rules.

use vstd::prelude::*;

use crate::time::Trigger;

verus! {

/// A named launch target: a display name, an activation URI, and an
/// ordered list of weekly triggers. Triggers need not be unique or
/// sorted, and a target may have none at all.
pub struct Target {
    pub name: String,
    pub uri: String,
    pub triggers: Vec<Trigger>,
}

/// The mathematical value of a [`Target`].
#[verifier::ext_equal]
pub struct TargetView {
    pub name: Seq<char>,
    pub uri: Seq<char>,
    pub triggers: Seq<Trigger>,
}

impl View for Target {
    type V = TargetView;

    open spec fn view(&self) -> TargetView {
        TargetView { name: self.name@, uri: self.uri@, triggers: self.triggers@ }
    }
}

impl DeepView for Target {
    type V = TargetView;

    open spec fn deep_view(&self) -> TargetView {
        self.view()
    }
}

impl TargetView {
    /// A target matches an observation exactly when some trigger of
    /// its equals the observation on all of weekday, hour and minute.
    pub open spec fn matches(self, now: Trigger) -> bool {
        exists|i: int| 0 <= i < self.triggers.len() && self.triggers[i] == now
    }
}

/// Index `i` points at the first trigger in `s` equal to `now`.
pub open spec fn is_first_hit(s: Seq<Trigger>, now: Trigger, i: int) -> bool {
    &&& 0 <= i < s.len()
    &&& s[i] == now
    &&& forall|j: int| 0 <= j < i ==> s[j] != now
}

/// `r` is `t` with exactly the first trigger equal to `now` removed,
/// or an unchanged copy when no trigger matches.
pub open spec fn retired_from(r: TargetView, t: TargetView, now: Trigger) -> bool {
    &&& r.name == t.name
    &&& r.uri == t.uri
    &&& if t.matches(now) {
        exists|i: int| #[trigger] is_first_hit(t.triggers, now, i) && r.triggers == t.triggers.remove(i)
    } else {
        r.triggers == t.triggers
    }
}

/// Law: retirement removes exactly one matching trigger. When the
/// target matches, the multiset of its triggers loses one occurrence
/// of `now` and keeps every other occurrence of every value; when it
/// does not match, retirement is the identity on the triggers.
pub proof fn lemma_retire_removes_exactly_one(r: TargetView, t: TargetView, now: Trigger)
    requires
        retired_from(r, t, now),
    ensures
        t.matches(now) ==> r.triggers.to_multiset() == t.triggers.to_multiset().remove(now),
        !t.matches(now) ==> r.triggers == t.triggers,
{
    broadcast use vstd::seq_lib::to_multiset_remove;

    if t.matches(now) {
        let i = choose|i: int|
            #[trigger] is_first_hit(t.triggers, now, i) && r.triggers == t.triggers.remove(i);
        assert(t.triggers[i] == now);
        assert(t.triggers.remove(i).to_multiset() == t.triggers.to_multiset().remove(t.triggers[i]));
    }
}

impl Clone for Target {
    fn clone(&self) -> (r: Target)
        ensures
            r@ == self@,
    {
        let r = Target {
            name: self.name.clone(),
            uri: self.uri.clone(),
            triggers: self.triggers.clone(),
        };
        proof {
            assert(r.triggers@ =~= self.triggers@);
            assert(r@ =~= self@);
        }
        r
    }
}

impl Target {
    /// Whether the target has a trigger equal to `now`.
    pub fn matches(&self, now: &Trigger) -> (r: bool)
        ensures
            r == self@.matches(*now),
    {
        let n: usize = self.triggers.len();
        let mut i: usize = 0;
        while i < n
            invariant
                n == self.triggers@.len(),
                i <= n,
                forall|j: int| 0 <= j < i ==> self.triggers@[j] != *now,
            decreases n - i,
        {
            if self.triggers[i] == *now {
                proof {
                    assert(self@.triggers[i as int] == *now);
                    assert(self@.matches(*now));
                }
                return true;
            }
            i = i + 1;
        }
        false
    }

    /// A copy of the target with the first trigger equal to `now`
    /// removed; an unchanged copy when none matches. Retiring the
    /// fired trigger keeps it from firing again before the observed
    /// minute rolls over.
    pub fn retire(&self, now: &Trigger) -> (r: Target)
        ensures
            retired_from(r@, self@, *now),
    {
        let mut out = self.clone();
        let n: usize = out.triggers.len();
        let mut i: usize = 0;
        while i < n
            invariant
                n == out.triggers@.len(),
                out.triggers@ == self.triggers@,
                out.name@ == self.name@,
                out.uri@ == self.uri@,
                i <= n,
                forall|j: int| 0 <= j < i ==> self.triggers@[j] != *now,
            decreases n - i,
        {
            if out.triggers[i] == *now {
                out.triggers.remove(i);
                proof {
                    assert(is_first_hit(self.triggers@, *now, i as int));
                }
                return out;
            }
            i = i + 1;
        }
        out
    }

    /// Appends a trigger, as the editing surface does when a time is
    /// added to an entry.
    pub fn add_trigger(&mut self, t: Trigger)
        ensures
            final(self)@.name == old(self)@.name,
            final(self)@.uri == old(self)@.uri,
            final(self)@.triggers == old(self)@.triggers.push(t),
    {
        self.triggers.push(t);
    }

    /// Removes the trigger at a position, as the editing surface does
    /// when a selected time is taken out of an entry.
    pub fn remove_trigger_at(&mut self, i: usize) -> (t: Trigger)
        requires
            i < old(self)@.triggers.len(),
        ensures
            final(self)@.name == old(self)@.name,
            final(self)@.uri == old(self)@.uri,
            final(self)@.triggers == old(self)@.triggers.remove(i as int),
            t == old(self)@.triggers[i as int],
    {
        self.triggers.remove(i)
    }
}

/// Builds a well-formed target from the editing surface's fields: the
/// trigger list holds the one chosen time, or nothing.
pub fn build_target(name: String, uri: String, trigger: Option<Trigger>) -> (t: Target)
    ensures
        t@.name == name@,
        t@.uri == uri@,
        trigger is Some ==> t@.triggers == seq![trigger->Some_0],
        trigger is None ==> t@.triggers == Seq::<Trigger>::empty(),
{
    let triggers: Vec<Trigger> = match trigger {
        Some(tr) => {
            let mut v: Vec<Trigger> = Vec::new();
            v.push(tr);
            v
        },
        None => Vec::new(),
    };
    proof {
        if trigger is Some {
            assert(triggers@ =~= seq![trigger->Some_0]);
        }
    }
    Target { name, uri, triggers }
}

} // verus!
