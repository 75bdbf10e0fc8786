//! State kept between redraws of the immediate-mode editing surface.
//!
//! The surface redraws from scratch on every frame, so everything it
//! remembers — which section is open, half-typed entry fields, combo
//! box selections — lives here as plain values. The drawing itself is
//! not part of the library; these types and their reset rules are.

use vstd::prelude::*;

use crate::target::Target;
use crate::time::Trigger;

verus! {

/// State of the launch section: which entry is selected for a manual
/// launch.
pub struct StartUIState {
    pub selection: usize,
}

impl StartUIState {
    /// The freshly reset state.
    pub open spec fn is_init(self) -> bool {
        self.selection == 0
    }
}

impl Default for StartUIState {
    fn default() -> (d: Self)
        ensures
            d.is_init(),
    {
        StartUIState { selection: 0 }
    }
}

/// State of the add section: the entry fields for a new target and
/// its optional trigger time.
pub struct AddUIState {
    pub name: String,
    pub link: String,
    pub add_time: bool,
    pub selected_day: usize,
    pub hour: usize,
    pub minute: usize,
    pub output: String,
}

impl AddUIState {
    /// The freshly reset state: empty fields, no time, everything zero.
    pub open spec fn is_init(self) -> bool {
        &&& self.name@ == Seq::<char>::empty()
        &&& self.link@ == Seq::<char>::empty()
        &&& !self.add_time
        &&& self.selected_day == 0
        &&& self.hour == 0
        &&& self.minute == 0
        &&& self.output@ == Seq::<char>::empty()
    }
}

impl Default for AddUIState {
    fn default() -> (d: Self)
        ensures
            d.is_init(),
    {
        AddUIState {
            name: String::new(),
            link: String::new(),
            add_time: false,
            selected_day: 0,
            hour: 0,
            minute: 0,
            output: String::new(),
        }
    }
}

/// State of the edit section: the selected entry, a working copy of
/// it, and the fields for adding or removing one of its times.
pub struct EditUIState {
    pub selection: usize,
    pub prev_selection: usize,
    pub plan: Target,
    pub add_time: bool,
    pub selected_day: usize,
    pub hour: usize,
    pub minute: usize,
    pub remove_time: bool,
    pub selected_time: usize,
    pub output: String,
}

impl EditUIState {
    /// The freshly reset state. `prev_selection` starts off unequal to
    /// `selection` so that the next redraw reloads the working copy
    /// from the store.
    pub open spec fn is_init(self) -> bool {
        &&& self.selection == 0
        &&& self.prev_selection == 1
        &&& self.plan@.name == Seq::<char>::empty()
        &&& self.plan@.uri == Seq::<char>::empty()
        &&& self.plan@.triggers == Seq::<Trigger>::empty()
        &&& !self.add_time
        &&& self.selected_day == 0
        &&& self.hour == 0
        &&& self.minute == 0
        &&& !self.remove_time
        &&& self.selected_time == 0
        &&& self.output@ == Seq::<char>::empty()
    }

    /// Resets the section after a successful edit, keeping the entry
    /// selection and forcing the working copy to reload: the recorded
    /// previous selection becomes some index of the store other than
    /// the selected one, or zero when there is none.
    pub fn refresh(&mut self, r: core::ops::Range<usize>)
        ensures
            final(self).selection == old(self).selection,
            final(self).prev_selection == spec_prev_selection(
                r.start as int,
                r.end as int,
                old(self).selection as int,
            ),
            final(self).plan@.name == Seq::<char>::empty(),
            final(self).plan@.uri == Seq::<char>::empty(),
            final(self).plan@.triggers == Seq::<Trigger>::empty(),
            !final(self).add_time,
            final(self).selected_day == 0,
            final(self).hour == 0,
            final(self).minute == 0,
            !final(self).remove_time,
            final(self).selected_time == 0,
            final(self).output@ == Seq::<char>::empty(),
    {
        let mut new = Self::default();
        new.selection = self.selection;
        new.prev_selection = Self::prev_selection_generate(r, self.selection);
        *self = new;
    }

    /// The first index of the range that differs from `not`, or zero
    /// when the range holds no such index.
    #[verifier::loop_isolation(false)]
    fn prev_selection_generate(r: core::ops::Range<usize>, not: usize) -> (prev: usize)
        ensures
            prev == spec_prev_selection(r.start as int, r.end as int, not as int),
    {
        let mut prev_sel: usize = 0;
        let mut i: usize = r.start;
        let end: usize = r.end;
        while i < end
            invariant
                prev_sel == 0,
                i == r.start || (i == r.start + 1 && r.start == not),
            decreases end - i,
        {
            if i != not {
                prev_sel = i;
                proof {
                    assert(spec_prev_selection(r.start as int, r.end as int, not as int) == i);
                }
                return prev_sel;
            }
            i = i + 1;
        }
        prev_sel
    }
}

/// The first index in `start..end` that differs from `not`, or zero
/// when every index of the range equals `not` (so for an empty range
/// too). Since at most one index can equal `not`, that first index is
/// `start` itself, or its successor.
pub open spec fn spec_prev_selection(start: int, end: int, not: int) -> int {
    if start < end && start != not {
        start
    } else if start + 1 < end && start == not {
        start + 1
    } else {
        0
    }
}

impl Default for EditUIState {
    fn default() -> (d: Self)
        ensures
            d.is_init(),
    {
        let d = EditUIState {
            selection: 0,
            prev_selection: 1,
            plan: Target { name: String::new(), uri: String::new(), triggers: Vec::new() },
            add_time: false,
            selected_day: 0,
            hour: 0,
            minute: 0,
            remove_time: false,
            selected_time: 0,
            output: String::new(),
        };
        proof {
            assert(d.plan@.triggers =~= Seq::<Trigger>::empty());
        }
        d
    }
}

/// State of the remove section: the selected entry and the outcome
/// message of the last removal.
pub struct RemoveUIState {
    pub selection: usize,
    pub output: String,
}

impl RemoveUIState {
    /// The freshly reset state.
    pub open spec fn is_init(self) -> bool {
        self.selection == 0 && self.output@ == Seq::<char>::empty()
    }
}

impl Default for RemoveUIState {
    fn default() -> (d: Self)
        ensures
            d.is_init(),
    {
        RemoveUIState { selection: 0, output: String::new() }
    }
}

/// All the state the editing surface keeps between redraws: the open
/// section, the previously open one, and each section's own state.
pub struct UIState {
    pub section: usize,
    pub prev_section: usize,
    pub start: StartUIState,
    pub add: AddUIState,
    pub edit: EditUIState,
    pub remove: RemoveUIState,
}

impl UIState {
    /// The freshly reset state: the launch section is open and every
    /// section is reset.
    pub open spec fn is_init(self) -> bool {
        &&& self.section == 0
        &&& self.prev_section == 0
        &&& self.start.is_init()
        &&& self.add.is_init()
        &&& self.edit.is_init()
        &&& self.remove.is_init()
    }

    /// Resets every section's state, as happens when the open section
    /// changes; which section is open is kept.
    pub fn set_sections_to_default(&mut self)
        ensures
            final(self).section == old(self).section,
            final(self).prev_section == old(self).prev_section,
            final(self).start.is_init(),
            final(self).add.is_init(),
            final(self).edit.is_init(),
            final(self).remove.is_init(),
    {
        self.start = StartUIState::default();
        self.add = AddUIState::default();
        self.edit = EditUIState::default();
        self.remove = RemoveUIState::default();
    }
}

/// The editing surface's validation rule: an entry may be submitted
/// only when both its name and its link have been entered. The engine
/// itself assumes well-formed targets and never re-validates.
pub fn submit_allowed(name: &String, link: &String) -> (ok: bool)
    ensures
        ok == (name@.len() > 0 && link@.len() > 0),
{
    !(name.as_str().is_empty() || link.as_str().is_empty())
}

impl Default for UIState {
    fn default() -> (d: Self)
        ensures
            d.is_init(),
    {
        UIState {
            section: 0,
            prev_section: 0,
            start: StartUIState::default(),
            add: AddUIState::default(),
            edit: EditUIState::default(),
            remove: RemoveUIState::default(),
        }
    }
}

} // verus!
