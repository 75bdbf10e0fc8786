//! A scheduling engine for named launch targets.
//!
//! A target pairs a name and an activation URI with a list of weekly
//! triggers (weekday plus minute-precision time of day). The scheduler
//! keeps a private snapshot of the target list, matches the wall clock
//! against it once per tick, fires at most one activation per tick,
//! retires the fired trigger from the snapshot, and rebuilds the
//! snapshot on request when the underlying list has been edited.

mod channel;
mod clock;
mod scheduler;
mod store;
mod target;
mod time;
mod ui_state;

pub use channel::send_resync;
pub use channel::start;
pub use channel::stop;
pub use scheduler::Scheduler;
pub use scheduler::any_match;
pub use scheduler::exhausted;
pub use scheduler::is_first_match;
pub use scheduler::lemma_exhausted_iff_no_triggers;
pub use scheduler::lemma_exhausted_snapshot_resets;
pub use scheduler::lemma_match_changes_one_target;
pub use scheduler::lemma_match_spends_one_trigger;
pub use scheduler::lemma_one_activation_per_tick;
pub use scheduler::lemma_resync_matches_fresh_store;
pub use scheduler::match_rel;
pub use scheduler::reset_rel;
pub use scheduler::tick_rel;
pub use scheduler::total_triggers;
pub use store::insert_target;
pub use store::remove_at;
pub use store::replace_at;
pub use target::Target;
pub use target::TargetView;
pub use target::build_target;
pub use target::is_first_hit;
pub use target::lemma_retire_removes_exactly_one;
pub use target::retired_from;
pub use time::Trigger;
pub use time::Weekday;
pub use time::day_of_index;
pub use time::usize_to_day;
pub use ui_state::AddUIState;
pub use ui_state::EditUIState;
pub use ui_state::RemoveUIState;
pub use ui_state::StartUIState;
pub use ui_state::UIState;
pub use ui_state::spec_prev_selection;
pub use ui_state::submit_allowed;
