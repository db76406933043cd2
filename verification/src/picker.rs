//! Interactive state of the horizontal `/effort` selector: opening it on a
//! model's ladder, moving the highlight, and reading the chosen level.

use vstd::prelude::*;

use crate::level::{
    default_ladder, default_levels, fits_below, index_for, is_selection_for, level_rank,
    EffortLevel,
};

verus! {

/// Interactive state for the horizontal `/effort` selector.
#[derive(Debug, Clone)]
pub struct EffortPickerState {
    pub visible: bool,
    /// The model-adaptive ordered ladder (ascending, `Ultracode` last).
    pub levels: Vec<EffortLevel>,
    /// Index into `levels` of the currently-highlighted level.
    pub selected: usize,
}

/// The ladder the picker shows when opened with `levels`: the given one, or
/// the default ladder when it is empty.
pub open spec fn ladder_for(levels: Seq<EffortLevel>) -> Seq<EffortLevel> {
    if levels.len() == 0 {
        default_ladder()
    } else {
        levels
    }
}

/// The level highlighted at `selected` on `levels`, `Medium` when the index
/// is out of range.
pub open spec fn level_at(levels: Seq<EffortLevel>, selected: int) -> EffortLevel {
    if 0 <= selected < levels.len() {
        levels[selected]
    } else {
        EffortLevel::Medium
    }
}

/// One step toward "Faster", clamped at the low end.
pub open spec fn step_prev(selected: nat) -> nat {
    if selected == 0 {
        0
    } else {
        (selected - 1) as nat
    }
}

/// One step toward "Smarter" on a ladder of `len` levels, clamped at the last one.
pub open spec fn step_next(selected: nat, len: nat) -> nat {
    if len == 0 {
        selected
    } else if selected + 1 <= len - 1 {
        selected + 1
    } else {
        (len - 1) as nat
    }
}

impl EffortPickerState {
    /// The level that `current` returns.
    pub open spec fn current_level(&self) -> EffortLevel {
        level_at(self.levels@, self.selected as int)
    }

    /// The highlight sits on a level of the ladder, or the ladder is empty
    /// and the highlight is at its start.
    pub open spec fn selection_in_range(&self) -> bool {
        self.selected < self.levels@.len() || (self.levels@.len() == 0 && self.selected == 0)
    }

    /// A hidden picker with an empty ladder.
    pub fn new() -> (s: Self)
        ensures
            !s.visible,
            s.levels@.len() == 0,
            s.selected == 0,
    {
        EffortPickerState { visible: false, levels: Vec::new(), selected: 0 }
    }

    /// Open the picker for the `current` effort, using `levels` as the
    /// model-adaptive ladder.
    ///
    /// If `levels` is empty the default ladder is used. The selection is
    /// placed on `current` if present, otherwise on the nearest level at or
    /// below it.
    pub fn open(&mut self, current: EffortLevel, levels: Vec<EffortLevel>)
        ensures
            final(self).visible,
            final(self).levels@ == ladder_for(levels@),
            is_selection_for(final(self).levels@, current, final(self).selected as int),
    {
        let levels = if levels.len() == 0 {
            default_levels()
        } else {
            levels
        };
        self.selected = index_for(levels.as_slice(), current);
        self.levels = levels;
        self.visible = true;
    }

    /// Hide the picker, keeping its ladder and highlight.
    pub fn close(&mut self)
        ensures
            !final(self).visible,
            final(self).levels@ == old(self).levels@,
            final(self).selected == old(self).selected,
    {
        self.visible = false;
    }

    /// Move the selection one step toward "Faster" (clamped at the low end).
    pub fn select_prev(&mut self)
        ensures
            final(self).selected == step_prev(old(self).selected as nat),
            final(self).levels@ == old(self).levels@,
            final(self).visible == old(self).visible,
    {
        self.selected = self.selected.saturating_sub(1);
    }

    /// Move the selection one step toward "Smarter" (clamped at the last level).
    pub fn select_next(&mut self)
        requires
            old(self).levels@.len() == 0 || old(self).selected < usize::MAX,
        ensures
            final(self).selected == step_next(old(self).selected as nat, old(self).levels@.len()),
            final(self).levels@ == old(self).levels@,
            final(self).visible == old(self).visible,
    {
        if self.levels.len() != 0 {
            let next = self.selected + 1;
            let last = self.levels.len() - 1;
            self.selected = if next < last {
                next
            } else {
                last
            };
        }
    }

    /// The currently-selected level (falls back to `Medium` when the
    /// selection is outside the ladder).
    pub fn current(&self) -> (l: EffortLevel)
        ensures
            l == self.current_level(),
    {
        if self.selected < self.levels.len() {
            self.levels[self.selected]
        } else {
            EffortLevel::Medium
        }
    }

    /// Whether the picker is showing its animated ultracode spectrum and so
    /// needs continuous repaints to keep moving.
    pub fn wants_animation(&self) -> (b: bool)
        ensures
            b == (self.visible && self.current_level() == EffortLevel::Ultracode),
    {
        self.visible && self.current().is_ultracode()
    }
}

impl Default for EffortPickerState {
    fn default() -> (s: Self)
        ensures
            !s.visible,
            s.levels@.len() == 0,
            s.selected == 0,
    {
        EffortPickerState::new()
    }
}


/// The highlight after `n` moves toward "Faster" from `selected`.
pub open spec fn prev_times(selected: nat, n: nat) -> nat
    decreases n,
{
    if n == 0 {
        selected
    } else {
        step_prev(prev_times(selected, (n - 1) as nat))
    }
}

/// The highlight after `n` moves toward "Smarter" from `selected` on a
/// ladder of `len` levels.
pub open spec fn next_times(selected: nat, len: nat, n: nat) -> nat
    decreases n,
{
    if n == 0 {
        selected
    } else {
        step_next(next_times(selected, len, (n - 1) as nat), len)
    }
}

/// Opening the picker always shows a non-empty ladder with the highlight on
/// one of its levels: on `current` itself whenever the ladder offers it, and
/// otherwise on the highest-ranked offered level at or below `current`.
pub proof fn lemma_open_lands_on_nearest(
    s: EffortPickerState,
    current: EffortLevel,
    levels: Seq<EffortLevel>,
)
    requires
        s.levels@ == ladder_for(levels),
        is_selection_for(s.levels@, current, s.selected as int),
    ensures
        s.levels@.len() > 0,
        s.selected < s.levels@.len(),
        s.levels@.contains(current) ==> s.current_level() == current,
        !s.levels@.contains(current) && (exists|j: int| 0 <= j < s.levels@.len() && level_rank(
            #[trigger] s.levels@[j],
        ) <= level_rank(current)) ==> {
            &&& level_rank(s.current_level()) <= level_rank(current)
            &&& forall|j: int|
                0 <= j < s.levels@.len() && level_rank(#[trigger] s.levels@[j]) <= level_rank(
                    current,
                ) ==> level_rank(s.levels@[j]) <= level_rank(s.current_level())
        },
{
    let l = s.levels@;
    assert(default_ladder().len() == 4);
    if !l.contains(current) && (exists|j: int| 0 <= j < l.len() && level_rank(#[trigger] l[j]) <= level_rank(current)) {
        let j = choose|j: int| 0 <= j < l.len() && level_rank(#[trigger] l[j]) <= level_rank(current);
        assert(fits_below(l, current, j));
        assert forall|k: int| 0 <= k < l.len() && level_rank(#[trigger] l[k]) <= level_rank(current) implies level_rank(l[k]) <= level_rank(s.current_level()) by {
            assert(fits_below(l, current, k));
        }
    }
}

/// The choice of the selected index is a function of the ladder and the
/// requested level: at most one index satisfies it.
pub proof fn lemma_selection_unique(levels: Seq<EffortLevel>, current: EffortLevel, i: int, j: int)
    requires
        is_selection_for(levels, current, i),
        is_selection_for(levels, current, j),
    ensures
        i == j,
{
    if levels.contains(current) {
        if i < j {
            assert(levels[i] != current);
        } else if j < i {
            assert(levels[j] != current);
        }
    } else if exists|k: int| #[trigger] fits_below(levels, current, k) {
        assert(fits_below(levels, current, i));
        assert(fits_below(levels, current, j));
    }
}

/// Stepping toward "Faster" at least as many times as the highlight's index
/// lands on the first level; stepping toward "Smarter" far enough from an
/// in-range highlight lands on the last level.
pub proof fn lemma_navigation_clamps(selected: nat, len: nat, n: nat)
    ensures
        n >= selected ==> prev_times(selected, n) == 0,
        len > 0 && selected < len && n + selected >= len - 1 ==> next_times(selected, len, n) == len
            - 1,
{
    lemma_prev_times_value(selected, n);
    if len > 0 && selected < len {
        lemma_next_times_value(selected, len, n);
    }
}

proof fn lemma_prev_times_value(selected: nat, n: nat)
    ensures
        prev_times(selected, n) == if n >= selected {
            0
        } else {
            (selected - n) as nat
        },
    decreases n,
{
    if n > 0 {
        lemma_prev_times_value(selected, (n - 1) as nat);
    }
}

proof fn lemma_next_times_value(selected: nat, len: nat, n: nat)
    requires
        len > 0,
        selected < len,
    ensures
        next_times(selected, len, n) == if selected + n >= len - 1 {
            (len - 1) as nat
        } else {
            selected + n
        },
    decreases n,
{
    if n > 0 {
        lemma_next_times_value(selected, len, (n - 1) as nat);
    }
}

/// A highlight on a level of the ladder stays on a level under both moves,
/// so `select_next` can always be called on it again.
pub proof fn lemma_moves_keep_range(s: EffortPickerState)
    requires
        s.selection_in_range(),
    ensures
        step_prev(s.selected as nat) <= s.selected,
        step_prev(s.selected as nat) < s.levels@.len() || s.levels@.len() == 0,
        step_next(s.selected as nat, s.levels@.len()) < s.levels@.len() || s.levels@.len() == 0,
        s.levels@.len() == 0 || s.selected < usize::MAX,
{
    assert(s.levels@.len() == s.levels.len());
}

/// A move toward "Smarter" is undone by a move toward "Faster" unless it hit
/// the last level, and a move toward "Faster" is undone by one toward
/// "Smarter" unless it hit the first level.
pub proof fn lemma_moves_undo(selected: nat, len: nat)
    ensures
        selected + 1 < len ==> step_prev(step_next(selected, len)) == selected,
        0 < selected < len ==> step_next(step_prev(selected), len) == selected,
{
}


/// The current level is the highlighted rung of the ladder, `Medium` when
/// the highlight is off the ladder; and a picker opened with no ladder
/// shows low, medium, high and ultracode.
pub proof fn lemma_current_level(s: EffortPickerState)
    ensures
        s.selected < s.levels@.len() ==> s.current_level() == s.levels@[s.selected as int],
        s.selected >= s.levels@.len() ==> s.current_level() == EffortLevel::Medium,
        ladder_for(Seq::<EffortLevel>::empty()) == seq![
            EffortLevel::Low,
            EffortLevel::Medium,
            EffortLevel::High,
            EffortLevel::Ultracode,
        ],
{
}

} // verus!
