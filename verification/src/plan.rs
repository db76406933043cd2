//! What the picker panel shows, computed ahead of drawing: the clamped
//! selection, the label row, the marker columns, the width of the body, the
//! (at most two) description lines.

use vstd::prelude::*;

use crate::layout::{
    label_center, label_start, label_width, lemma_label_row_ordered, layout_labels, placed_view,
    placements, prefix_width, PlacedText,
};
use crate::level::{description, level_description, EffortLevel};
use crate::panel::Area;
use crate::picker::EffortPickerState;
use crate::wrap::{word_wrap, wrapped};

verus! {

/// Controls hint line.
pub const CONTROLS: &'static str = "\u{2190}/\u{2192} to adjust \u{b7} Enter to confirm \u{b7} Esc to cancel";

/// The label at the fast end of the track.
pub const FASTER: &'static str = "Faster";

/// The label at the smart end of the track.
pub const SMARTER: &'static str = "Smarter";

/// Width, in columns, of the controls hint.
pub open spec fn controls_width() -> nat {
    48
}

/// The panel's content for a visible picker.
pub struct PickerLayout {
    /// The highlighted index, clamped onto the ladder.
    pub selected: usize,
    /// The highlighted level.
    pub level: EffortLevel,
    /// The label row: dividers and labels at their columns.
    pub labels: Vec<PlacedText>,
    /// The marker column of each level.
    pub centers: Vec<usize>,
    /// Width of the label row.
    pub content_width: usize,
    /// Width of the panel's body: the label row or the controls hint, whichever is wider.
    pub body_width: usize,
    /// The first (at most two) lines of the highlighted level's description.
    pub description: Vec<String>,
}

/// The highlighted index clamped onto a non-empty ladder of `len` levels.
pub open spec fn clamp_selected(selected: nat, len: nat) -> nat {
    if selected < len {
        selected
    } else {
        (len - 1) as nat
    }
}

/// The larger of two widths.
pub open spec fn wider(a: nat, b: nat) -> nat {
    if a < b {
        b
    } else {
        a
    }
}

/// `layout` is what a visible picker on the non-empty ladder `levels` with
/// highlight `selected` shows.
pub open spec fn shows(layout: PickerLayout, levels: Seq<EffortLevel>, selected: nat) -> bool {
    let sel = clamp_selected(selected, levels.len());
    let row = placements(levels, sel as int, levels.len());
    let desc = description(levels[sel as int], levels);
    &&& layout.selected == sel
    &&& layout.level == levels[sel as int]
    &&& layout.labels@.len() == row.len()
    &&& forall|k: int| 0 <= k < row.len() ==> placed_view(#[trigger] layout.labels@[k]) == row[k]
    &&& layout.centers@.len() == levels.len()
    &&& forall|i: int|
        0 <= i < levels.len() ==> #[trigger] layout.centers@[i] == label_center(levels, i)
    &&& layout.content_width == prefix_width(levels, levels.len())
    &&& layout.body_width == wider(layout.content_width as nat, controls_width())
    &&& exists|lines: Seq<Seq<char>>|
        {
            &&& #[trigger] wrapped(desc, layout.body_width as nat, lines)
            &&& layout.description@.map_values(|s: String| s@) == lines.take(
                if lines.len() < 2 {
                    lines.len() as int
                } else {
                    2
                },
            )
        }
}

/// The content of the picker panel, or `None` when nothing is drawn (the
/// picker is hidden or its ladder is empty).
pub fn picker_layout(state: &EffortPickerState) -> (res: Option<PickerLayout>)
    requires
        state.levels@.len() <= usize::MAX / 16,
    ensures
        res is None <==> (!state.visible || state.levels@.len() == 0),
        res matches Some(layout) ==> shows(layout, state.levels@, state.selected as nat),
{
    if !state.visible || state.levels.len() == 0 {
        return None;
    }
    let last = state.levels.len() - 1;
    let selected = if state.selected < last {
        state.selected
    } else {
        last
    };
    let level = state.levels[selected];
    let (labels, centers, content_width) = layout_labels(state.levels.as_slice(), selected);
    proof {
        reveal_strlit("\u{2190}/\u{2192} to adjust \u{b7} Enter to confirm \u{b7} Esc to cancel");
    }
    let controls_w = CONTROLS.unicode_len();
    let body_width = if content_width < controls_w {
        controls_w
    } else {
        content_width
    };
    let desc = level_description(level, state.levels.as_slice());
    let mut lines = word_wrap(desc.as_str(), body_width);
    let ghost all = lines@.map_values(|s: String| s@);
    lines.truncate(2);
    let layout = PickerLayout {
        selected,
        level,
        labels,
        centers,
        content_width,
        body_width,
        description: lines,
    };
    proof {
        let n: int = if all.len() < 2 {
            all.len() as int
        } else {
            2
        };
        assert(layout.description@.map_values(|s: String| s@) =~= all.take(n));
        assert(wrapped(description(level, state.levels@), body_width as nat, all));
        assert(controls_w == 48);
        assert(layout.selected == clamp_selected(state.selected as nat, state.levels@.len()));
        assert(layout.body_width == wider(layout.content_width as nat, controls_width()));
    }
    Some(layout)
}

/// The marker of the highlighted level sits under that level's label, and
/// the label row ends within the body.
pub proof fn lemma_marker_under_selected(
    layout: PickerLayout,
    levels: Seq<EffortLevel>,
    selected: nat,
)
    requires
        levels.len() > 0,
        shows(layout, levels, selected),
    ensures
        layout.selected < levels.len(),
        label_start(levels, layout.selected as int) <= layout.centers@[layout.selected as int]
            < label_start(levels, layout.selected as int) + label_width(
            levels[layout.selected as int],
        ),
        label_start(levels, layout.selected as int) + label_width(levels[layout.selected as int])
            <= layout.body_width,
{
    lemma_label_row_ordered(levels, layout.selected as int);
}

/// For a picker whose highlight is on its ladder, the panel paints the
/// animated ultracode background exactly when the picker asks for continuous
/// repaints.
pub proof fn lemma_animation_matches_panel(state: EffortPickerState, layout: PickerLayout)
    requires
        state.visible,
        state.levels@.len() > 0,
        state.selection_in_range(),
        shows(layout, state.levels@, state.selected as nat),
    ensures
        layout.level == state.current_level(),
        (layout.level == EffortLevel::Ultracode) == (state.visible && state.current_level()
            == EffortLevel::Ultracode),
{
}


/// The panel's body is as wide as the controls hint or the label row,
/// whichever is wider: never narrower than either, and equal to one of them.
pub proof fn lemma_body_width(layout: PickerLayout, levels: Seq<EffortLevel>, selected: nat)
    requires
        levels.len() > 0,
        shows(layout, levels, selected),
    ensures
        CONTROLS@.len() == 48,
        layout.body_width >= CONTROLS@.len(),
        layout.body_width >= layout.content_width,
        layout.body_width == CONTROLS@.len() || layout.body_width == layout.content_width,
{
    reveal_strlit("\u{2190}/\u{2192} to adjust \u{b7} Enter to confirm \u{b7} Esc to cancel");
}

/// Where the panel's content goes inside the border `inner`: the content
/// starts one column in; the track ends on row 1, the track on row 2, the
/// labels on row 3, the marker on row 4, the description on rows 6 and 7 and
/// the controls hint on row 9.
pub struct PanelSpots {
    /// First column of the content.
    pub x0: u16,
    /// Length of the track, in cells.
    pub track_width: u16,
    /// Column of the "Smarter" end label, right-aligned on the track.
    pub smarter_x: u16,
    /// Column of each placed piece of the label row.
    pub label_xs: Vec<u16>,
    /// Column of the marker under the highlighted level.
    pub marker_x: u16,
    /// Row of the "Faster" and "Smarter" ends.
    pub ends_y: u16,
    /// Row of the track line.
    pub track_y: u16,
    /// Row of the labels.
    pub labels_y: u16,
    /// Row of the marker.
    pub marker_y: u16,
    /// Rows of the two description lines.
    pub description_ys: (u16, u16),
    /// Row of the controls hint.
    pub controls_y: u16,
}

/// Every spot of the panel's content lies within the 16-bit cell coordinates.
pub open spec fn spots_fit(layout: PickerLayout, inner: Area) -> bool {
    &&& inner.x + 1 + (layout.content_width as u16) <= u16::MAX
    &&& inner.y + 9 <= u16::MAX
    &&& layout.selected < layout.centers@.len()
    &&& inner.x + 1 + (layout.centers@[layout.selected as int] as u16) <= u16::MAX
    &&& forall|k: int|
        0 <= k < layout.labels@.len() ==> inner.x + 1 + ((#[trigger] layout.labels@[k]).col as u16)
            <= u16::MAX
}

/// The columns and rows of the panel's content inside the border `inner`.
pub fn panel_spots(layout: &PickerLayout, inner: Area) -> (spots: PanelSpots)
    requires
        spots_fit(*layout, inner),
    ensures
        spots.x0 == inner.x + 1,
        spots.track_width == layout.content_width as u16,
        spots.smarter_x == spots.x0 + (if spots.track_width >= 7 {
            spots.track_width - 7
        } else {
            0
        }),
        spots.label_xs@.len() == layout.labels@.len(),
        forall|k: int|
            0 <= k < layout.labels@.len() ==> #[trigger] spots.label_xs@[k] == spots.x0 + (
            layout.labels@[k].col as u16),
        spots.marker_x == spots.x0 + (layout.centers@[layout.selected as int] as u16),
        spots.ends_y == inner.y + 1,
        spots.track_y == inner.y + 2,
        spots.labels_y == inner.y + 3,
        spots.marker_y == inner.y + 4,
        spots.description_ys.0 == inner.y + 6,
        spots.description_ys.1 == inner.y + 7,
        spots.controls_y == inner.y + 9,
{
    let x0 = inner.x + 1;
    let track_width = layout.content_width as u16;
    proof {
        reveal_strlit("Smarter");
    }
    let smarter_w = SMARTER.unicode_len() as u16;
    let smarter_x = x0 + track_width.saturating_sub(smarter_w);
    let mut label_xs: Vec<u16> = Vec::new();
    let mut k: usize = 0;
    while k < layout.labels.len()
        invariant
            k <= layout.labels@.len(),
            spots_fit(*layout, inner),
            x0 == inner.x + 1,
            label_xs@.len() == k,
            forall|j: int|
                0 <= j < k ==> #[trigger] label_xs@[j] == x0 + (layout.labels@[j].col as u16),
        decreases layout.labels@.len() - k,
    {
        label_xs.push(x0 + layout.labels[k].col as u16);
        k += 1;
    }
    let marker_x = x0 + layout.centers[layout.selected] as u16;
    PanelSpots {
        x0,
        track_width,
        smarter_x,
        label_xs,
        marker_x,
        ends_y: inner.y + 1,
        track_y: inner.y + 2,
        labels_y: inner.y + 3,
        marker_y: inner.y + 4,
        description_ys: (inner.y + 6, inner.y + 7),
        controls_y: inner.y + 9,
    }
}

} // verus!
