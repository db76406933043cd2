//! Placement of the level labels on the track: which column each label and
//! the ultracode divider start at, where the marker of each level sits, how
//! wide the row is, and how each label is styled.

use vstd::prelude::*;

use crate::level::{level_label, EffortLevel};

verus! {

/// Spaces between adjacent labels and around the divider.
pub const SEP: usize = 3;

/// How a piece of the label row is drawn; the terminal colours for each kind
/// are chosen by the drawing code.
#[derive(Clone, Copy, Debug, PartialEq, Eq, Structural)]
pub enum LabelStyle {
    /// The `│` fence between the native ladder and ultracode.
    Divider,
    /// An unselected native label (dim gray).
    Dim,
    /// The selected label of `low`, `medium` or `high` (bold, highlighted).
    Highlight,
    /// The selected `xhigh` label (bold purple).
    XHighlight,
    /// The selected `max` label (a bold per-character rainbow).
    Rainbow,
    /// The selected `ultracode` label (bright purple, bold).
    UltracodeSelected,
    /// The unselected `ultracode` label (dim purple).
    UltracodeDim,
}

/// A piece of text placed at a column of the label row.
#[derive(Clone, Copy, Debug)]
pub struct PlacedText {
    pub col: usize,
    pub text: &'static str,
    pub style: LabelStyle,
}

/// The column, text and style of a placed piece.
pub open spec fn placed_view(p: PlacedText) -> (nat, Seq<char>, LabelStyle) {
    (p.col as nat, p.text@, p.style)
}

/// The glyph of the divider.
pub open spec fn divider_glyph() -> Seq<char> {
    seq!['\u{2502}']
}

/// The style of a level's label, given whether it is the selected one.
pub open spec fn label_style(level: EffortLevel, selected: bool) -> LabelStyle {
    if level == EffortLevel::Ultracode {
        if selected {
            LabelStyle::UltracodeSelected
        } else {
            LabelStyle::UltracodeDim
        }
    } else if !selected {
        LabelStyle::Dim
    } else {
        match level {
            EffortLevel::XHigh => LabelStyle::XHighlight,
            EffortLevel::Max => LabelStyle::Rainbow,
            _ => LabelStyle::Highlight,
        }
    }
}

/// Width, in columns, of a level's label.
pub open spec fn label_width(level: EffortLevel) -> nat {
    level_label(level).len()
}

/// Blank columns in front of the `i`-th entry of the row (none before the first).
pub open spec fn gap_before(i: int) -> nat {
    if i == 0 {
        0
    } else {
        SEP as nat
    }
}

/// The column where the label of `levels[i]` starts when the row so far ends
/// at `base`: after the gap, and, for ultracode, after the divider and a
/// second gap.
pub open spec fn start_after(levels: Seq<EffortLevel>, i: int, base: nat) -> nat {
    if levels[i] == EffortLevel::Ultracode {
        base + gap_before(i) + 1 + SEP as nat
    } else {
        base + gap_before(i)
    }
}

/// The column just past the labels of the first `n` levels.
pub open spec fn prefix_width(levels: Seq<EffortLevel>, n: nat) -> nat
    decreases n,
{
    if n == 0 || n > levels.len() {
        0
    } else {
        let i = n - 1;
        start_after(levels, i, prefix_width(levels, i as nat)) + label_width(levels[i])
    }
}

/// The column where the label of `levels[i]` starts.
pub open spec fn label_start(levels: Seq<EffortLevel>, i: int) -> nat {
    start_after(levels, i, prefix_width(levels, i as nat))
}

/// The column of the divider drawn in front of an ultracode label.
pub open spec fn divider_col(levels: Seq<EffortLevel>, i: int) -> nat {
    prefix_width(levels, i as nat) + gap_before(i)
}

/// The column of the marker under the label of `levels[i]`: its middle.
pub open spec fn label_center(levels: Seq<EffortLevel>, i: int) -> nat {
    label_start(levels, i) + label_width(levels[i]) / 2
}

/// The placed pieces of the first `n` levels, in order: for each level its
/// divider, when it is ultracode, then its label.
pub open spec fn placements(levels: Seq<EffortLevel>, selected: int, n: nat) -> Seq<
    (nat, Seq<char>, LabelStyle),
>
    decreases n,
{
    if n == 0 || n > levels.len() {
        seq![]
    } else {
        let i = n - 1;
        let before = placements(levels, selected, i as nat);
        let fenced = if levels[i] == EffortLevel::Ultracode {
            before.push((divider_col(levels, i), divider_glyph(), LabelStyle::Divider))
        } else {
            before
        };
        fenced.push(
            (label_start(levels, i), level_label(levels[i]), label_style(levels[i], i == selected)),
        )
    }
}

/// Style a single level label. Non-selected labels are dim gray; the selected
/// one is highlighted, with `xhigh` bold purple, `max` a rainbow and
/// `ultracode` purple.
pub fn styled_label(level: EffortLevel, selected: bool) -> (s: LabelStyle)
    ensures
        s == label_style(level, selected),
{
    if level.is_ultracode() {
        if selected {
            return LabelStyle::UltracodeSelected;
        } else {
            return LabelStyle::UltracodeDim;
        }
    }
    if !selected {
        return LabelStyle::Dim;
    }
    match level {
        EffortLevel::XHigh => LabelStyle::XHighlight,
        EffortLevel::Max => LabelStyle::Rainbow,
        _ => LabelStyle::Highlight,
    }
}

proof fn lemma_prefix_width_bound(levels: Seq<EffortLevel>, n: nat)
    requires
        n <= levels.len(),
    ensures
        prefix_width(levels, n) <= 16 * n,
    decreases n,
{
    if n > 0 {
        lemma_prefix_width_bound(levels, (n - 1) as nat);
    }
}

/// The label row: the placed pieces (`(col, text, style)`), the centre
/// column of each level (for the marker), and the total width of the row.
pub fn layout_labels(levels: &[EffortLevel], selected: usize) -> (res: (
    Vec<PlacedText>,
    Vec<usize>,
    usize,
))
    requires
        levels@.len() <= usize::MAX / 16,
    ensures
        res.0@.len() == placements(levels@, selected as int, levels@.len()).len(),
        forall|k: int|
            0 <= k < res.0@.len() ==> placed_view(#[trigger] res.0@[k]) == placements(
                levels@,
                selected as int,
                levels@.len(),
            )[k],
        res.1@.len() == levels@.len(),
        forall|i: int| 0 <= i < levels@.len() ==> #[trigger] res.1@[i] == label_center(levels@, i),
        res.2 == prefix_width(levels@, levels@.len()),
{
    let mut placed: Vec<PlacedText> = Vec::new();
    let mut centers: Vec<usize> = Vec::new();
    let mut col: usize = 0;
    let mut i: usize = 0;
    while i < levels.len()
        invariant
            i <= levels@.len(),
            levels@.len() <= usize::MAX / 16,
            col == prefix_width(levels@, i as nat),
            placed@.len() == placements(levels@, selected as int, i as nat).len(),
            forall|k: int|
                0 <= k < placed@.len() ==> placed_view(#[trigger] placed@[k]) == placements(
                    levels@,
                    selected as int,
                    i as nat,
                )[k],
            centers@.len() == i,
            forall|k: int| 0 <= k < i ==> #[trigger] centers@[k] == label_center(levels@, k),
        decreases levels@.len() - i,
    {
        proof {
            lemma_prefix_width_bound(levels@, i as nat);
        }
        let lvl = levels[i];
        let ghost before = placed@;
        if lvl.is_ultracode() {
            if i != 0 {
                col = col + SEP;
            }
            proof {
                reveal_strlit("\u{2502}");
            }
            placed.push(PlacedText { col, text: "\u{2502}", style: LabelStyle::Divider });
            col = col + 1;
        }
        if i != 0 || lvl.is_ultracode() {
            col = col + SEP;
        }
        let text = lvl.label();
        let width = text.unicode_len();
        centers.push(col + width / 2);
        placed.push(PlacedText { col, text, style: styled_label(lvl, i == selected) });
        col = col + width;
        proof {
            let n = (i + 1) as nat;
            assert(prefix_width(levels@, n) == start_after(
                levels@,
                i as int,
                prefix_width(levels@, i as nat),
            ) + label_width(levels@[i as int]));
            let p = placements(levels@, selected as int, n);
            assert forall|k: int| 0 <= k < placed@.len() implies placed_view(#[trigger] placed@[k])
                == p[k] by {
                if k < before.len() {
                    assert(placed@[k] == before[k]);
                }
            }
        }
        i = i + 1;
    }
    (placed, centers, col)
}


proof fn lemma_prefix_width_monotone(levels: Seq<EffortLevel>, m: nat, n: nat)
    requires
        m <= n <= levels.len(),
    ensures
        prefix_width(levels, m) <= prefix_width(levels, n),
    decreases n - m,
{
    if m < n {
        lemma_prefix_width_monotone(levels, m, (n - 1) as nat);
    }
}

/// On the label row, the marker column of every level lies inside its label;
/// labels run left to right with at least `SEP` blank columns between
/// neighbours and end within the row's width; and an ultracode label that
/// follows other levels is fenced off by a divider lying strictly between the
/// previous label and it.
pub proof fn lemma_label_row_ordered(levels: Seq<EffortLevel>, i: int)
    requires
        0 <= i < levels.len(),
    ensures
        label_start(levels, i) <= label_center(levels, i) < label_start(levels, i) + label_width(
            levels[i],
        ),
        label_start(levels, i) + label_width(levels[i]) == prefix_width(levels, (i + 1) as nat),
        prefix_width(levels, (i + 1) as nat) <= prefix_width(levels, levels.len()),
        i + 1 < levels.len() ==> prefix_width(levels, (i + 1) as nat) + SEP <= label_start(
            levels,
            i + 1,
        ),
        levels[i] == EffortLevel::Ultracode && i > 0 ==> prefix_width(levels, i as nat)
            < divider_col(levels, i) < label_start(levels, i),
{
    lemma_prefix_width_monotone(levels, (i + 1) as nat, levels.len());
}


/// The label row's spacing: the first label starts at column 0, or at
/// column 4 after the divider when it is ultracode; each later label starts
/// 3 blank columns after the previous one, or 7 columns after it (a gap, the
/// divider, a gap) when it is ultracode; the row ends where its last label
/// ends; and each marker sits at the middle of its label.
pub proof fn lemma_label_gaps(levels: Seq<EffortLevel>, i: int)
    requires
        0 <= i < levels.len(),
    ensures
        i == 0 ==> label_start(levels, i) == (if levels[i] == EffortLevel::Ultracode {
            4int
        } else {
            0int
        }),
        i > 0 ==> label_start(levels, i) == label_start(levels, i - 1) + level_label(
            levels[i - 1],
        ).len() + (if levels[i] == EffortLevel::Ultracode {
            7int
        } else {
            3int
        }),
        levels[i] == EffortLevel::Ultracode ==> divider_col(levels, i) + 4 == label_start(
            levels,
            i,
        ),
        i == levels.len() - 1 ==> prefix_width(levels, levels.len()) == label_start(levels, i)
            + level_label(levels[i]).len(),
        label_center(levels, i) == label_start(levels, i) + level_label(levels[i]).len() / 2,
{
}

proof fn lemma_placements_prefix(levels: Seq<EffortLevel>, selected: int, n: nat, m: nat)
    requires
        n <= m <= levels.len(),
    ensures
        placements(levels, selected, n).len() <= placements(levels, selected, m).len(),
        forall|k: int|
            0 <= k < placements(levels, selected, n).len() ==> #[trigger] placements(
                levels,
                selected,
                m,
            )[k] == placements(levels, selected, n)[k],
    decreases m - n,
{
    if n < m {
        lemma_placements_prefix(levels, selected, n, (m - 1) as nat);
    }
}

/// Every ultracode level of the ladder is fenced off by the `│` divider:
/// the row holds a divider piece immediately followed by the ultracode label,
/// the label starting one divider cell and `SEP` blank columns after it, and
/// the divider itself `SEP` columns after the previous label (or at column 0
/// when ultracode comes first).
pub proof fn lemma_ultracode_fenced(levels: Seq<EffortLevel>, selected: int, i: int)
    requires
        0 <= i < levels.len(),
        levels[i] == EffortLevel::Ultracode,
    ensures
        exists|k: int|
            {
                &&& 0 <= k
                &&& k + 1 < placements(levels, selected, levels.len()).len()
                &&& #[trigger] placements(levels, selected, levels.len())[k] == (
                    divider_col(levels, i),
                    seq!['\u{2502}'],
                    LabelStyle::Divider,
                )
                &&& placements(levels, selected, levels.len())[k + 1] == (
                    label_start(levels, i),
                    seq!['u', 'l', 't', 'r', 'a', 'c', 'o', 'd', 'e'],
                    if i == selected {
                        LabelStyle::UltracodeSelected
                    } else {
                        LabelStyle::UltracodeDim
                    },
                )
                &&& placements(levels, selected, levels.len())[k].0 + 1 + SEP == placements(
                    levels,
                    selected,
                    levels.len(),
                )[k + 1].0
                &&& placements(levels, selected, levels.len())[k].0 == (if i == 0 {
                    0
                } else {
                    prefix_width(levels, i as nat) + SEP
                })
            },
{
    let n = (i + 1) as nat;
    let before = placements(levels, selected, i as nat);
    let k = before.len() as int;
    let here = placements(levels, selected, n);
    assert(here[k] == (divider_col(levels, i), divider_glyph(), LabelStyle::Divider));
    assert(here[k + 1] == (
        label_start(levels, i),
        level_label(levels[i]),
        label_style(levels[i], i == selected),
    ));
    lemma_placements_prefix(levels, selected, n, levels.len());
    let row = placements(levels, selected, levels.len());
    assert(row[k] == here[k]);
    assert(row[k + 1] == here[k + 1]);
}

/// Every divider piece of `row` is immediately followed by an ultracode label.
#[verifier::opaque]
pub open spec fn dividers_fenced(row: Seq<(nat, Seq<char>, LabelStyle)>) -> bool {
    forall|k: int|
        0 <= k < row.len() && (#[trigger] row[k]).2 == LabelStyle::Divider ==> {
            &&& k + 1 < row.len()
            &&& row[k + 1].1 == seq!['u', 'l', 't', 'r', 'a', 'c', 'o', 'd', 'e']
            &&& (row[k + 1].2 == LabelStyle::UltracodeSelected || row[k + 1].2
                == LabelStyle::UltracodeDim)
        }
}

proof fn lemma_push_keeps_fenced(
    before: Seq<(nat, Seq<char>, LabelStyle)>,
    piece: (nat, Seq<char>, LabelStyle),
)
    requires
        dividers_fenced(before),
        piece.2 != LabelStyle::Divider,
    ensures
        dividers_fenced(before.push(piece)),
{
    reveal(dividers_fenced);
    let row = before.push(piece);
    assert forall|k: int|
        0 <= k < row.len() && (#[trigger] row[k]).2 == LabelStyle::Divider implies {
        &&& k + 1 < row.len()
        &&& row[k + 1].1 == seq!['u', 'l', 't', 'r', 'a', 'c', 'o', 'd', 'e']
        &&& (row[k + 1].2 == LabelStyle::UltracodeSelected || row[k + 1].2
            == LabelStyle::UltracodeDim)
    } by {
        assert(row[k] == before[k]);
        if k + 1 < before.len() {
            assert(row[k + 1] == before[k + 1]);
        }
    }
}

proof fn lemma_push_fenced_pair(
    before: Seq<(nat, Seq<char>, LabelStyle)>,
    div: (nat, Seq<char>, LabelStyle),
    lbl: (nat, Seq<char>, LabelStyle),
)
    requires
        dividers_fenced(before),
        lbl.1 == seq!['u', 'l', 't', 'r', 'a', 'c', 'o', 'd', 'e'],
        lbl.2 == LabelStyle::UltracodeSelected || lbl.2 == LabelStyle::UltracodeDim,
    ensures
        dividers_fenced(before.push(div).push(lbl)),
{
    reveal(dividers_fenced);
    let row = before.push(div).push(lbl);
    assert forall|k: int|
        0 <= k < row.len() && (#[trigger] row[k]).2 == LabelStyle::Divider implies {
        &&& k + 1 < row.len()
        &&& row[k + 1].1 == seq!['u', 'l', 't', 'r', 'a', 'c', 'o', 'd', 'e']
        &&& (row[k + 1].2 == LabelStyle::UltracodeSelected || row[k + 1].2
            == LabelStyle::UltracodeDim)
    } by {
        if k < before.len() {
            assert(row[k] == before[k]);
            if k + 1 < before.len() {
                assert(row[k + 1] == before[k + 1]);
            }
        }
    }
}

proof fn lemma_dividers_fence_ultracode_upto(levels: Seq<EffortLevel>, selected: int, n: nat)
    requires
        n <= levels.len(),
    ensures
        dividers_fenced(placements(levels, selected, n)),
    decreases n,
{
    if n == 0 {
        reveal(dividers_fenced);
    } else {
        let i = n - 1;
        lemma_dividers_fence_ultracode_upto(levels, selected, i as nat);
        let before = placements(levels, selected, i as nat);
        let lbl = (
            label_start(levels, i),
            level_label(levels[i]),
            label_style(levels[i], i == selected),
        );
        if levels[i] == EffortLevel::Ultracode {
            let div = (divider_col(levels, i), divider_glyph(), LabelStyle::Divider);
            lemma_push_fenced_pair(before, div, lbl);
        } else {
            lemma_push_keeps_fenced(before, lbl);
        }
    }
}

/// Every divider on the label row fences off an ultracode label: it is
/// immediately followed by the `ultracode` label. With
/// `lemma_ultracode_fenced`, the row holds exactly one divider per
/// ultracode level.
pub proof fn lemma_dividers_fence_ultracode(levels: Seq<EffortLevel>, selected: int, k: int)
    requires
        0 <= k < placements(levels, selected, levels.len()).len(),
        placements(levels, selected, levels.len())[k].2 == LabelStyle::Divider,
    ensures
        k + 1 < placements(levels, selected, levels.len()).len(),
        placements(levels, selected, levels.len())[k + 1].1 == seq![
            'u',
            'l',
            't',
            'r',
            'a',
            'c',
            'o',
            'd',
            'e',
        ],
        placements(levels, selected, levels.len())[k + 1].2 == LabelStyle::UltracodeSelected
            || placements(levels, selected, levels.len())[k + 1].2 == LabelStyle::UltracodeDim,
{
    lemma_dividers_fence_ultracode_upto(levels, selected, levels.len());
    reveal(dividers_fenced);
}

/// How labels are styled: an unselected native label is dim; the selected
/// `low`, `medium` or `high` label is highlighted; the xhigh style, the
/// rainbow and the ultracode styles each belong to one level only, the first
/// two only when selected; and the divider style is never a label's.
pub proof fn lemma_label_styles(level: EffortLevel, selected: bool)
    ensures
        level != EffortLevel::Ultracode && !selected ==> label_style(level, selected)
            == LabelStyle::Dim,
        (level == EffortLevel::Low || level == EffortLevel::Medium || level == EffortLevel::High)
            && selected ==> label_style(level, selected) == LabelStyle::Highlight,
        label_style(level, selected) == LabelStyle::XHighlight ==> level == EffortLevel::XHigh
            && selected,
        level == EffortLevel::XHigh && selected ==> label_style(level, selected)
            == LabelStyle::XHighlight,
        label_style(level, selected) == LabelStyle::Rainbow <==> level == EffortLevel::Max
            && selected,
        label_style(level, selected) == LabelStyle::UltracodeSelected <==> level
            == EffortLevel::Ultracode && selected,
        label_style(level, selected) == LabelStyle::UltracodeDim <==> level
            == EffortLevel::Ultracode && !selected,
        label_style(level, selected) != LabelStyle::Divider,
{
}

} // verus!
