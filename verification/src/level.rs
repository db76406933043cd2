//! Effort levels, their ascending rank, their labels, and the choice of the
//! selected index when the picker opens on a ladder.

use vstd::prelude::*;

verus! {

/// One rung of the effort ladder, from fastest to smartest.
#[derive(Clone, Copy, Debug, PartialEq, Eq, Structural)]
pub enum EffortLevel {
    Low,
    Medium,
    High,
    XHigh,
    Max,
    Ultracode,
}

/// Ascending ordering rank used for nearest-level selection.
pub open spec fn level_rank(level: EffortLevel) -> nat {
    match level {
        EffortLevel::Low => 0,
        EffortLevel::Medium => 1,
        EffortLevel::High => 2,
        EffortLevel::XHigh => 3,
        EffortLevel::Max => 4,
        EffortLevel::Ultracode => 5,
    }
}

/// The text shown for a level on the track.
pub open spec fn level_label(level: EffortLevel) -> Seq<char> {
    match level {
        EffortLevel::Low => seq!['l', 'o', 'w'],
        EffortLevel::Medium => seq!['m', 'e', 'd', 'i', 'u', 'm'],
        EffortLevel::High => seq!['h', 'i', 'g', 'h'],
        EffortLevel::XHigh => seq!['x', 'h', 'i', 'g', 'h'],
        EffortLevel::Max => seq!['m', 'a', 'x'],
        EffortLevel::Ultracode => seq!['u', 'l', 't', 'r', 'a', 'c', 'o', 'd', 'e'],
    }
}

impl EffortLevel {
    /// The label of this level, as drawn on the track.
    pub fn label(&self) -> (s: &'static str)
        ensures
            s@ == level_label(*self),
    {
        match self {
            EffortLevel::Low => {
                proof {
                    reveal_strlit("low");
                }
                "low"
            },
            EffortLevel::Medium => {
                proof {
                    reveal_strlit("medium");
                }
                "medium"
            },
            EffortLevel::High => {
                proof {
                    reveal_strlit("high");
                }
                "high"
            },
            EffortLevel::XHigh => {
                proof {
                    reveal_strlit("xhigh");
                }
                "xhigh"
            },
            EffortLevel::Max => {
                proof {
                    reveal_strlit("max");
                }
                "max"
            },
            EffortLevel::Ultracode => {
                proof {
                    reveal_strlit("ultracode");
                }
                "ultracode"
            },
        }
    }

    /// Whether this is the workflow level that is fenced off from the native ladder.
    pub fn is_ultracode(&self) -> (b: bool)
        ensures
            b == (*self == EffortLevel::Ultracode),
    {
        match self {
            EffortLevel::Ultracode => true,
            _ => false,
        }
    }
}

/// Ascending ordering rank used for nearest-level selection.
pub fn rank(level: EffortLevel) -> (r: u8)
    ensures
        r == level_rank(level),
{
    match level {
        EffortLevel::Low => 0,
        EffortLevel::Medium => 1,
        EffortLevel::High => 2,
        EffortLevel::XHigh => 3,
        EffortLevel::Max => 4,
        EffortLevel::Ultracode => 5,
    }
}


/// The ladder used when a model reports none.
pub open spec fn default_ladder() -> Seq<EffortLevel> {
    seq![EffortLevel::Low, EffortLevel::Medium, EffortLevel::High, EffortLevel::Ultracode]
}

/// The sane default ladder: the three classic levels and ultracode.
pub fn default_levels() -> (v: Vec<EffortLevel>)
    ensures
        v@ == default_ladder(),
{
    vec![EffortLevel::Low, EffortLevel::Medium, EffortLevel::High, EffortLevel::Ultracode]
}

/// `levels[i]` exists and is at or below `current` by rank.
pub open spec fn fits_below(levels: Seq<EffortLevel>, current: EffortLevel, i: int) -> bool {
    0 <= i < levels.len() && level_rank(levels[i]) <= level_rank(current)
}

/// `i` is the index chosen for `current` within `levels`: the first exact
/// match if there is one; otherwise the last of the highest-ranked levels at
/// or below `current`; otherwise the first index.
pub open spec fn is_selection_for(levels: Seq<EffortLevel>, current: EffortLevel, i: int) -> bool {
    if levels.contains(current) {
        &&& 0 <= i < levels.len()
        &&& levels[i] == current
        &&& forall|j: int| 0 <= j < i ==> levels[j] != current
    } else if exists|j: int| #[trigger] fits_below(levels, current, j) {
        &&& fits_below(levels, current, i)
        &&& forall|j: int| #[trigger]
            fits_below(levels, current, j) ==> level_rank(levels[j]) <= level_rank(levels[i])
        &&& forall|j: int|
            i < j && #[trigger] fits_below(levels, current, j) ==> level_rank(levels[j]) < level_rank(
                levels[i],
            )
    } else {
        i == 0
    }
}

/// Choose the selected index for `current` within `levels`: an exact match if
/// present, otherwise the nearest level at or below it by rank, else the first.
pub fn index_for(levels: &[EffortLevel], current: EffortLevel) -> (r: usize)
    ensures
        is_selection_for(levels@, current, r as int),
{
    let mut i: usize = 0;
    while i < levels.len()
        invariant
            i <= levels@.len(),
            forall|j: int| 0 <= j < i ==> levels@[j] != current,
        decreases levels@.len() - i,
    {
        if levels[i] == current {
            return i;
        }
        i += 1;
    }
    assert(!levels@.contains(current));
    let want = rank(current);
    let mut best: usize = 0;
    let mut best_rank: u8 = 0;
    let mut k: usize = 0;
    while k < levels.len()
        invariant
            k <= levels@.len(),
            !levels@.contains(current),
            want == level_rank(current),
            (exists|j: int| 0 <= j < k && #[trigger] fits_below(levels@, current, j)) ==> {
                &&& best < k
                &&& fits_below(levels@, current, best as int)
                &&& best_rank == level_rank(levels@[best as int])
                &&& forall|j: int|
                    0 <= j < k && #[trigger] fits_below(levels@, current, j) ==> level_rank(
                        levels@[j],
                    ) <= best_rank
                &&& forall|j: int|
                    best < j < k && #[trigger] fits_below(levels@, current, j) ==> level_rank(
                        levels@[j],
                    ) < best_rank
            },
            !(exists|j: int| 0 <= j < k && #[trigger] fits_below(levels@, current, j)) ==> best
                == 0 && best_rank == 0,
        decreases levels@.len() - k,
    {
        let r = rank(levels[k]);
        if r <= want && r >= best_rank {
            best = k;
            best_rank = r;
        }
        assert(fits_below(levels@, current, k as int) <==> r <= want);
        k += 1;
    }
    assert forall|j: int| #[trigger] fits_below(levels@, current, j) implies 0 <= j < levels@.len() by {}
    best
}

/// `level` is the model's top native effort on `levels`: a level of the
/// ladder other than ultracode, ranked at least as high as every other such
/// level.
pub open spec fn is_top_native(levels: Seq<EffortLevel>, level: EffortLevel) -> bool {
    &&& levels.contains(level)
    &&& level != EffortLevel::Ultracode
    &&& forall|j: int|
        0 <= j < levels.len() && levels[j] != EffortLevel::Ultracode ==> level_rank(
            #[trigger] levels[j],
        ) <= level_rank(level)
}

/// The label of the model's top native effort: the highest-ranked level of
/// the ladder that is not ultracode, or `max` when there is none.
pub open spec fn top_native(levels: Seq<EffortLevel>) -> Seq<char> {
    if exists|level: EffortLevel| is_top_native(levels, level) {
        level_label(choose|level: EffortLevel| is_top_native(levels, level))
    } else {
        seq!['m', 'a', 'x']
    }
}

proof fn lemma_top_native_of(levels: Seq<EffortLevel>, level: EffortLevel)
    requires
        is_top_native(levels, level),
    ensures
        top_native(levels) == level_label(level),
{
    let c = choose|l: EffortLevel| is_top_native(levels, l);
    assert(is_top_native(levels, c));
    let i = choose|i: int| 0 <= i < levels.len() && levels[i] == level;
    let k = choose|k: int| 0 <= k < levels.len() && levels[k] == c;
    assert(level_rank(levels[i]) <= level_rank(c));
    assert(level_rank(levels[k]) <= level_rank(level));
    assert(c == level);
}

/// On a ladder in ascending rank order, the top native label is the label of
/// the last level that is not ultracode; on any ladder it is `max` when every
/// level is ultracode.
pub proof fn lemma_top_native_on_ascending_ladder(levels: Seq<EffortLevel>, i: int)
    ensures
        (forall|a: int, b: int|
            0 <= a <= b < levels.len() ==> level_rank(levels[a]) <= level_rank(levels[b])) && 0
            <= i < levels.len() && levels[i] != EffortLevel::Ultracode && (forall|j: int|
            i < j < levels.len() ==> levels[j] == EffortLevel::Ultracode) ==> top_native(levels)
            == level_label(levels[i]),
        (forall|j: int| 0 <= j < levels.len() ==> levels[j] == EffortLevel::Ultracode)
            ==> top_native(levels) == seq!['m', 'a', 'x'],
{
    if (forall|a: int, b: int|
        0 <= a <= b < levels.len() ==> level_rank(levels[a]) <= level_rank(levels[b])) && 0 <= i
        < levels.len() && levels[i] != EffortLevel::Ultracode && (forall|j: int|
        i < j < levels.len() ==> levels[j] == EffortLevel::Ultracode) {
        assert forall|j: int|
            0 <= j < levels.len() && levels[j] != EffortLevel::Ultracode implies level_rank(
            #[trigger] levels[j],
        ) <= level_rank(levels[i]) by {
            assert(j <= i);
        }
        assert(levels.contains(levels[i]));
        lemma_top_native_of(levels, levels[i]);
    }
    if forall|j: int| 0 <= j < levels.len() ==> levels[j] == EffortLevel::Ultracode {
        if exists|level: EffortLevel| is_top_native(levels, level) {
            let l = choose|level: EffortLevel| is_top_native(levels, level);
            let k = choose|k: int| 0 <= k < levels.len() && levels[k] == l;
            assert(levels[k] == EffortLevel::Ultracode);
        }
    }
}

/// The label of the highest non-ultracode level in `levels` (the model's top
/// native effort), used to describe ultracode as "<top> + workflows".
pub fn top_native_label(levels: &[EffortLevel]) -> (s: &'static str)
    ensures
        s@ == top_native(levels@),
{
    let mut found = false;
    let mut best = EffortLevel::Low;
    let mut i: usize = 0;
    while i < levels.len()
        invariant
            i <= levels@.len(),
            found ==> {
                &&& levels@.take(i as int).contains(best)
                &&& best != EffortLevel::Ultracode
                &&& forall|j: int|
                    0 <= j < i && levels@[j] != EffortLevel::Ultracode ==> level_rank(
                        #[trigger] levels@[j],
                    ) <= level_rank(best)
            },
            !found ==> forall|j: int| 0 <= j < i ==> levels@[j] == EffortLevel::Ultracode,
        decreases levels@.len() - i,
    {
        let l = levels[i];
        if !l.is_ultracode() && (!found || rank(l) > rank(best)) {
            best = l;
            found = true;
            assert(levels@.take(i + 1)[i as int] == l);
        } else if found {
            let ghost k = choose|k: int| 0 <= k < i && levels@.take(i as int)[k] == best;
            assert(levels@.take(i + 1)[k] == best);
        }
        i += 1;
    }
    assert(levels@.take(levels@.len() as int) =~= levels@);
    if found {
        proof {
            lemma_top_native_of(levels@, best);
        }
        best.label()
    } else {
        proof {
            lemma_top_native_on_ascending_ladder(levels@, 0);
            reveal_strlit("max");
        }
        "max"
    }
}

/// The description shown for a level once it is selected. Ultracode is
/// described from the ladder's top native effort: "<top> + workflows: ...".
pub open spec fn description(level: EffortLevel, levels: Seq<EffortLevel>) -> Seq<char> {
    match level {
        EffortLevel::Low => "Fastest, most direct responses. Best for simple edits and quick questions."@,
        EffortLevel::Medium => "Balanced reasoning and speed \u{2014} a solid default for everyday work."@,
        EffortLevel::High => "Deeper, more careful reasoning for trickier, multi-step problems."@,
        EffortLevel::XHigh => "Extended thinking budget for hard problems that need more deliberation."@,
        EffortLevel::Max => "May use excessive tokens resulting in long response times or overthinking. Use sparingly for the hardest tasks."@,
        EffortLevel::Ultracode => top_native(levels)
            + " + workflows: bounded delegation across native primitives with verification."@,
    }
}

/// The description shown for the selected level. Ultracode's description is
/// derived from the model's top native effort: "<top> + workflows".
pub fn level_description(level: EffortLevel, levels: &[EffortLevel]) -> (s: String)
    ensures
        s@ == description(level, levels@),
{
    match level {
        EffortLevel::Low => String::from_str(
            "Fastest, most direct responses. Best for simple edits and quick questions.",
        ),
        EffortLevel::Medium => String::from_str(
            "Balanced reasoning and speed \u{2014} a solid default for everyday work.",
        ),
        EffortLevel::High => String::from_str(
            "Deeper, more careful reasoning for trickier, multi-step problems.",
        ),
        EffortLevel::XHigh => String::from_str(
            "Extended thinking budget for hard problems that need more deliberation.",
        ),
        EffortLevel::Max => String::from_str(
            "May use excessive tokens resulting in long response times or overthinking. Use sparingly for the hardest tasks.",
        ),
        EffortLevel::Ultracode => {
            let mut s = String::from_str(top_native_label(levels));
            s.append(" + workflows: bounded delegation across native primitives with verification.");
            s
        },
    }
}


proof fn lemma_top_native_exists(levels: Seq<EffortLevel>)
    requires
        exists|j: int| 0 <= j < levels.len() && levels[j] != EffortLevel::Ultracode,
    ensures
        exists|level: EffortLevel| is_top_native(levels, level),
    decreases levels.len(),
{
    let rest = levels.drop_last();
    let last = levels.last();
    if exists|j: int| 0 <= j < rest.len() && rest[j] != EffortLevel::Ultracode {
        lemma_top_native_exists(rest);
        let t = choose|level: EffortLevel| is_top_native(rest, level);
        let k = choose|k: int| 0 <= k < rest.len() && rest[k] == t;
        assert(levels[k] == t);
        let best = if last != EffortLevel::Ultracode && level_rank(last) > level_rank(t) {
            last
        } else {
            t
        };
        assert forall|j: int|
            0 <= j < levels.len() && levels[j] != EffortLevel::Ultracode implies level_rank(
            #[trigger] levels[j],
        ) <= level_rank(best) by {
            if j < rest.len() {
                assert(rest[j] == levels[j]);
            }
        }
        if best == last {
            assert(levels[levels.len() - 1] == last);
        }
        assert(is_top_native(levels, best));
    } else {
        let j = choose|j: int| 0 <= j < levels.len() && levels[j] != EffortLevel::Ultracode;
        if j < rest.len() {
            assert(rest[j] == levels[j]);
        }
        assert(levels[levels.len() - 1] == last);
        assert forall|i: int|
            0 <= i < levels.len() && levels[i] != EffortLevel::Ultracode implies level_rank(
            #[trigger] levels[i],
        ) <= level_rank(last) by {
            if i < rest.len() {
                assert(rest[i] == levels[i]);
            }
        }
        assert(is_top_native(levels, last));
    }
}

/// Ultracode is described from the ladder's highest-ranked level other than
/// ultracode: its label followed by " + workflows: ...". A ladder offering
/// any native level has such a top level, and a ladder of ultracode alone is
/// described from `max`.
pub proof fn lemma_ultracode_description(levels: Seq<EffortLevel>, top: EffortLevel)
    ensures
        is_top_native(levels, top) ==> description(EffortLevel::Ultracode, levels) == level_label(
            top,
        ) + " + workflows: bounded delegation across native primitives with verification."@,
        (exists|j: int| 0 <= j < levels.len() && levels[j] != EffortLevel::Ultracode) ==> exists|
            level: EffortLevel,
        | is_top_native(levels, level),
        (forall|j: int| 0 <= j < levels.len() ==> levels[j] == EffortLevel::Ultracode)
            ==> description(EffortLevel::Ultracode, levels) == "max"@
            + " + workflows: bounded delegation across native primitives with verification."@,
{
    reveal_strlit("max");
    if is_top_native(levels, top) {
        lemma_top_native_of(levels, top);
    }
    if exists|j: int| 0 <= j < levels.len() && levels[j] != EffortLevel::Ultracode {
        lemma_top_native_exists(levels);
    }
    lemma_top_native_on_ascending_ladder(levels, 0);
}

/// The label of the top native level is never ultracode's, and no level of
/// the ladder other than ultracode outranks it.
pub proof fn lemma_top_native_is_highest(levels: Seq<EffortLevel>, top: EffortLevel, j: int)
    requires
        is_top_native(levels, top),
        0 <= j < levels.len(),
        levels[j] != EffortLevel::Ultracode,
    ensures
        top != EffortLevel::Ultracode,
        level_rank(levels[j]) <= level_rank(top),
        top_native(levels) == level_label(top),
        levels.contains(top),
{
    lemma_top_native_of(levels, top);
}

} // verus!
