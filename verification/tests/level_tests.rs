use effort_picker::{
    default_levels, index_for, level_description, rank, top_native_label, EffortLevel,
};

#[test]
fn ranks_ascend_from_low_to_ultracode() {
    assert_eq!(rank(EffortLevel::Low), 0);
    assert_eq!(rank(EffortLevel::Medium), 1);
    assert_eq!(rank(EffortLevel::High), 2);
    assert_eq!(rank(EffortLevel::XHigh), 3);
    assert_eq!(rank(EffortLevel::Max), 4);
    assert_eq!(rank(EffortLevel::Ultracode), 5);
}

#[test]
fn labels_and_ultracode_flag() {
    assert_eq!(EffortLevel::Low.label(), "low");
    assert_eq!(EffortLevel::Medium.label(), "medium");
    assert_eq!(EffortLevel::High.label(), "high");
    assert_eq!(EffortLevel::XHigh.label(), "xhigh");
    assert_eq!(EffortLevel::Max.label(), "max");
    assert_eq!(EffortLevel::Ultracode.label(), "ultracode");
    assert!(EffortLevel::Ultracode.is_ultracode());
    assert!(!EffortLevel::Max.is_ultracode());
}

#[test]
fn default_ladder_is_low_medium_high_ultracode() {
    assert_eq!(
        default_levels(),
        vec![
            EffortLevel::Low,
            EffortLevel::Medium,
            EffortLevel::High,
            EffortLevel::Ultracode
        ]
    );
}

#[test]
fn index_for_picks_first_exact_match() {
    let levels = [
        EffortLevel::Low,
        EffortLevel::High,
        EffortLevel::High,
        EffortLevel::Ultracode,
    ];
    assert_eq!(index_for(&levels, EffortLevel::High), 1);
    assert_eq!(index_for(&levels, EffortLevel::Ultracode), 3);
}

#[test]
fn index_for_picks_last_of_the_highest_below() {
    let levels = [
        EffortLevel::Medium,
        EffortLevel::Low,
        EffortLevel::Medium,
        EffortLevel::Ultracode,
    ];
    assert_eq!(index_for(&levels, EffortLevel::Max), 2);
    assert_eq!(index_for(&levels, EffortLevel::High), 2);
}

#[test]
fn index_for_without_candidates_is_zero() {
    assert_eq!(index_for(&[], EffortLevel::High), 0);
    let levels = [EffortLevel::Max, EffortLevel::Ultracode];
    assert_eq!(index_for(&levels, EffortLevel::Medium), 0);
}

#[test]
fn top_native_label_is_highest_non_ultracode() {
    assert_eq!(
        top_native_label(&[
            EffortLevel::Low,
            EffortLevel::High,
            EffortLevel::Ultracode
        ]),
        "high"
    );
    assert_eq!(
        top_native_label(&[
            EffortLevel::High,
            EffortLevel::Low,
            EffortLevel::Ultracode
        ]),
        "high"
    );
    assert_eq!(
        top_native_label(&[EffortLevel::Max, EffortLevel::Low]),
        "max"
    );
    assert_eq!(
        top_native_label(&[
            EffortLevel::Ultracode,
            EffortLevel::Medium,
            EffortLevel::Low
        ]),
        "medium"
    );
    assert_eq!(top_native_label(&[EffortLevel::Ultracode]), "max");
    assert_eq!(top_native_label(&[]), "max");
}

#[test]
fn descriptions_of_native_levels() {
    assert_eq!(
        level_description(EffortLevel::Low, &[]),
        "Fastest, most direct responses. Best for simple edits and quick questions."
    );
    assert_eq!(
        level_description(EffortLevel::Medium, &[]),
        "Balanced reasoning and speed \u{2014} a solid default for everyday work."
    );
    assert_eq!(
        level_description(EffortLevel::High, &[]),
        "Deeper, more careful reasoning for trickier, multi-step problems."
    );
    assert_eq!(
        level_description(EffortLevel::XHigh, &[]),
        "Extended thinking budget for hard problems that need more deliberation."
    );
    assert_eq!(
        level_description(EffortLevel::Max, &[]),
        "May use excessive tokens resulting in long response times or overthinking. Use sparingly for the hardest tasks."
    );
}

#[test]
fn ultracode_description_names_top_native_level() {
    let levels = [
        EffortLevel::Low,
        EffortLevel::Medium,
        EffortLevel::High,
        EffortLevel::Ultracode,
    ];
    assert_eq!(
        level_description(EffortLevel::Ultracode, &levels),
        "high + workflows: bounded delegation across native primitives with verification."
    );
    assert_eq!(
        level_description(
            EffortLevel::Ultracode,
            &[EffortLevel::XHigh, EffortLevel::Medium, EffortLevel::Ultracode]
        ),
        "xhigh + workflows: bounded delegation across native primitives with verification."
    );
    assert_eq!(
        level_description(EffortLevel::Ultracode, &[EffortLevel::Ultracode]),
        "max + workflows: bounded delegation across native primitives with verification."
    );
}
