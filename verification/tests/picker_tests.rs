use effort_picker::{EffortLevel, EffortPickerState};

fn full_ladder() -> Vec<EffortLevel> {
    vec![
        EffortLevel::Low,
        EffortLevel::Medium,
        EffortLevel::High,
        EffortLevel::XHigh,
        EffortLevel::Max,
        EffortLevel::Ultracode,
    ]
}

fn state_with(levels: Vec<EffortLevel>, selected: usize) -> EffortPickerState {
    EffortPickerState {
        visible: true,
        levels,
        selected,
    }
}

#[test]
fn open_selects_current_and_clamps_navigation() {
    let mut s = EffortPickerState::new();
    s.open(EffortLevel::High, full_ladder());
    assert!(s.visible);
    assert_eq!(s.current(), EffortLevel::High);

    // ← past the start clamps at Low.
    for _ in 0..10 {
        s.select_prev();
    }
    assert_eq!(s.current(), EffortLevel::Low);
    // → past the end clamps at Ultracode.
    for _ in 0..20 {
        s.select_next();
    }
    assert_eq!(s.current(), EffortLevel::Ultracode);
    assert!(s.wants_animation());
}

#[test]
fn open_falls_back_to_nearest_available_level() {
    // Model without Max/XHigh; opening on Max lands on the highest native.
    let levels = vec![
        EffortLevel::Low,
        EffortLevel::Medium,
        EffortLevel::High,
        EffortLevel::Ultracode,
    ];
    let mut s = EffortPickerState::new();
    s.open(EffortLevel::Max, levels);
    assert_eq!(s.current(), EffortLevel::High);
}

#[test]
fn new_picker_is_hidden_and_empty() {
    let s = EffortPickerState::new();
    assert!(!s.visible);
    assert!(s.levels.is_empty());
    assert_eq!(s.selected, 0);
    assert_eq!(s.current(), EffortLevel::Medium);
    assert!(!s.wants_animation());
    let d = EffortPickerState::default();
    assert!(!d.visible);
    assert!(d.levels.is_empty());
    assert_eq!(d.selected, 0);
}

#[test]
fn open_with_empty_ladder_uses_default_ladder() {
    let mut s = EffortPickerState::new();
    s.open(EffortLevel::Medium, Vec::new());
    assert_eq!(
        s.levels,
        vec![
            EffortLevel::Low,
            EffortLevel::Medium,
            EffortLevel::High,
            EffortLevel::Ultracode
        ]
    );
    assert_eq!(s.selected, 1);
    assert_eq!(s.current(), EffortLevel::Medium);
}

#[test]
fn open_on_xhigh_without_it_lands_on_high() {
    let mut s = EffortPickerState::new();
    s.open(
        EffortLevel::XHigh,
        vec![EffortLevel::Low, EffortLevel::High, EffortLevel::Ultracode],
    );
    assert_eq!(s.selected, 1);
    assert_eq!(s.current(), EffortLevel::High);
}

#[test]
fn open_with_nothing_at_or_below_selects_first() {
    let mut s = EffortPickerState::new();
    s.open(
        EffortLevel::Low,
        vec![EffortLevel::High, EffortLevel::Max, EffortLevel::Ultracode],
    );
    assert_eq!(s.selected, 0);
    assert_eq!(s.current(), EffortLevel::High);
}

#[test]
fn open_on_ultracode_requests_animation_and_close_stops_it() {
    let mut s = EffortPickerState::new();
    s.open(EffortLevel::Ultracode, full_ladder());
    assert_eq!(s.selected, 5);
    assert!(s.wants_animation());
    s.close();
    assert!(!s.visible);
    assert_eq!(s.selected, 5);
    assert_eq!(s.current(), EffortLevel::Ultracode);
    assert!(!s.wants_animation());
}

#[test]
fn select_next_then_prev_returns_to_same_level() {
    let mut s = state_with(full_ladder(), 2);
    s.select_next();
    assert_eq!(s.current(), EffortLevel::XHigh);
    s.select_prev();
    assert_eq!(s.selected, 2);
    assert_eq!(s.current(), EffortLevel::High);
}

#[test]
fn select_next_on_empty_ladder_keeps_selection() {
    let mut s = state_with(Vec::new(), 7);
    s.select_next();
    assert_eq!(s.selected, 7);
    s.select_prev();
    assert_eq!(s.selected, 6);
}

#[test]
fn select_next_from_out_of_range_clamps_to_last() {
    let mut s = state_with(full_ladder(), 40);
    assert_eq!(s.current(), EffortLevel::Medium);
    s.select_next();
    assert_eq!(s.selected, 5);
    assert_eq!(s.current(), EffortLevel::Ultracode);
}

#[test]
fn hidden_picker_never_animates() {
    let mut s = state_with(full_ladder(), 5);
    assert!(s.wants_animation());
    s.visible = false;
    assert!(!s.wants_animation());
    let s2 = state_with(full_ladder(), 4);
    assert!(!s2.wants_animation());
}
