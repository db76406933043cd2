use effort_picker::{
    accent_for, label_color, label_is_bold, layout_labels, panel_spots, picker_layout,
    styled_label, Area, EffortLevel, EffortPickerState, LabelStyle, Swatch, CONTROLS, SEP,
};

fn full_ladder() -> Vec<EffortLevel> {
    vec![
        EffortLevel::Low,
        EffortLevel::Medium,
        EffortLevel::High,
        EffortLevel::XHigh,
        EffortLevel::Max,
        EffortLevel::Ultracode,
    ]
}

#[test]
fn full_ladder_label_row_places_divider_between_max_and_ultracode() {
    let (placed, centers, width) = layout_labels(&full_ladder(), 4);
    let row: Vec<(usize, &str, LabelStyle)> =
        placed.iter().map(|p| (p.col, p.text, p.style)).collect();
    assert_eq!(
        row,
        vec![
            (0, "low", LabelStyle::Dim),
            (6, "medium", LabelStyle::Dim),
            (15, "high", LabelStyle::Dim),
            (22, "xhigh", LabelStyle::Dim),
            (30, "max", LabelStyle::Rainbow),
            (36, "\u{2502}", LabelStyle::Divider),
            (40, "ultracode", LabelStyle::UltracodeDim),
        ]
    );
    assert_eq!(centers, vec![1, 9, 17, 24, 31, 44]);
    assert_eq!(width, 49);
    assert_eq!(SEP, 3);
}

#[test]
fn marker_center_lies_within_each_label() {
    let (placed, centers, _) = layout_labels(&full_ladder(), 1);
    let labels: Vec<_> = placed
        .iter()
        .filter(|p| p.style != LabelStyle::Divider)
        .collect();
    for (p, c) in labels.iter().zip(centers.iter()) {
        let w = p.text.chars().count();
        assert!(p.col <= *c && *c < p.col + w);
    }
    assert_eq!(labels[1].style, LabelStyle::Highlight);
}

#[test]
fn leading_ultracode_gets_divider_at_start() {
    let (placed, centers, width) =
        layout_labels(&[EffortLevel::Ultracode, EffortLevel::Low], 0);
    let row: Vec<(usize, &str, LabelStyle)> =
        placed.iter().map(|p| (p.col, p.text, p.style)).collect();
    assert_eq!(
        row,
        vec![
            (0, "\u{2502}", LabelStyle::Divider),
            (4, "ultracode", LabelStyle::UltracodeSelected),
            (16, "low", LabelStyle::Dim),
        ]
    );
    assert_eq!(centers, vec![8, 17]);
    assert_eq!(width, 19);
}

#[test]
fn empty_ladder_has_empty_row() {
    let (placed, centers, width) = layout_labels(&[], 0);
    assert!(placed.is_empty());
    assert!(centers.is_empty());
    assert_eq!(width, 0);
}

#[test]
fn label_styles_follow_selection() {
    assert_eq!(styled_label(EffortLevel::Low, false), LabelStyle::Dim);
    assert_eq!(styled_label(EffortLevel::Low, true), LabelStyle::Highlight);
    assert_eq!(styled_label(EffortLevel::XHigh, true), LabelStyle::XHighlight);
    assert_eq!(styled_label(EffortLevel::Max, true), LabelStyle::Rainbow);
    assert_eq!(styled_label(EffortLevel::Max, false), LabelStyle::Dim);
    assert_eq!(
        styled_label(EffortLevel::Ultracode, true),
        LabelStyle::UltracodeSelected
    );
    assert_eq!(
        styled_label(EffortLevel::Ultracode, false),
        LabelStyle::UltracodeDim
    );
}

#[test]
fn marker_accents() {
    assert_eq!(accent_for(EffortLevel::XHigh), Swatch::Purple);
    assert_eq!(accent_for(EffortLevel::Max), Swatch::Amber);
    assert_eq!(accent_for(EffortLevel::Ultracode), Swatch::PurpleBright);
    assert_eq!(accent_for(EffortLevel::Low), Swatch::SelectedFg);
    assert_eq!(accent_for(EffortLevel::XHigh).rgb(), (168, 85, 247));
    assert_eq!(accent_for(EffortLevel::Max).rgb(), (255, 170, 60));
    assert_eq!(accent_for(EffortLevel::Ultracode).rgb(), (196, 138, 255));
    assert_eq!(accent_for(EffortLevel::Medium).rgb(), (238, 238, 240));
    for l in [
        EffortLevel::Low,
        EffortLevel::Medium,
        EffortLevel::High,
        EffortLevel::XHigh,
        EffortLevel::Ultracode,
    ] {
        assert_eq!(label_color(styled_label(l, true)), Some(accent_for(l)));
    }
}

#[test]
fn label_colors_and_weights() {
    assert_eq!(label_color(LabelStyle::Divider), Some(Swatch::TrackFg));
    assert_eq!(label_color(LabelStyle::Dim), Some(Swatch::DimFg));
    assert_eq!(label_color(LabelStyle::Rainbow), None);
    assert_eq!(label_color(LabelStyle::UltracodeDim), Some(Swatch::PurpleDim));
    assert_eq!(Swatch::DimFg.rgb(), (120, 120, 130));
    assert_eq!(Swatch::SpectrumBg.rgb(), (24, 16, 40));
    assert!(label_is_bold(LabelStyle::Rainbow));
    assert!(label_is_bold(LabelStyle::Highlight));
    assert!(!label_is_bold(LabelStyle::Dim));
    assert!(!label_is_bold(LabelStyle::UltracodeDim));
}

#[test]
fn panel_spots_for_full_ladder() {
    let s = EffortPickerState {
        visible: true,
        levels: full_ladder(),
        selected: 1,
    };
    let l = picker_layout(&s).expect("visible picker has content");
    let spots = panel_spots(&l, Area { x: 14, y: 7, width: 51, height: 10 });
    assert_eq!(spots.x0, 15);
    assert_eq!(spots.track_width, 49);
    assert_eq!(spots.smarter_x, 15 + 42);
    assert_eq!(spots.label_xs, vec![15, 21, 30, 37, 45, 51, 55]);
    assert_eq!(spots.marker_x, 15 + 9);
    assert_eq!(spots.ends_y, 8);
    assert_eq!(spots.track_y, 9);
    assert_eq!(spots.labels_y, 10);
    assert_eq!(spots.marker_y, 11);
    assert_eq!(spots.description_ys, (13, 14));
    assert_eq!(spots.controls_y, 16);
}

#[test]
fn renders_model_levels_and_ultracode_after_divider() {
    // Max selected.
    let state = EffortPickerState {
        visible: true,
        levels: full_ladder(),
        selected: 4,
    };
    let l = picker_layout(&state).expect("label row present");
    for lbl in ["low", "medium", "high", "xhigh", "max"] {
        assert!(
            l.labels.iter().any(|p| p.text == lbl),
            "labels row missing {lbl}"
        );
    }
    // A divider must sit between `max` and `ultracode`.
    let max = l.labels.iter().find(|p| p.text == "max").unwrap();
    let max_end = max.col + "max".len();
    let uc = l.labels.iter().find(|p| p.text == "ultracode").unwrap().col;
    assert!(
        l.labels
            .iter()
            .any(|p| p.text == "\u{2502}" && max_end <= p.col && p.col < uc),
        "expected `\u{2502}` divider between max and ultracode"
    );
}

#[test]
fn marker_sits_under_selected_level() {
    // Select `medium`.
    let state = EffortPickerState {
        visible: true,
        levels: full_ladder(),
        selected: 1,
    };
    let l = picker_layout(&state).expect("marker row present");
    let marker_col = l.centers[l.selected];
    let start = l
        .labels
        .iter()
        .find(|p| p.text == "medium")
        .expect("medium in labels row")
        .col;
    let end = start + "medium".chars().count();
    assert!(
        marker_col >= start && marker_col < end,
        "marker col {marker_col} not within medium [{start}, {end})"
    );
}

#[test]
fn hidden_or_empty_picker_shows_nothing() {
    let mut s = EffortPickerState::new();
    assert!(picker_layout(&s).is_none());
    s.visible = true;
    assert!(picker_layout(&s).is_none());
    s.levels = full_ladder();
    s.visible = false;
    assert!(picker_layout(&s).is_none());
}

#[test]
fn panel_content_for_max_on_full_ladder() {
    let s = EffortPickerState {
        visible: true,
        levels: full_ladder(),
        selected: 4,
    };
    let l = picker_layout(&s).expect("visible picker has content");
    assert_eq!(l.selected, 4);
    assert_eq!(l.level, EffortLevel::Max);
    assert_eq!(l.content_width, 49);
    assert_eq!(l.body_width, 49);
    assert_eq!(l.centers[4], 31);
    assert_eq!(
        l.description,
        vec![
            "May use excessive tokens resulting in long".to_string(),
            "response times or overthinking. Use sparingly for".to_string(),
        ]
    );
    assert_eq!(l.labels.len(), 7);
}

#[test]
fn panel_clamps_out_of_range_selection_and_uses_controls_width() {
    let s = EffortPickerState {
        visible: true,
        levels: vec![
            EffortLevel::Low,
            EffortLevel::Medium,
            EffortLevel::High,
            EffortLevel::Ultracode,
        ],
        selected: 9,
    };
    let l = picker_layout(&s).expect("visible picker has content");
    assert_eq!(l.selected, 3);
    assert_eq!(l.level, EffortLevel::Ultracode);
    assert_eq!(l.content_width, 35);
    assert_eq!(CONTROLS.chars().count(), 48);
    assert_eq!(l.body_width, 48);
    assert_eq!(
        l.description,
        vec![
            "high + workflows: bounded delegation across".to_string(),
            "native primitives with verification.".to_string(),
        ]
    );
}
