use effort_picker::{centered_area, panel_geometry, panel_size, Area};

#[test]
fn panel_size_fits_body_and_caps_rows() {
    assert_eq!(panel_size(49, 80, 24), (53, 12));
    assert_eq!(panel_size(48, 30, 10), (28, 8));
    assert_eq!(panel_size(48, 5, 3), (10, 6));
}

#[test]
fn centered_area_cuts_to_area() {
    let area = Area { x: 0, y: 0, width: 80, height: 24 };
    assert_eq!(
        centered_area(53, 12, area),
        Area { x: 13, y: 6, width: 53, height: 12 }
    );
    let small = Area { x: 2, y: 1, width: 8, height: 4 };
    assert_eq!(
        centered_area(10, 6, small),
        Area { x: 2, y: 1, width: 8, height: 4 }
    );
}

#[test]
fn panel_geometry_insets_border() {
    let g = panel_geometry(49, Area { x: 0, y: 0, width: 80, height: 24 });
    assert_eq!(g.panel, Area { x: 13, y: 6, width: 53, height: 12 });
    assert_eq!(g.inner, Area { x: 14, y: 7, width: 51, height: 10 });
    let tiny = panel_geometry(3, Area { x: 4, y: 4, width: 1, height: 0 });
    assert_eq!(tiny.panel, Area { x: 4, y: 4, width: 1, height: 0 });
    assert_eq!(tiny.inner, Area { x: 5, y: 4, width: 0, height: 0 });
}

#[test]
fn area_contains_only_inner_cells() {
    let a = Area { x: 14, y: 7, width: 51, height: 10 };
    assert!(a.contains(14, 7));
    assert!(a.contains(64, 16));
    assert!(!a.contains(65, 7));
    assert!(!a.contains(13, 7));
    assert!(!a.contains(14, 17));
}
