//! The horizontal, model-adaptive effort selector: the ladder of effort
//! levels, the picker's navigation state, the placement of the level labels
//! on the "Faster → Smarter" track, the wrapping of the level descriptions,
//! and the content and size of the picker panel. Drawing into a terminal
//! buffer lives outside this crate.

pub mod layout;
pub mod level;
pub mod palette;
pub mod panel;
pub mod picker;
pub mod plan;
pub mod wrap;

pub use layout::{layout_labels, styled_label, LabelStyle, PlacedText, SEP};
pub use level::{
    default_levels, index_for, level_description, rank, top_native_label, EffortLevel,
};
pub use picker::EffortPickerState;
pub use palette::{accent_for, label_color, label_is_bold, Swatch};
pub use panel::{centered_area, panel_geometry, panel_size, Area, PanelGeometry};
pub use plan::{panel_spots, picker_layout, PanelSpots, PickerLayout, CONTROLS, FASTER, SMARTER};
pub use wrap::{is_white_space_char, word_wrap};
