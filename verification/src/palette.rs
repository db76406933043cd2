//! The selector's colours: the swatches, the colour and weight of each kind
//! of label, and the accent of the marker under each level.

use vstd::prelude::*;

use crate::layout::{label_style, LabelStyle};
use crate::level::EffortLevel;

verus! {

/// A colour of the selector.
#[derive(Clone, Copy, Debug, PartialEq, Eq, Structural)]
pub enum Swatch {
    /// Signature ultracode/xhigh purple.
    Purple,
    /// Brighter purple for the selected ultracode label and its marker.
    PurpleBright,
    /// Dimmer purple for the unselected ultracode label and the "Smarter" end.
    PurpleDim,
    /// Highlight for the selected (non-special) label.
    SelectedFg,
    /// Gray for unselected labels and the description.
    DimFg,
    /// The horizontal track line and the divider.
    TrackFg,
    /// The "Faster" end label.
    FasterFg,
    /// Very dark purple wash behind the ultracode spectrum.
    SpectrumBg,
    /// Warm amber of the marker under `max`.
    Amber,
}

/// The red, green and blue components of a swatch.
pub open spec fn swatch_rgb(s: Swatch) -> (u8, u8, u8) {
    match s {
        Swatch::Purple => (168, 85, 247),
        Swatch::PurpleBright => (196, 138, 255),
        Swatch::PurpleDim => (150, 118, 205),
        Swatch::SelectedFg => (238, 238, 240),
        Swatch::DimFg => (120, 120, 130),
        Swatch::TrackFg => (90, 90, 104),
        Swatch::FasterFg => (120, 160, 200),
        Swatch::SpectrumBg => (24, 16, 40),
        Swatch::Amber => (255, 170, 60),
    }
}

impl Swatch {
    /// The red, green and blue components of this swatch.
    pub fn rgb(&self) -> (c: (u8, u8, u8))
        ensures
            c == swatch_rgb(*self),
    {
        match self {
            Swatch::Purple => (168, 85, 247),
            Swatch::PurpleBright => (196, 138, 255),
            Swatch::PurpleDim => (150, 118, 205),
            Swatch::SelectedFg => (238, 238, 240),
            Swatch::DimFg => (120, 120, 130),
            Swatch::TrackFg => (90, 90, 104),
            Swatch::FasterFg => (120, 160, 200),
            Swatch::SpectrumBg => (24, 16, 40),
            Swatch::Amber => (255, 170, 60),
        }
    }
}

/// The foreground of a kind of label; `None` for the rainbow, whose every
/// character has its own hue.
pub open spec fn label_fg(style: LabelStyle) -> Option<Swatch> {
    match style {
        LabelStyle::Divider => Some(Swatch::TrackFg),
        LabelStyle::Dim => Some(Swatch::DimFg),
        LabelStyle::Highlight => Some(Swatch::SelectedFg),
        LabelStyle::XHighlight => Some(Swatch::Purple),
        LabelStyle::Rainbow => None,
        LabelStyle::UltracodeSelected => Some(Swatch::PurpleBright),
        LabelStyle::UltracodeDim => Some(Swatch::PurpleDim),
    }
}

/// Whether a kind of label is drawn bold: the selected label in every form.
pub open spec fn label_bold(style: LabelStyle) -> bool {
    match style {
        LabelStyle::Highlight | LabelStyle::XHighlight | LabelStyle::Rainbow
        | LabelStyle::UltracodeSelected => true,
        _ => false,
    }
}

/// The foreground of a kind of label.
pub fn label_color(style: LabelStyle) -> (c: Option<Swatch>)
    ensures
        c == label_fg(style),
{
    match style {
        LabelStyle::Divider => Some(Swatch::TrackFg),
        LabelStyle::Dim => Some(Swatch::DimFg),
        LabelStyle::Highlight => Some(Swatch::SelectedFg),
        LabelStyle::XHighlight => Some(Swatch::Purple),
        LabelStyle::Rainbow => None,
        LabelStyle::UltracodeSelected => Some(Swatch::PurpleBright),
        LabelStyle::UltracodeDim => Some(Swatch::PurpleDim),
    }
}

/// Whether a kind of label is drawn bold.
pub fn label_is_bold(style: LabelStyle) -> (b: bool)
    ensures
        b == label_bold(style),
{
    match style {
        LabelStyle::Highlight | LabelStyle::XHighlight | LabelStyle::Rainbow
        | LabelStyle::UltracodeSelected => true,
        _ => false,
    }
}

/// The accent of each level's marker.
pub open spec fn level_accent(level: EffortLevel) -> Swatch {
    match level {
        EffortLevel::XHigh => Swatch::Purple,
        EffortLevel::Max => Swatch::Amber,
        EffortLevel::Ultracode => Swatch::PurpleBright,
        _ => Swatch::SelectedFg,
    }
}

/// The accent colour for a level's marker. It matches the colour of the
/// level's selected label; `max`, whose selected label is a rainbow, gets amber.
pub fn accent_for(level: EffortLevel) -> (a: Swatch)
    ensures
        a == level_accent(level),
        level != EffortLevel::Max ==> label_fg(label_style(level, true)) == Some(a),
{
    match level {
        EffortLevel::XHigh => Swatch::Purple,
        EffortLevel::Max => Swatch::Amber,
        EffortLevel::Ultracode => Swatch::PurpleBright,
        _ => Swatch::SelectedFg,
    }
}


/// The marker under `low`, `medium` and `high` has the plain highlight
/// colour (238, 238, 240); purple (168, 85, 247) marks only `xhigh`, amber
/// (255, 170, 60) only `max` and bright purple (196, 138, 255) only
/// ultracode. The selected `low`, `medium` and `high` labels are bold in the
/// plain highlight colour and the selected `xhigh` label bold in purple.
pub proof fn lemma_marker_accents(level: EffortLevel)
    ensures
        (level == EffortLevel::Low || level == EffortLevel::Medium || level == EffortLevel::High)
            ==> level_accent(level) == Swatch::SelectedFg && swatch_rgb(level_accent(level)) == (
            238u8,
            238u8,
            240u8,
        ),
        level_accent(level) == Swatch::Purple <==> level == EffortLevel::XHigh,
        level_accent(level) == Swatch::Amber <==> level == EffortLevel::Max,
        level_accent(level) == Swatch::PurpleBright <==> level == EffortLevel::Ultracode,
        level == EffortLevel::XHigh ==> swatch_rgb(level_accent(level)) == (168u8, 85u8, 247u8),
        level == EffortLevel::Max ==> swatch_rgb(level_accent(level)) == (255u8, 170u8, 60u8),
        level == EffortLevel::Ultracode ==> swatch_rgb(level_accent(level)) == (
            196u8,
            138u8,
            255u8,
        ),
        (level == EffortLevel::Low || level == EffortLevel::Medium || level == EffortLevel::High)
            ==> label_fg(label_style(level, true)) == Some(Swatch::SelectedFg) && label_bold(
            label_style(level, true),
        ),
        level == EffortLevel::XHigh ==> label_fg(label_style(level, true)) == Some(Swatch::Purple)
            && label_bold(label_style(level, true)),
{
}

} // verus!
