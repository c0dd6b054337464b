use vstd::prelude::*;

/// Mapping of weighted candidate colors onto the 16 ANSI slots and the derived
/// special colors.
pub mod assign;
/// Output formats for a palette and the dispatch between them.
pub mod backends;
/// The 8-bit sRGB color, the fixed-point Oklch value and their text forms.
pub mod color;
/// K-means clustering of Lab pixels into weighted representative colors.
pub mod extract;
/// Terminal escape sequences that show a color.
pub mod preview;
/// Key handling of the interactive palette viewer.
pub mod tui;

verus! {

/// Selects which polarity of the base colors a palette uses.
#[derive(Clone, Copy, Debug, PartialEq, Eq, Structural)]
pub enum ThemeMode {
    Dark,
    Light,
}

} // verus!
