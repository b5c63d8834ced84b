//! The terminal level meter: a bar of 40 columns per channel that shows the
//! instantaneous peak and, to its right, the slowly falling smoothed peak.
//!
//! The caller scales the two levels to columns; this module lays the bar out
//! and renders it, with its colours, as one line of text.

use vstd::prelude::*;
use crate::style::{background, foreground, hex, is_hex_color, is_styled, on_hex};

verus! {

/// Columns of the bar.
pub const METER_WIDTH: usize = 40;

/// How loud the smoothed peak is, which decides the colour of its marker.
#[derive(Clone, Copy, Debug, PartialEq, Eq, Structural)]
pub enum MeterLevel {
    /// Below four fifths of full scale: green.
    Normal,
    /// From four fifths of full scale: yellow.
    High,
    /// At or over full scale: red.
    Clipping,
}

/// How many glyphs of each kind make up a bar.
#[derive(Clone, Copy, Debug, PartialEq, Eq, Structural)]
pub struct MeterLayout {
    /// Dark blocks below the peak.
    pub dark: usize,
    /// The white block at the peak, where the smoothed peak stands apart: 1 or 0.
    pub white: usize,
    /// Dim blocks between the peak and the smoothed peak.
    pub minor: usize,
    /// Whether the marker of the smoothed peak stands apart from the peak.
    pub split: bool,
    /// Blank columns after the marker.
    pub padding: usize,
}

/// The glyphs of a bar, each with its colours applied.
pub struct MeterGlyphs {
    pub left_edge: String,
    pub dark: String,
    pub white: String,
    pub minor: String,
    pub split_marker: String,
    pub full_marker: String,
    pub right_edge: String,
}

/// The column of a scaled level: the level itself, held to the last column.
pub open spec fn column_of(scaled: usize) -> usize {
    if scaled < METER_WIDTH {
        scaled
    } else {
        (METER_WIDTH - 1) as usize
    }
}

/// The layout of a bar with the peak in column `peak` and the smoothed peak
/// in column `smooth_peak`.
pub open spec fn layout_for(peak: usize, smooth_peak: usize) -> MeterLayout {
    if smooth_peak != peak {
        MeterLayout {
            dark: peak,
            white: 1,
            minor: (smooth_peak - peak - 1) as usize,
            split: true,
            padding: (METER_WIDTH - smooth_peak) as usize,
        }
    } else {
        MeterLayout {
            dark: peak,
            white: 0,
            minor: 0,
            split: false,
            padding: (METER_WIDTH - smooth_peak) as usize,
        }
    }
}

/// The number of columns that a layout fills between the two edges, the
/// marker counting as one.
pub open spec fn cells(layout: MeterLayout) -> int {
    layout.dark + layout.white + layout.minor + 1 + layout.padding
}

/// The bright colour of a level, as six hex digits.
pub open spec fn major_hex(level: MeterLevel) -> Seq<char> {
    match level {
        MeterLevel::Clipping => "ff0000"@,
        MeterLevel::High => "ffff00"@,
        MeterLevel::Normal => "00ff00"@,
    }
}

/// The dim colour of a level, as six hex digits.
pub open spec fn minor_hex(level: MeterLevel) -> Seq<char> {
    match level {
        MeterLevel::Clipping => "4b0000"@,
        MeterLevel::High => "4b4b00"@,
        MeterLevel::Normal => "004b00"@,
    }
}

/// `count` copies of `piece` in a row.
pub open spec fn repeated(piece: Seq<char>, count: nat) -> Seq<char>
    decreases count,
{
    if count == 0 {
        Seq::empty()
    } else {
        repeated(piece, (count - 1) as nat) + piece
    }
}

/// Each glyph is its character in the colours of `level`, or plain where
/// colours are off: the edges and the peak white, the blocks below the peak
/// grey, the blocks above it in the dim colour, the marker in the bright
/// colour, over the dim one where it stands apart from the peak.
pub open spec fn glyphs_styled(glyphs: MeterGlyphs, level: MeterLevel) -> bool {
    &&& is_styled(glyphs.left_edge@, "▕"@, foreground(), "ffffff"@)
    &&& is_styled(glyphs.dark@, "█"@, foreground(), "4b4b4b"@)
    &&& is_styled(glyphs.white@, "█"@, foreground(), "ffffff"@)
    &&& is_styled(glyphs.minor@, "█"@, foreground(), minor_hex(level))
    &&& exists|inner: Seq<char>|
        is_styled(inner, "▕"@, foreground(), major_hex(level)) && is_styled(
            glyphs.split_marker@,
            inner,
            background(),
            minor_hex(level),
        )
    &&& is_styled(glyphs.full_marker@, "▉"@, background(), major_hex(level))
    &&& is_styled(glyphs.right_edge@, "▏"@, foreground(), "ffffff"@)
}

/// The line of a meter: the channel's name, the left edge, the bar as laid
/// out, blank columns up to the full width, and the right edge.
pub open spec fn meter_text(name: Seq<char>, layout: MeterLayout, glyphs: MeterGlyphs) -> Seq<
    char,
> {
    name + " Channel: "@ + glyphs.left_edge@ + repeated(glyphs.dark@, layout.dark as nat)
        + repeated(glyphs.white@, layout.white as nat) + repeated(
        glyphs.minor@,
        layout.minor as nat,
    ) + (if layout.split {
        glyphs.split_marker@
    } else {
        glyphs.full_marker@
    }) + repeated(" "@, layout.padding as nat) + glyphs.right_edge@
}

/// Every bar is as wide as every other: the glyphs and the blank columns
/// together fill one column more than the width, whatever the two peaks.
pub proof fn lemma_meter_width(peak: usize, smooth_peak: usize)
    requires
        peak <= smooth_peak < METER_WIDTH,
    ensures
        cells(layout_for(peak, smooth_peak)) == METER_WIDTH + 1,
        layout_for(peak, smooth_peak).dark == peak,
        layout_for(peak, smooth_peak).padding >= 1,
{
}

/// Holds a scaled level to the columns of the bar.
pub fn meter_column(scaled: usize) -> (column: usize)
    ensures
        column == column_of(scaled),
        column < METER_WIDTH,
{
    if scaled < METER_WIDTH {
        scaled
    } else {
        METER_WIDTH - 1
    }
}

/// Lays a bar out.
pub fn meter_layout(peak: usize, smooth_peak: usize) -> (layout: MeterLayout)
    requires
        peak <= smooth_peak < METER_WIDTH,
    ensures
        layout == layout_for(peak, smooth_peak),
{
    if smooth_peak != peak {
        MeterLayout {
            dark: peak,
            white: 1,
            minor: smooth_peak - peak - 1,
            split: true,
            padding: METER_WIDTH - smooth_peak,
        }
    } else {
        MeterLayout { dark: peak, white: 0, minor: 0, split: false, padding: METER_WIDTH - smooth_peak }
    }
}

/// The bright colour of a level.
pub fn major_color(level: MeterLevel) -> (hex: &'static str)
    ensures
        hex@ == major_hex(level),
        is_hex_color(hex@),
{
    proof {
        reveal_strlit("ff0000");
        reveal_strlit("ffff00");
        reveal_strlit("00ff00");
    }
    match level {
        MeterLevel::Clipping => "ff0000",
        MeterLevel::High => "ffff00",
        MeterLevel::Normal => "00ff00",
    }
}

/// The dim colour of a level.
pub fn minor_color(level: MeterLevel) -> (hex: &'static str)
    ensures
        hex@ == minor_hex(level),
        is_hex_color(hex@),
{
    proof {
        reveal_strlit("4b0000");
        reveal_strlit("4b4b00");
        reveal_strlit("004b00");
    }
    match level {
        MeterLevel::Clipping => "4b0000",
        MeterLevel::High => "4b4b00",
        MeterLevel::Normal => "004b00",
    }
}

/// Appends `count` copies of `piece`.
fn push_repeated(line: &mut String, piece: &str, count: usize)
    ensures
        final(line)@ == old(line)@ + repeated(piece@, count as nat),
{
    let mut i: usize = 0;
    assert(line@ + repeated(piece@, 0) =~= line@);
    while i < count
        invariant
            i <= count,
            line@ == old(line)@ + repeated(piece@, i as nat),
        decreases count - i,
    {
        line.append(piece);
        i += 1;
        assert(old(line)@ + repeated(piece@, (i - 1) as nat) + piece@ =~= old(line)@ + repeated(
            piece@,
            i as nat,
        ));
    }
}

/// Puts the line of a meter together from its glyphs.
pub fn assemble_meter(name: &str, layout: &MeterLayout, glyphs: &MeterGlyphs) -> (line: String)
    ensures
        line@ == meter_text(name@, *layout, *glyphs),
{
    let mut line = String::new();
    line.append(name);
    line.append(" Channel: ");
    line.append(glyphs.left_edge.as_str());
    push_repeated(&mut line, glyphs.dark.as_str(), layout.dark);
    push_repeated(&mut line, glyphs.white.as_str(), layout.white);
    push_repeated(&mut line, glyphs.minor.as_str(), layout.minor);
    if layout.split {
        line.append(glyphs.split_marker.as_str());
    } else {
        line.append(glyphs.full_marker.as_str());
    }
    push_repeated(&mut line, " ", layout.padding);
    line.append(glyphs.right_edge.as_str());
    assert(line@ =~= meter_text(name@, *layout, *glyphs));
    line
}

/// Colours the glyphs of a bar for a level: the edges and the peak white, the
/// blocks below the peak grey, the blocks above it in the dim colour of the
/// level, the marker in its bright colour.
pub fn styled_glyphs(level: MeterLevel) -> (glyphs: MeterGlyphs)
    ensures
        glyphs_styled(glyphs, level),
{
    proof {
        reveal_strlit("ffffff");
        reveal_strlit("4b4b4b");
    }
    let major = major_color(level);
    let minor = minor_color(level);
    let inner = hex("▕", major);
    let split_marker = on_hex(inner.as_str(), minor);
    MeterGlyphs {
        left_edge: hex("▕", "ffffff"),
        dark: hex("█", "4b4b4b"),
        white: hex("█", "ffffff"),
        minor: hex("█", minor),
        split_marker,
        full_marker: on_hex("▉", major),
        right_edge: hex("▏", "ffffff"),
    }
}

/// Renders the meter of one channel: its name, then a bar with the peak in
/// column `peak` and the smoothed peak in column `smooth_peak`, coloured for
/// `level`.
pub fn render_meter(name: &str, peak: usize, smooth_peak: usize, level: MeterLevel) -> (line:
    String)
    requires
        peak <= smooth_peak < METER_WIDTH,
    ensures
        exists|glyphs: MeterGlyphs|
            glyphs_styled(glyphs, level) && line@ == #[trigger] meter_text(
                name@,
                layout_for(peak, smooth_peak),
                glyphs,
            ),
{
    let layout = meter_layout(peak, smooth_peak);
    let glyphs = styled_glyphs(level);
    assemble_meter(name, &layout, &glyphs)
}

} // verus!
