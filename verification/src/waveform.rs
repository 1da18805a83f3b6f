//! How a waveform is painted.
use vstd::prelude::*;

verus! {

/// The ways to paint a waveform.
#[derive(Debug, Clone, Copy, PartialEq, Eq, Structural)]
pub enum WaveformPaintMode {
    /// A line connecting all sample points. When a sample spans multiple
    /// pixels, it is drawn as a horizontal line segment.
    Line,
    /// A filled area showing all samples extending from the center axis,
    /// with no mirroring.
    Bar,
    /// A filled area showing samples extending from the center axis in both
    /// directions, mirrored symmetrically.
    BarSymmetric,
    /// A filled area showing absolute values of samples above the center axis.
    BarAbsolutePositive,
    /// A filled area showing absolute values of samples below the center axis.
    BarAbsoluteNegative,
}

/// The rows that a bar mode fills in one column of a waveform image, as a
/// range `start..end`: the centre row is `side_height_pixels`, and the value
/// reaches `value_y` rows from it, upwards when `non_negative`. The line mode
/// fills one row, which comes from the value itself, so it has no range.
pub fn filled_rows(
    mode: WaveformPaintMode,
    side_height_pixels: usize,
    value_y: usize,
    non_negative: bool,
) -> (r: Option<(usize, usize)>)
    requires
        value_y <= side_height_pixels,
        side_height_pixels + value_y <= usize::MAX,
    ensures
        r == match mode {
            WaveformPaintMode::Line => None,
            WaveformPaintMode::Bar => if non_negative {
                Some(((side_height_pixels - value_y) as usize, side_height_pixels))
            } else {
                Some((side_height_pixels, (side_height_pixels + value_y) as usize))
            },
            WaveformPaintMode::BarSymmetric => Some(
                ((side_height_pixels - value_y) as usize, (side_height_pixels + value_y) as usize),
            ),
            WaveformPaintMode::BarAbsolutePositive => Some(
                ((side_height_pixels - value_y) as usize, side_height_pixels),
            ),
            WaveformPaintMode::BarAbsoluteNegative => Some(
                (side_height_pixels, (side_height_pixels + value_y) as usize),
            ),
        },
{
    let center_y = side_height_pixels;
    match mode {
        WaveformPaintMode::Line => None,
        WaveformPaintMode::Bar => if non_negative {
            Some((center_y - value_y, center_y))
        } else {
            Some((center_y, center_y + value_y))
        },
        WaveformPaintMode::BarSymmetric => Some((center_y - value_y, center_y + value_y)),
        WaveformPaintMode::BarAbsolutePositive => Some((center_y - value_y, center_y)),
        WaveformPaintMode::BarAbsoluteNegative => Some((center_y, center_y + value_y)),
    }
}

} // verus!
