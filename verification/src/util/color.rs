use vstd::prelude::*;
use crate::raster::{Raster, RasterView};

verus! {

/// A colour of four 8-bit channels.
#[derive(Clone, Copy, PartialEq, Eq, Structural, Hash, Debug)]
pub struct Color {
    pub red: u8,
    pub green: u8,
    pub blue: u8,
    pub alpha: u8,
}

impl Color {
    pub fn new(red: u8, green: u8, blue: u8, alpha: u8) -> (r: Color)
        ensures
            r == (Color { red, green, blue, alpha }),
    {
        Color { red, green, blue, alpha }
    }
}

/// The colour of pixel `p` of an image, counting row by row.
pub open spec fn pixel_color(image: RasterView, p: int) -> Color {
    Color {
        red: image.data[4 * p],
        green: image.data[4 * p + 1],
        blue: image.data[4 * p + 2],
        alpha: image.data[4 * p + 3],
    }
}

/// The colours of the first `count` pixels of an image, each once, in the
/// order in which they first appear.
pub open spec fn distinct_colors(image: RasterView, count: nat) -> Seq<Color>
    decreases count,
{
    if count == 0 {
        Seq::empty()
    } else {
        let before = distinct_colors(image, (count - 1) as nat);
        let color = pixel_color(image, count - 1);
        if before.contains(color) {
            before
        } else {
            before.push(color)
        }
    }
}

/// The colours of an image, each once, in the order in which they first
/// appear.
pub open spec fn spec_colors_in_image(image: RasterView) -> Seq<Color> {
    distinct_colors(image, image.width * image.height)
}

/// Whether a colour is in a list.
fn holds(colors: &Vec<Color>, color: Color) -> (r: bool)
    ensures
        r == colors@.contains(color),
{
    let mut i: usize = 0;
    while i < colors.len()
        invariant
            i <= colors@.len(),
            forall|k: int| 0 <= k < i ==> colors@[k] != color,
        decreases colors@.len() - i,
    {
        if colors[i] == color {
            return true;
        }
        i += 1;
    }
    false
}

/// Lists the colours of an image.
pub fn colors_in_image(image: &Raster) -> (r: Vec<Color>)
    ensures
        r@ == spec_colors_in_image(image@),
{
    let data = image.data();
    let pixels: usize = data.len() / 4;
    assert(pixels == image@.width * image@.height) by (nonlinear_arith)
        requires
            pixels == data@.len() / 4,
            data@.len() == 4 * image@.width * image@.height,
    ;
    let mut colors: Vec<Color> = Vec::new();
    let mut p: usize = 0;
    while p < pixels
        invariant
            p <= pixels,
            data@ == image@.data,
            4 * pixels <= data@.len() <= usize::MAX,
            colors@ == distinct_colors(image@, p as nat),
        decreases pixels - p,
    {
        let color = Color::new(data[4 * p], data[4 * p + 1], data[4 * p + 2], data[4 * p + 3]);
        assert(color == pixel_color(image@, p as int));
        if !holds(&colors, color) {
            colors.push(color);
        }
        p += 1;
    }
    colors
}

} // verus!
