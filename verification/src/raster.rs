//! Raster images of four 8-bit channels (red, green, blue, alpha) per pixel,
//! stored row by row, and the pixel operations that the cutters build on.

use vstd::prelude::*;
use image::imageops;
use image::GenericImage;
use image::RgbaImage;

verus! {

/// What a raster image is: its size and its channel values, four to a pixel,
/// row by row from the top left.
pub struct RasterView {
    pub width: nat,
    pub height: nat,
    pub data: Seq<u8>,
}

/// What blending a pixel over another gives, both as four channel values:
/// the alpha compositing of the image library.
pub uninterp spec fn blend_px(bottom: Seq<u8>, top: Seq<u8>) -> Seq<u8>;

impl RasterView {
    /// The data holds four channel values for each pixel and nothing more.
    pub open spec fn wf(self) -> bool {
        self.data.len() == 4 * self.width * self.height
    }

    /// Channel `c` of the pixel in column `x` of row `y`.
    pub open spec fn channel(self, x: int, y: int, c: int) -> u8 {
        self.data[4 * (y * self.width + x) + c]
    }

    /// The four channel values of the pixel in column `x` of row `y`.
    pub open spec fn pixel(self, x: int, y: int) -> Seq<u8> {
        self.data.subrange(4 * (y * self.width + x), 4 * (y * self.width + x) + 4)
    }

    /// The column of the pixel that entry `k` of the data belongs to.
    pub open spec fn column_of(self, k: int) -> int {
        (k / 4) % (self.width as int)
    }

    /// The row of the pixel that entry `k` of the data belongs to.
    pub open spec fn row_of(self, k: int) -> int {
        (k / 4) / (self.width as int)
    }

    /// A fully transparent image: every channel of every pixel is zero.
    pub open spec fn blank(width: nat, height: nat) -> RasterView {
        RasterView { width, height, data: Seq::new(4 * width * height, |k: int| 0u8) }
    }

    /// The part of the image that lies in the rectangle with top left corner
    /// (`x`, `y`) and the given size. A rectangle that reaches over the
    /// right or the lower border is cut off there.
    pub open spec fn cropped(self, x: nat, y: nat, width: nat, height: nat) -> RasterView {
        let x0 = if x <= self.width {
            x
        } else {
            self.width
        };
        let y0 = if y <= self.height {
            y
        } else {
            self.height
        };
        let w0 = if width <= self.width - x0 {
            width
        } else {
            (self.width - x0) as nat
        };
        let h0 = if height <= self.height - y0 {
            height
        } else {
            (self.height - y0) as nat
        };
        RasterView {
            width: w0,
            height: h0,
            data: Seq::new(
                4 * w0 * h0,
                |k: int| self.channel(x0 + (k / 4) % (w0 as int), y0 + (k / 4) / (w0 as int), k % 4),
            ),
        }
    }

    /// Whether the pixel (`i`, `j`) of an image lies under `top`, placed
    /// with its top left corner at (`x`, `y`).
    pub open spec fn covered_by(top: RasterView, x: nat, y: nat, i: int, j: int) -> bool {
        x <= i < x + top.width && y <= j < y + top.height
    }

    /// The image with `top` placed over it at (`x`, `y`): each pixel under
    /// `top` is the pixel of `top`, each other pixel stays. What of `top`
    /// reaches over the border is left out.
    pub open spec fn replaced(self, top: RasterView, x: nat, y: nat) -> RasterView {
        RasterView {
            width: self.width,
            height: self.height,
            data: Seq::new(
                self.data.len(),
                |k: int|
                    if RasterView::covered_by(top, x, y, self.column_of(k), self.row_of(k)) {
                        top.channel(self.column_of(k) - x, self.row_of(k) - y, k % 4)
                    } else {
                        self.data[k]
                    },
            ),
        }
    }

    /// The image with `top` blended over it at (`x`, `y`): each pixel under
    /// `top` is the blend of the pixel of `top` over it, each other pixel
    /// stays. What of `top` reaches over the border is left out.
    pub open spec fn overlaid(self, top: RasterView, x: nat, y: nat) -> RasterView {
        RasterView {
            width: self.width,
            height: self.height,
            data: Seq::new(
                self.data.len(),
                |k: int|
                    if RasterView::covered_by(top, x, y, self.column_of(k), self.row_of(k)) {
                        blend_px(
                            self.pixel(self.column_of(k), self.row_of(k)),
                            top.pixel(self.column_of(k) - x, self.row_of(k) - y),
                        )[k % 4]
                    } else {
                        self.data[k]
                    },
            ),
        }
    }

    /// Whether `top`, placed at (`x`, `y`), lies within the image.
    pub open spec fn fits(self, top: RasterView, x: nat, y: nat) -> bool {
        x + top.width <= self.width && y + top.height <= self.height
    }
}

/// The number of channel values of an image of the given size.
pub fn channel_count(width: u32, height: u32) -> (r: u128)
    ensures
        r == 4 * width * height,
{
    assert(0 <= (width as int) * (height as int) <= 0xffff_ffff * 0xffff_ffff)
        by (nonlinear_arith)
        requires
            0 <= width <= 0xffff_ffff,
            0 <= height <= 0xffff_ffff,
    ;
    let pixels: u128 = (width as u128) * (height as u128);
    assert(4 * pixels == 4 * width * height) by (nonlinear_arith)
        requires
            pixels == width * height,
    ;
    4 * pixels
}

/// A raster image. It always holds exactly four channel values per pixel.
#[derive(Debug, PartialEq, Eq)]
pub struct Raster {
    width: u32,
    height: u32,
    data: Vec<u8>,
}

impl View for Raster {
    type V = RasterView;

    closed spec fn view(&self) -> RasterView {
        RasterView { width: self.width as nat, height: self.height as nat, data: self.data@ }
    }
}

impl Clone for Raster {
    fn clone(&self) -> (r: Raster)
        ensures
            r@ == self@,
    {
        proof {
            use_type_invariant(self);
        }
        let data = self.data.clone();
        assert(data@ =~= self.data@);
        Raster { width: self.width, height: self.height, data }
    }
}

impl Raster {
    /// Every image holds four channel values per pixel, and is as wide and
    /// as high as 32 bits can say.
    #[verifier::type_invariant]
    pub open spec fn four_channels_per_pixel(&self) -> bool {
        self@.wf() && self@.width <= u32::MAX && self@.height <= u32::MAX
    }

    /// An image of the given size over the given channel values; `None`
    /// where their number is not four times the number of pixels.
    pub fn new(width: u32, height: u32, data: Vec<u8>) -> (r: Option<Raster>)
        ensures
            r is Some <==> data@.len() == 4 * width * height,
            r matches Some(raster) ==> raster@ == (RasterView {
                width: width as nat,
                height: height as nat,
                data: data@,
            }),
    {
        let needed: u128 = channel_count(width, height);
        if data.len() as u128 == needed {
            Some(Raster { width, height, data })
        } else {
            None
        }
    }

    pub fn width(&self) -> (r: u32)
        ensures
            r == self@.width,
    {
        self.width
    }

    pub fn height(&self) -> (r: u32)
        ensures
            r == self@.height,
    {
        self.height
    }

    /// The channel values, four to a pixel, row by row.
    pub fn data(&self) -> (r: &Vec<u8>)
        ensures
            r@ == self@.data,
            self@.wf(),
    {
        proof {
            use_type_invariant(self);
        }
        &self.data
    }

    /// Whether two images have the same size and the same pixels.
    pub fn same_as(&self, other: &Raster) -> (r: bool)
        ensures
            r == (self@ == other@),
    {
        if self.width != other.width || self.height != other.height {
            return false;
        }
        let same = self.data == other.data;
        proof {
            if same {
                assert(self.data@ =~= other.data@);
            }
        }
        same
    }

    /// A fully transparent image of the given size, made by
    /// `image::ImageBuffer::new`, which fills a new buffer with zeros. The
    /// buffer has to fit the largest allocation.
    #[verifier::external_body]
    pub(crate) fn blank(width: u32, height: u32) -> (r: Raster)
        requires
            4 * width * height <= isize::MAX,
        ensures
            r@ == RasterView::blank(width as nat, height as nat),
    {
        let data = RgbaImage::new(width, height).into_raw();
        Raster { width, height, data }
    }

    /// A copy of a rectangle of the image, made by
    /// `image::imageops::crop_imm`, which cuts the rectangle off at the
    /// right and lower border, and `SubImage::to_image`, which copies the
    /// pixels of the view.
    #[verifier::external_body]
    pub(crate) fn crop_imm(&self, x: u32, y: u32, width: u32, height: u32) -> (r: Raster)
        ensures
            r@ == self@.cropped(x as nat, y as nat, width as nat, height as nat),
    {
        let source = RgbaImage::from_raw(self.width, self.height, self.data.clone()).unwrap();
        let cut = imageops::crop_imm(&source, x, y, width, height).to_image();
        Raster { width: cut.width(), height: cut.height(), data: cut.into_raw() }
    }

    /// Puts `top` over the image at (`x`, `y`) with
    /// `image::imageops::replace`, which copies each pixel of `top` that
    /// falls inside the image and leaves the other pixels alone.
    #[verifier::external_body]
    pub(crate) fn replace(&mut self, top: &Raster, x: u32, y: u32)
        ensures
            final(self)@ == old(self)@.replaced(top@, x as nat, y as nat),
    {
        let data = std::mem::take(&mut self.data);
        let mut bottom = RgbaImage::from_raw(self.width, self.height, data).unwrap();
        let over = RgbaImage::from_raw(top.width, top.height, top.data.clone()).unwrap();
        imageops::replace(&mut bottom, &over, i64::from(x), i64::from(y));
        self.data = bottom.into_raw();
    }

    /// Blends `top` over the image at (`x`, `y`) with
    /// `image::imageops::overlay`, which blends each pixel of `top` that
    /// falls inside the image over the pixel below it and leaves the other
    /// pixels alone. Of the blend of two pixels the contract says that it
    /// depends on the two pixels alone, that a pixel of alpha 0 changes
    /// nothing and that a pixel of alpha 255 takes the place of the pixel
    /// below.
    #[verifier::external_body]
    pub(crate) fn overlay(&mut self, top: &Raster, x: u32, y: u32)
        ensures
            final(self)@ == old(self)@.overlaid(top@, x as nat, y as nat),
            forall|i: int, j: int|
                0 <= i < old(self)@.width && 0 <= j < old(self)@.height && RasterView::covered_by(
                    top@,
                    x as nat,
                    y as nat,
                    i,
                    j,
                ) ==> {
                    let below = old(self)@.pixel(i, j);
                    let above = top@.pixel(i - x, j - y);
                    &&& #[trigger] final(self)@.pixel(i, j) == blend_px(below, above)
                    &&& above[3] == 0 ==> final(self)@.pixel(i, j) == below
                    &&& above[3] == 255 ==> final(self)@.pixel(i, j) == above
                },
    {
        let data = std::mem::take(&mut self.data);
        let mut bottom = RgbaImage::from_raw(self.width, self.height, data).unwrap();
        let over = RgbaImage::from_raw(top.width, top.height, top.data.clone()).unwrap();
        imageops::overlay(&mut bottom, &over, i64::from(x), i64::from(y));
        self.data = bottom.into_raw();
    }

    /// Copies `top` into the image at (`x`, `y`) with
    /// `image::GenericImage::copy_from`, which copies every pixel of `top`
    /// where all of `top` lies inside the image, and else changes nothing
    /// and returns an error.
    #[verifier::external_body]
    pub(crate) fn copy_from(&mut self, top: &Raster, x: u32, y: u32) -> (r: Result<
        (),
        image::ImageError,
    >)
        ensures
            r is Ok <==> old(self)@.fits(top@, x as nat, y as nat),
            r is Ok ==> final(self)@ == old(self)@.replaced(top@, x as nat, y as nat),
            r is Err ==> final(self)@ == old(self)@,
    {
        let data = std::mem::take(&mut self.data);
        let mut bottom = RgbaImage::from_raw(self.width, self.height, data).unwrap();
        let over = RgbaImage::from_raw(top.width, top.height, top.data.clone()).unwrap();
        let r = bottom.copy_from(&over, x, y);
        self.data = bottom.into_raw();
        r
    }
}

/// The error type of the image library.
#[verifier::external_type_specification]
#[verifier::external_body]
pub struct ExImageError(image::ImageError);

} // verus!
