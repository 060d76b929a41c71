use vstd::prelude::*;

verus! {

/// An RGB pixel raster, held behind `image::RgbImage`. The buffer is fixed
/// at construction time: its dimensions and pixel contents are functions of
/// the value alone, named by `image_dims` and `image_pixels`.
#[verifier::external_body]
pub struct FrameImage {
    img: image::RgbImage,
}

/// Width and height of a raster; `image::ImageBuffer` fixes them at
/// construction time.
pub uninterp spec fn image_dims(img: FrameImage) -> (u32, u32);

/// The pixel contents of a raster: the red, green and blue channels of the
/// pixel at each coordinate pair.
pub uninterp spec fn image_pixels(img: FrameImage) -> Map<(u32, u32), (u8, u8, u8)>;

/// The pixel at `(x, y)` of a row-major, 3-bytes-per-pixel raw buffer of
/// row width `w`.
pub open spec fn raw_pixel(data: Seq<u8>, w: u32, x: u32, y: u32) -> (u8, u8, u8) {
    let base = 3 * ((y as int) * (w as int) + (x as int));
    (data[base], data[base + 1], data[base + 2])
}

impl FrameImage {
    /// Relies on image::ImageBuffer::from_raw: a buffer of exactly
    /// `width * height` RGB triples, row-major, becomes an image with those
    /// dimensions whose pixel at `(x, y)` starts at byte `3 * (y * width + x)`;
    /// a buffer of exactly the required length is always accepted.
    #[verifier::external_body]
    pub fn from_raw(width: u32, height: u32, data: Vec<u8>) -> (r: Option<FrameImage>)
        requires
            data@.len() == 3 * (width as int) * (height as int),
        ensures
            match r {
                Some(fi) => {
                    &&& image_dims(fi) == (width, height)
                    &&& forall|x: u32, y: u32|
                        x < width && y < height ==> image_pixels(fi)[(x, y)] == raw_pixel(
                            data@,
                            width,
                            x,
                            y,
                        )
                },
                None => false,
            },
    {
        match image::RgbImage::from_raw(width, height, data) {
            Some(img) => Some(FrameImage { img }),
            None => None,
        }
    }

    /// Relies on image::ImageBuffer::width.
    #[verifier::external_body]
    pub fn width(&self) -> (w: u32)
        ensures
            w == image_dims(*self).0,
    {
        self.img.width()
    }

    /// Relies on image::ImageBuffer::height.
    #[verifier::external_body]
    pub fn height(&self) -> (h: u32)
        ensures
            h == image_dims(*self).1,
    {
        self.img.height()
    }

    /// Relies on image::ImageBuffer::get_pixel, which returns the pixel at
    /// `(x, y)` and panics outside the image bounds.
    #[verifier::external_body]
    pub fn pixel(&self, x: u32, y: u32) -> (p: (u8, u8, u8))
        requires
            x < image_dims(*self).0,
            y < image_dims(*self).1,
        ensures
            p == image_pixels(*self)[(x, y)],
    {
        let q = self.img.get_pixel(x, y);
        (q.0[0], q.0[1], q.0[2])
    }
}

/// A single decoded video frame with metadata.
pub struct Frame {
    /// The frame's image data.
    pub image: FrameImage,
    /// Absolute frame number from the start of the source (0-based).
    pub frame_number: u32,
    /// Elapsed microseconds from the start of the source.
    pub timestamp_micros: u64,
}

} // verus!
