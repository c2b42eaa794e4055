//! Turning a rendered picture into the bytes of a PPM and of a PNG file.
use crate::renderdata::RenderData;
use image::codecs::png::PngEncoder;
use image::codecs::pnm::{PnmEncoder, PnmSubtype, SampleEncoding};
use image::{ExtendedColorType, ImageEncoder};
use vstd::prelude::*;

verus! {

/// Why a picture could not be encoded.
#[derive(Debug, Clone, Copy, PartialEq, Eq, Structural)]
pub enum EncodeError {
    /// A side of the raster is longer than an image file can say.
    Dimensions,
    /// The buffer does not hold three bytes for every pixel of the raster.
    BufferSize,
    /// The encoder gave up.
    Encoding,
}

/// The decimal digits of `n` as ASCII bytes, most significant first.
pub open spec fn decimal(n: nat) -> Seq<u8>
    decreases n,
{
    if n < 10 {
        seq![(48 + n) as u8]
    } else {
        decimal(n / 10) + seq![(48 + n % 10) as u8]
    }
}

/// The header of a binary PPM file: `P6`, a line feed, the width, a space,
/// the height, a space, `255` and a line feed.
pub open spec fn ppm_header(width: nat, height: nat) -> Seq<u8> {
    seq![80u8, 54u8, 10u8] + decimal(width) + seq![32u8] + decimal(height) + seq![
        32u8,
        50u8,
        53u8,
        53u8,
        10u8,
    ]
}

/// A binary PPM file: the header, then the pixels as they come.
pub open spec fn ppm_file(pixels: Seq<u8>, width: nat, height: nat) -> Seq<u8> {
    ppm_header(width, height) + pixels
}

/// The PNG file that the encoder writes for these pixels, if it writes one.
pub uninterp spec fn png_file(pixels: Seq<u8>, width: u32, height: u32) -> Option<Seq<u8>>;

/// Calls `image::codecs::pnm::PnmEncoder::write_image` for a binary pixmap
/// of 8-bit RGB pixels, writing into memory. The contract claims that the
/// call succeeds and writes the magic number `P6`, the sizes and the largest
/// sample value 255 in decimal, and then the buffer unchanged. The encoder
/// panics on a buffer of another length, which `requires` leaves out.
#[verifier::external_body]
fn pnm_write_image(pixels: &[u8], width: u32, height: u32) -> (file: Option<Vec<u8>>)
    requires
        pixels@.len() == 3 * width * height,
    ensures
        file is Some,
        file.unwrap()@ == ppm_file(pixels@, width as nat, height as nat),
{
    let mut out: Vec<u8> = Vec::new();
    let encoder = PnmEncoder::new(&mut out).with_subtype(
        PnmSubtype::Pixmap(SampleEncoding::Binary),
    );
    encoder.write_image(pixels, width, height, ExtendedColorType::Rgb8).ok()?;
    Some(out)
}

/// Calls `image::codecs::png::PngEncoder::write_image` for 8-bit RGB pixels,
/// writing into memory. The contract claims that what is written depends on
/// the pixels and the sizes alone, and that a picture with no columns or no
/// rows is refused. The encoder panics on a buffer of another length, which
/// `requires` leaves out.
#[verifier::external_body]
fn png_write_image(pixels: &[u8], width: u32, height: u32) -> (file: Option<Vec<u8>>)
    requires
        pixels@.len() == 3 * width * height,
    ensures
        file is Some <==> png_file(pixels@, width, height) is Some,
        file is Some ==> png_file(pixels@, width, height) == Some(file.unwrap()@),
        width == 0 || height == 0 ==> file is None,
{
    let mut out: Vec<u8> = Vec::new();
    let encoder = PngEncoder::new(&mut out);
    encoder.write_image(pixels, width, height, ExtendedColorType::Rgb8).ok()?;
    Some(out)
}

/// What the caller of the PNG encoder gets: the file, or the reason why
/// there is none.
pub fn png_result(file: Option<Vec<u8>>) -> (result: Result<Vec<u8>, EncodeError>)
    ensures
        file is Some ==> result == Ok::<Vec<u8>, EncodeError>(file.unwrap()),
        file is None ==> result == Err::<Vec<u8>, EncodeError>(EncodeError::Encoding),
{
    match file {
        Some(bytes) => Ok(bytes),
        None => Err(EncodeError::Encoding),
    }
}

impl RenderData {
    /// Whether `len` bytes are a picture of this raster that an image file
    /// can hold, and if not, why not.
    pub open spec fn encodable(self, len: int) -> Result<(), EncodeError> {
        if self.spec_width() > u32::MAX || self.spec_height() > u32::MAX {
            Err(EncodeError::Dimensions)
        } else if len != 3 * self.spec_width() * self.spec_height() {
            Err(EncodeError::BufferSize)
        } else {
            Ok(())
        }
    }

    /// Checks that `len` bytes are a picture of this raster that an image
    /// file can hold, and gives the raster's sizes as an image file says
    /// them.
    pub fn check_encodable(&self, len: usize) -> (sizes: Result<(u32, u32), EncodeError>)
        ensures
            match sizes {
                Ok((width, height)) => self.encodable(len as int) is Ok && width
                    == self.spec_width() && height == self.spec_height(),
                Err(error) => self.encodable(len as int) == Err::<(), EncodeError>(error),
            },
    {
        let width = self.width();
        let height = self.height();
        if width > u32::MAX as usize || height > u32::MAX as usize {
            return Err(EncodeError::Dimensions);
        }
        if len != self.buffer_len() {
            return Err(EncodeError::BufferSize);
        }
        Ok((width as u32, height as u32))
    }

    /// The binary PPM file of the picture in `raw_pixels`.
    pub fn encode_ppm(&self, raw_pixels: &Vec<u8>) -> (result: Result<Vec<u8>, EncodeError>)
        ensures
            match result {
                Ok(file) => self.encodable(raw_pixels@.len() as int) is Ok && file@ == ppm_file(
                    raw_pixels@,
                    self.spec_width() as nat,
                    self.spec_height() as nat,
                ),
                Err(error) => self.encodable(raw_pixels@.len() as int) == Err::<(), EncodeError>(
                    error,
                ),
            },
    {
        match self.check_encodable(raw_pixels.len()) {
            Err(error) => Err(error),
            Ok((width, height)) => {
                let file = pnm_write_image(raw_pixels.as_slice(), width, height);
                Ok(file.unwrap())
            },
        }
    }

    /// The PNG file of the picture in `raw_pixels`.
    pub fn encode_png(&self, raw_pixels: &Vec<u8>) -> (result: Result<Vec<u8>, EncodeError>)
        ensures
            match result {
                Ok(file) => self.encodable(raw_pixels@.len() as int) is Ok && png_file(
                    raw_pixels@,
                    self.spec_width() as u32,
                    self.spec_height() as u32,
                ) == Some(file@),
                Err(EncodeError::Encoding) => self.encodable(raw_pixels@.len() as int) is Ok
                    && png_file(
                    raw_pixels@,
                    self.spec_width() as u32,
                    self.spec_height() as u32,
                ) is None,
                Err(error) => self.encodable(raw_pixels@.len() as int) == Err::<(), EncodeError>(
                    error,
                ),
            },
    {
        match self.check_encodable(raw_pixels.len()) {
            Err(error) => Err(error),
            Ok((width, height)) => png_result(
                png_write_image(raw_pixels.as_slice(), width, height),
            ),
        }
    }
}

} // verus!
