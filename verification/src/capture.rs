use vstd::prelude::*;
use vstd::string::StringExecFns;


verus! {

/// One rendered frame: `width` by `height` pixels of four bytes each, red,
/// green, blue and alpha, row by row from the top.
#[derive(Clone, Debug, PartialEq, Eq)]
pub struct Screenshot {
    pub width: usize,
    pub height: usize,
    pub rgba: Vec<u8>,
}

/// The local time at which a frame was captured.
#[derive(Clone, Copy, Debug, PartialEq, Eq)]
pub struct Timestamp {
    pub year: u32,
    pub month: u32,
    pub day: u32,
    pub hour: u32,
    pub minute: u32,
    pub second: u32,
}

/// A captured frame, ready to be written out: the file's path below the
/// working directory, and the bytes of the file.
#[derive(Clone, Debug, PartialEq, Eq)]
pub struct SavedPlot {
    pub path: String,
    pub png: Vec<u8>,
}

/// Why a frame could not be turned into a file.
#[derive(Clone, Copy, Debug, PartialEq, Eq)]
pub enum SaveError {
    /// The frame has no pixels.
    EmptyFrame,
    /// A side of the frame is longer than a PNG header can say.
    FrameTooLarge,
    /// The frame does not hold four bytes for each of its pixels.
    BufferMismatch,
    /// The encoder gave up.
    Encoder,
}

/// `png::EncodingError`, what the encoder returns where it gives up.
#[verifier::external_type_specification]
#[verifier::external_body]
pub struct ExEncodingError(png::EncodingError);

/// The PNG file that the `png` crate writes for an image of `width` by
/// `height` pixels with eight bits for each of red, green, blue and alpha,
/// or `None` where it gives up.
pub uninterp spec fn png_rgba8(width: u32, height: u32, rgba: Seq<u8>) -> Option<Seq<u8>>;

/// Runs `png::Encoder` into memory: `Encoder::new`, `set_color` with
/// `ColorType::Rgba`, `set_depth` with `BitDepth::Eight`, `write_header`,
/// then `Writer::write_image_data`; dropping the writer ends the file. The
/// encoder reads nothing but its arguments, so its output has a name.
#[verifier::external_body]
fn encode_rgba8(width: u32, height: u32, rgba: &[u8]) -> (file: Result<
    Vec<u8>,
    png::EncodingError,
>)
    requires
        width > 0,
        height > 0,
        rgba@.len() == 4 * width * height,
    ensures
        match file {
            Ok(bytes) => png_rgba8(width, height, rgba@) == Some(bytes@),
            Err(_) => png_rgba8(width, height, rgba@) is None,
        },
{
    let mut bytes = Vec::new();
    let mut encoder = png::Encoder::new(&mut bytes, width, height);
    encoder.set_color(png::ColorType::Rgba);
    encoder.set_depth(png::BitDepth::Eight);
    encoder.write_header()?.write_image_data(rgba)?;
    Ok(bytes)
}

/// What the library makes of the encoder's answer: the file where there is
/// one, and `Encoder` where the encoder gave up, whatever its reason.
pub fn written(answer: Result<Vec<u8>, png::EncodingError>) -> (file: Result<Vec<u8>, SaveError>)
    ensures
        match answer {
            Ok(bytes) => file == Ok::<Vec<u8>, SaveError>(bytes),
            Err(_) => file == Err::<Vec<u8>, SaveError>(SaveError::Encoder),
        },
{
    match answer {
        Ok(bytes) => Ok(bytes),
        Err(_) => Err(SaveError::Encoder),
    }
}

/// What is wrong with a frame of `width` by `height` pixels that holds `len`
/// bytes, if anything.
pub open spec fn frame_fault(width: nat, height: nat, len: nat) -> Option<SaveError> {
    if width == 0 || height == 0 {
        Some(SaveError::EmptyFrame)
    } else if width > u32::MAX || height > u32::MAX {
        Some(SaveError::FrameTooLarge)
    } else if len != 4 * width * height {
        Some(SaveError::BufferMismatch)
    } else {
        None
    }
}

/// What encoding a frame gives: its fault where it has one, else the file
/// that the encoder writes, or `Encoder` where the encoder gives up.
pub open spec fn encoded(width: nat, height: nat, rgba: Seq<u8>) -> Result<Seq<u8>, SaveError> {
    match frame_fault(width, height, rgba.len()) {
        Some(fault) => Err(fault),
        None => match png_rgba8(width as u32, height as u32, rgba) {
            Some(bytes) => Ok(bytes),
            None => Err(SaveError::Encoder),
        },
    }
}

/// The decimal digit `n`, for `n` below ten.
pub open spec fn digit(n: int) -> char {
    (48 + n) as u8 as char
}

/// The last two decimal digits of `n`.
pub open spec fn two_digits(n: int) -> Seq<char> {
    seq![digit(n / 10 % 10), digit(n % 10)]
}

/// The path under which a frame captured at `taken` is saved: the directory
/// `imgs`, then year, month and day, an underscore, hour, minute and second,
/// two digits each, and the extension.
pub open spec fn capture_path(taken: Timestamp) -> Seq<char> {
    "imgs/"@ + two_digits(taken.year as int) + two_digits(taken.month as int) + two_digits(
        taken.day as int,
    ) + seq!['_'] + two_digits(taken.hour as int) + two_digits(taken.minute as int) + two_digits(
        taken.second as int,
    ) + ".png"@
}

fn push_two_digits(text: &mut String, n: u32)
    ensures
        final(text)@ == old(text)@ + two_digits(n as int),
{
    let tens: u8 = (n / 10 % 10) as u8;
    let ones: u8 = (n % 10) as u8;
    text.push((48 + tens) as char);
    text.push((48 + ones) as char);
    assert(text@ =~= old(text)@ + two_digits(n as int));
}

impl Timestamp {
    /// The path of the file for a frame captured at this time.
    pub fn path(&self) -> (path: String)
        ensures
            path@ == capture_path(*self),
    {
        let mut path = "imgs/".to_owned();
        push_two_digits(&mut path, self.year);
        push_two_digits(&mut path, self.month);
        push_two_digits(&mut path, self.day);
        path.push('_');
        push_two_digits(&mut path, self.hour);
        push_two_digits(&mut path, self.minute);
        push_two_digits(&mut path, self.second);
        path.append(".png");
        assert(path@ =~= capture_path(*self));
        path
    }
}

impl Screenshot {
    /// Encodes the frame as a PNG file in memory.
    pub fn encode(&self) -> (file: Result<Vec<u8>, SaveError>)
        ensures
            match encoded(self.width as nat, self.height as nat, self.rgba@) {
                Ok(bytes) => file matches Ok(written) && written@ == bytes,
                Err(fault) => file == Err::<Vec<u8>, SaveError>(fault),
            },
    {
        if self.width == 0 || self.height == 0 {
            return Err(SaveError::EmptyFrame);
        }
        if self.width > u32::MAX as usize || self.height > u32::MAX as usize {
            return Err(SaveError::FrameTooLarge);
        }
        let width = self.width as u32;
        let height = self.height as u32;
        assert(width * height <= 0xffff_ffff * 0xffff_ffff) by (nonlinear_arith)
            requires
                width <= 0xffff_ffff,
                height <= 0xffff_ffff,
        ;
        assert(4 * (width * height) == 4 * width * height) by (nonlinear_arith);
        let expected: u128 = 4 * (width as u128 * height as u128);
        if self.rgba.len() as u128 != expected {
            return Err(SaveError::BufferMismatch);
        }
        written(encode_rgba8(width, height, self.rgba.as_slice()))
    }
}

} // verus!
