//! Cup icons: a picture file's bytes are decoded, scaled to fit the icon
//! size and stored as PNG.

use vstd::prelude::*;

verus! {

/// The largest width and height of a stored icon, in pixels.
pub const MAX_ICON_SIDE: u32 = 128;

/// A decoded picture of the `image` crate.
#[verifier::external_type_specification]
#[verifier::external_body]
pub struct ExDynamicImage(image::DynamicImage);

/// A picture format of the `image` crate.
#[verifier::external_type_specification]
#[verifier::external_body]
pub struct ExImageFormat(image::ImageFormat);

/// An error of the `image` crate.
#[verifier::external_type_specification]
#[verifier::external_body]
pub struct ExImageError(image::ImageError);

/// The width of a picture in pixels: what `DynamicImage::width` returns.
pub uninterp spec fn picture_width(picture: image::DynamicImage) -> u32;

/// The height of a picture in pixels: what `DynamicImage::height` returns.
pub uninterp spec fn picture_height(picture: image::DynamicImage) -> u32;

/// The picture that `image::load_from_memory_with_format` makes of the bytes
/// `data` read as `format`, or `None` where it reports an error. The
/// decoders read nothing but the bytes, so this is a function of the bytes
/// and the format, for the formats that this crate builds the decoders of.
pub uninterp spec fn decoded_picture(data: Seq<u8>, format: image::ImageFormat) -> Option<image::DynamicImage>;

/// The picture that `DynamicImage::resize` with the triangle filter makes
/// of `picture` for the bounds `width` and `height`.
pub uninterp spec fn resized_picture(picture: image::DynamicImage, width: u32, height: u32) -> image::DynamicImage;

/// The PNG file that `DynamicImage::write_to` makes of a picture, or `None`
/// where it reports an error, as it does for a picture whose colours PNG
/// cannot hold. The sink is memory, so the picture alone decides.
pub uninterp spec fn png_outcome(picture: image::DynamicImage) -> Option<Seq<u8>>;

/// `ImageFormat::from_path`: the format that the extension of `path`
/// stands for, or the crate's error where it stands for none. Nothing is
/// claimed of which extension gives which format.
#[verifier::external_body]
fn picture_format(path: &str) -> (r: Result<image::ImageFormat, image::ImageError>) {
    image::ImageFormat::from_path(path)
}

/// `image::load_from_memory_with_format`: the picture that `data` holds in
/// `format`, or `None` for the crate's error, as `decoded_picture` names it.
#[verifier::external_body]
fn load_picture(data: &[u8], format: image::ImageFormat) -> (r: Option<image::DynamicImage>)
    ensures
        r == decoded_picture(data@, format),
{
    image::load_from_memory_with_format(data, format).ok()
}

/// `DynamicImage::width`.
#[verifier::external_body]
fn width_of(picture: &image::DynamicImage) -> (w: u32)
    ensures
        w == picture_width(*picture),
{
    picture.width()
}

/// `DynamicImage::height`.
#[verifier::external_body]
fn height_of(picture: &image::DynamicImage) -> (h: u32)
    ensures
        h == picture_height(*picture),
{
    picture.height()
}

/// `DynamicImage::resize` with the triangle filter: the picture scaled, its
/// aspect ratio kept, to the largest size that fits within `width` by
/// `height`, and at least one pixel each way; `resized_picture` names it.
/// Pictures without pixels are left out: the crate's sampling reads pixels
/// that such a picture lacks.
#[verifier::external_body]
fn resize_picture(picture: &image::DynamicImage, width: u32, height: u32) -> (r:
    image::DynamicImage)
    requires
        picture_width(*picture) > 0,
        picture_height(*picture) > 0,
        width > 0,
        height > 0,
    ensures
        r == resized_picture(*picture, width, height),
        1 <= picture_width(r) <= width,
        1 <= picture_height(r) <= height,
{
    picture.resize(width, height, image::imageops::FilterType::Triangle)
}

/// `DynamicImage::write_to` with the PNG format, into memory: the PNG file
/// of the picture, or the crate's error, as `png_outcome` names them.
#[verifier::external_body]
fn png_bytes(picture: &image::DynamicImage) -> (r: Result<Vec<u8>, image::ImageError>)
    ensures
        match r {
            Ok(png) => png_outcome(*picture) == Some(png@),
            Err(_) => png_outcome(*picture) is None,
        },
{
    let mut out: Vec<u8> = Vec::new();
    match picture.write_to(&mut std::io::Cursor::new(&mut out), image::ImageOutputFormat::Png) {
        Ok(()) => Ok(out),
        Err(e) => Err(e),
    }
}

/// Why a file gave no icon.
#[derive(Debug, PartialEq, Eq, Structural, Clone, Copy)]
pub enum IconError {
    /// The file's extension names no picture format.
    UnknownFormat,
    /// The bytes are no picture of the format that the extension names.
    Undecodable,
    /// The picture has no pixels.
    Empty,
    /// The picture could not be written as PNG.
    Unencodable,
}

/// The stored form of an icon that fits the icon size: the PNG file of a
/// picture that is between one pixel and `MAX_ICON_SIDE` pixels wide and
/// high.
pub open spec fn is_icon_png(png: Seq<u8>) -> bool {
    exists|picture: image::DynamicImage|
        1 <= picture_width(picture) <= MAX_ICON_SIDE && 1 <= picture_height(picture)
            <= MAX_ICON_SIDE && #[trigger] png_outcome(picture) == Some(png)
}

/// The icon of `picture`: `Empty` for a picture without pixels; for any
/// other picture the PNG file of the picture scaled to fit `MAX_ICON_SIDE`
/// pixels each way, or `Unencodable` where the PNG writer refuses the
/// scaled picture.
pub open spec fn icon_outcome(picture: image::DynamicImage, r: Result<Vec<u8>, IconError>) -> bool {
    if picture_width(picture) == 0 || picture_height(picture) == 0 {
        r matches Err(IconError::Empty)
    } else {
        match png_outcome(resized_picture(picture, MAX_ICON_SIDE, MAX_ICON_SIDE)) {
            Some(png) => r matches Ok(out) && out@ == png,
            None => r matches Err(IconError::Unencodable),
        }
    }
}

/// The icon of a picture file, given the format that its path was found to
/// name: `UnknownFormat` where it names none, `Undecodable` where `data`
/// holds no picture of that format, and else the icon of the picture that
/// `data` holds.
pub open spec fn file_outcome(
    format: Result<image::ImageFormat, image::ImageError>,
    data: Seq<u8>,
    r: Result<Vec<u8>, IconError>,
) -> bool {
    match format {
        Err(_) => r matches Err(IconError::UnknownFormat),
        Ok(known) => match decoded_picture(data, known) {
            None => r matches Err(IconError::Undecodable),
            Some(picture) => icon_outcome(picture, r),
        },
    }
}

/// The icon of a picture: the picture scaled to fit `MAX_ICON_SIDE` pixels
/// each way and written as PNG. A picture without pixels gives `Empty`; any
/// other picture gives its icon, unless the PNG writer refuses the scaled
/// picture, which gives `Unencodable`. An icon that is returned is the PNG
/// file of a picture of the right size.
pub fn icon_of_picture(picture: &image::DynamicImage) -> (r: Result<Vec<u8>, IconError>)
    ensures
        icon_outcome(*picture, r),
        r matches Ok(png) ==> is_icon_png(png@),
{
    if width_of(picture) == 0 || height_of(picture) == 0 {
        return Err(IconError::Empty);
    }
    let small = resize_picture(picture, MAX_ICON_SIDE, MAX_ICON_SIDE);
    match png_bytes(&small) {
        Ok(png) => Ok(png),
        Err(_) => Err(IconError::Unencodable),
    }
}

/// The icon from the contents `data` of a picture file, given what the
/// `image` crate answered when asked for the format that the file's path
/// names: its error gives `UnknownFormat`; bytes that are no picture of the
/// format it named give `Undecodable`; and the picture that the bytes hold
/// gives its icon.
pub fn decode_image_as(format: Result<image::ImageFormat, image::ImageError>, data: &[u8]) -> (r:
    Result<Vec<u8>, IconError>)
    ensures
        file_outcome(format, data@, r),
        r matches Ok(png) ==> is_icon_png(png@),
{
    let known = match format {
        Ok(known) => known,
        Err(_) => { return Err(IconError::UnknownFormat); },
    };
    match load_picture(data, known) {
        Some(picture) => icon_of_picture(&picture),
        None => Err(IconError::Undecodable),
    }
}

/// The icon for a cup from the picture file at `path` with the contents
/// `data`: the picture, in the format that the path's extension names,
/// scaled to fit `MAX_ICON_SIDE` pixels each way and written as PNG.
///
/// Which format a path names is the `image` crate's to say, by the path
/// rules of the platform: the path is handed to it as it came, and the
/// result is what `decode_image_as` returns for its answer and `data`,
/// whatever that answer is.
pub fn decode_image(path: &str, data: &[u8]) -> (r: Result<Vec<u8>, IconError>)
    ensures
        exists|format: Result<image::ImageFormat, image::ImageError>| #[trigger]
            file_outcome(format, data@, r),
        r matches Ok(png) ==> is_icon_png(png@),
{
    let format = picture_format(path);
    let r = decode_image_as(format, data);
    assert(file_outcome(format, data@, r));
    r
}

} // verus!
