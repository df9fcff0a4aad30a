use vstd::prelude::*;

verus! {

#[verifier::external_type_specification]
#[verifier::external_body]
pub struct ExImageError(image::ImageError);

/// What an encoded picture decodes to: width, height and row-major RGBA bytes.
pub uninterp spec fn decoded_rgba(bytes: Seq<u8>) -> Option<(u32, u32, Seq<u8>)>;

/// Relies on image::load_from_memory and DynamicImage::to_rgba8: the decoded picture as
/// width, height and its RGBA8 buffer, which holds four bytes per pixel.
#[verifier::external_body]
fn decode_rgba(bytes: &[u8]) -> (r: Result<(u32, u32, Vec<u8>), image::ImageError>)
    ensures
        match r {
            Ok((w, h, px)) => decoded_rgba(bytes@) == Some((w, h, px@)) && px@.len() == 4 * w * h,
            Err(_) => decoded_rgba(bytes@) is None,
        },
{
    match image::load_from_memory(bytes) {
        Ok(img) => {
            let rgba = img.to_rgba8();
            Ok((rgba.width(), rgba.height(), rgba.into_raw()))
        },
        Err(e) => Err(e),
    }
}

/// A decoded picture of a board.
#[derive(Debug, Clone)]
pub struct BoardImage {
    pub width: u32,
    pub height: u32,
    /// Row-major pixels, four bytes (red, green, blue, alpha) each.
    pub rgba: Vec<u8>,
}

/// The mathematical value of a `BoardImage`.
pub struct ImageView {
    pub width: u32,
    pub height: u32,
    pub rgba: Seq<u8>,
}

impl View for BoardImage {
    type V = ImageView;

    open spec fn view(&self) -> ImageView {
        ImageView { width: self.width, height: self.height, rgba: self.rgba@ }
    }
}

/// The picture that `bytes` decode to, if they decode.
pub open spec fn image_of(bytes: Seq<u8>) -> Option<ImageView> {
    match decoded_rgba(bytes) {
        Some((w, h, px)) => Some(ImageView { width: w, height: h, rgba: px }),
        None => None,
    }
}

pub open spec fn opt_image_view(o: Option<BoardImage>) -> Option<ImageView> {
    match o {
        Some(i) => Some(i@),
        None => None,
    }
}

impl BoardImage {
    /// Every pixel has its four bytes.
    pub open spec fn wf(&self) -> bool {
        self.rgba@.len() == 4 * self.width * self.height
    }

    /// Decodes an encoded picture (PNG); `None` when the bytes do not decode.
    pub fn decode(bytes: &[u8]) -> (r: Option<BoardImage>)
        ensures
            opt_image_view(r) == image_of(bytes@),
            r matches Some(i) ==> i.wf(),
    {
        match decode_rgba(bytes) {
            Ok((width, height, rgba)) => Some(BoardImage { width, height, rgba }),
            Err(_) => None,
        }
    }
}

} // verus!
