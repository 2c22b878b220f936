use vstd::prelude::*;
use crate::decimal::{
    decimal_of, is_decimal_digit, lemma_decimal_injective, lemma_decimal_shape, to_decimal,
};

verus! {

/// The width and height, in pixels, of a decoded image.
#[derive(Clone, Copy, Debug, PartialEq, Eq, Structural)]
pub struct Dimensions {
    pub width: u32,
    pub height: u32,
}

/// Why an image could not be inspected.
#[derive(Clone, Copy, Debug, PartialEq, Eq, Structural)]
pub enum InspectError {
    /// The bytes could not be decoded as an image of any supported format.
    Undecodable,
}

/// The width and height of the image in `bytes`, decoded in the format that
/// `image::guess_format` reads from its leading magic bytes by
/// `image::load_from_memory_with_format`; `None` where either returns an error.
pub uninterp spec fn decoded_size(bytes: Seq<u8>) -> Option<(u32, u32)>;

/// `image::ImageError`, the decoder's error, carried through opaquely.
#[verifier::external_type_specification]
#[verifier::external_body]
pub struct ExImageError(image::ImageError);

/// Relies on `image::guess_format`, which matches the bytes against the
/// crate's fixed table of magic bytes, on `image::load_from_memory_with_format`,
/// which decodes them with that built-in format, and on `DynamicImage::width` /
/// `height`. Neither call consults the crate's registered hooks, so the decoded
/// size, or the crate's error, depends on the bytes alone.
#[verifier::external_body]
fn decode_size(bytes: &[u8]) -> (r: Result<(u32, u32), image::ImageError>)
    ensures
        r is Ok <==> decoded_size(bytes@) is Some,
        r is Ok ==> decoded_size(bytes@) == Some(r->Ok_0),
{
    match image::guess_format(bytes) {
        Ok(format) => match image::load_from_memory_with_format(bytes, format) {
            Ok(img) => Ok((img.width(), img.height())),
            Err(e) => Err(e),
        },
        Err(e) => Err(e),
    }
}

/// The report line for an image of `width` by `height` pixels:
/// `Image dimensions: <width>x<height>`.
pub open spec fn dimensions_line(width: nat, height: nat) -> Seq<char> {
    "Image dimensions: "@ + decimal_of(width) + "x"@ + decimal_of(height)
}

/// The report line names the size exactly: two sizes with the same line are
/// the same size.
pub proof fn dimensions_line_determines_size(w1: nat, h1: nat, w2: nat, h2: nat)
    requires
        dimensions_line(w1, h1) == dimensions_line(w2, h2),
    ensures
        w1 == w2,
        h1 == h2,
{
    reveal_strlit("Image dimensions: ");
    reveal_strlit("x");
    lemma_decimal_shape(w1);
    lemma_decimal_shape(w2);
    let head = "Image dimensions: "@;
    let (a1, b1) = (decimal_of(w1), decimal_of(h1));
    let (a2, b2) = (decimal_of(w2), decimal_of(h2));
    let t1 = a1 + "x"@ + b1;
    let t2 = a2 + "x"@ + b2;
    assert(dimensions_line(w1, h1) =~= head + t1);
    assert(dimensions_line(w2, h2) =~= head + t2);
    assert(t1 =~= (head + t1).subrange(head.len() as int, (head + t1).len() as int));
    assert(t2 =~= (head + t2).subrange(head.len() as int, (head + t2).len() as int));
    assert(t1 == t2);
    if a1.len() < a2.len() {
        assert(t1[a1.len() as int] == 'x');
        assert(t2[a1.len() as int] == a2[a1.len() as int]);
        assert(is_decimal_digit(a2[a1.len() as int]));
    }
    if a2.len() < a1.len() {
        assert(t2[a2.len() as int] == 'x');
        assert(t1[a2.len() as int] == a1[a2.len() as int]);
        assert(is_decimal_digit(a1[a2.len() as int]));
    }
    assert(a1.len() == a2.len());
    assert(a1 =~= t1.subrange(0, a1.len() as int));
    assert(a2 =~= t2.subrange(0, a2.len() as int));
    assert(b1 =~= t1.subrange(a1.len() as int + 1, t1.len() as int));
    assert(b2 =~= t2.subrange(a2.len() as int + 1, t2.len() as int));
    lemma_decimal_injective(w1, w2);
    lemma_decimal_injective(h1, h2);
}

/// What inspecting bytes whose decoded size is `size` yields.
pub open spec fn report_of(size: Option<(u32, u32)>) -> Result<Seq<char>, InspectError> {
    match size {
        Some((w, h)) => Ok(dimensions_line(w as nat, h as nat)),
        None => Err(InspectError::Undecodable),
    }
}

/// The mathematical value of a report: its text, or its error.
pub open spec fn report_view(r: Result<String, InspectError>) -> Result<Seq<char>, InspectError> {
    match r {
        Ok(line) => Ok(line@),
        Err(e) => Err(e),
    }
}

/// The report line for `d`.
pub fn describe(d: Dimensions) -> (r: String)
    ensures
        r@ == dimensions_line(d.width as nat, d.height as nat),
{
    let mut r = String::from_str("Image dimensions: ");
    let w = to_decimal(d.width);
    let h = to_decimal(d.height);
    r.append(w.as_str());
    r.append("x");
    r.append(h.as_str());
    r
}

/// The report for an image whose decoded size is `size`: the dimensions
/// line where there is one, `Undecodable` where decoding failed.
pub fn report(size: Option<(u32, u32)>) -> (r: Result<String, InspectError>)
    ensures
        report_view(r) == report_of(size),
{
    match size {
        Some((width, height)) => Ok(describe(Dimensions { width, height })),
        None => Err(InspectError::Undecodable),
    }
}

/// Decodes `bytes` as an image and returns the line that reports its
/// dimensions, or `Undecodable` where the bytes are no image.
pub fn read_image(bytes: &[u8]) -> (r: Result<String, InspectError>)
    ensures
        report_view(r) == report_of(decoded_size(bytes@)),
{
    let size = match decode_size(bytes) {
        Ok(s) => Some(s),
        Err(_) => None,
    };
    report(size)
}

/// Inspecting the same bytes twice gives the same report both times.
pub proof fn read_image_is_repeatable(a: Seq<u8>, b: Seq<u8>)
    requires
        a == b,
    ensures
        report_of(decoded_size(a)) == report_of(decoded_size(b)),
{
}

} // verus!
