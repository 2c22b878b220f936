//! A greeting formatter and an image-dimension reporter for a browser host.
//!
//! The library computes the text that the host shows or prints; the host
//! performs the display call and the file read.

mod decimal;
mod greeting;
mod inspect;

pub use decimal::{
    decimal_of, digit_char, is_decimal_digit, lemma_decimal_injective, lemma_decimal_shape,
    to_decimal,
};
pub use greeting::{greet, greet_is_repeatable, greeting_of};
pub use inspect::{
    decoded_size, describe, dimensions_line, dimensions_line_determines_size, read_image,
    read_image_is_repeatable, report, report_of, report_view, Dimensions, InspectError,
};
