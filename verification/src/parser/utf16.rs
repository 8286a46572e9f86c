//! Names, which an archive stores as UTF-16.

use crate::parser::err::{
    fail_with, SevenZConversionError, SevenZParserError, SevenZParserErrorKind,
};
use vstd::prelude::*;

verus! {

/// The text that the UTF-16 code units `units` spell, as the `widestring`
/// crate decodes them; `None` where they are not valid UTF-16.
pub uninterp spec fn utf16_text(units: Seq<u16>) -> Option<Seq<char>>;

/// `U16Str::to_string` of the `widestring` crate, on the string slice that
/// `U16Str::from_slice` makes of `units` without looking at them: the text,
/// or nothing where the crate reports an error. The outcome depends on the
/// code units alone.
#[verifier::external_body]
fn utf16_to_string(units: &[u16]) -> (text: Option<String>)
    ensures
        match text {
            Some(t) => utf16_text(units@) == Some(t@),
            None => utf16_text(units@) is None,
        },
{
    widestring::U16Str::from_slice(units).to_string().ok()
}

/// What a name is once its code units have been decoded: the text, or a
/// conversion failure raised with `remaining` bytes unread.
pub fn name_of_text(text: Option<String>, remaining: usize) -> (r: Result<
    String,
    SevenZParserError,
>)
    ensures
        match text {
            Some(t) => r == Ok::<String, SevenZParserError>(t),
            None => r == Err::<String, SevenZParserError>(
                fail_with(
                    SevenZParserErrorKind::ConversionFailure(SevenZConversionError::ToString),
                    remaining as nat,
                ),
            ),
        },
{
    match text {
        Some(t) => Ok(t),
        None => Err(
            SevenZParserError::new(
                SevenZParserErrorKind::ConversionFailure(SevenZConversionError::ToString),
                remaining,
            ),
        ),
    }
}

/// Decodes UTF-16 code units to a name; `remaining` is reported with a
/// failure.
pub fn decode_utf16(units: &[u16], remaining: usize) -> (r: Result<String, SevenZParserError>)
    ensures
        match utf16_text(units@) {
            Some(t) => r is Ok && r.unwrap()@ == t,
            None => r == Err::<String, SevenZParserError>(
                fail_with(
                    SevenZParserErrorKind::ConversionFailure(SevenZConversionError::ToString),
                    remaining as nat,
                ),
            ),
        },
{
    name_of_text(utf16_to_string(units), remaining)
}

} // verus!
