//! The Inland KS0061 16x2 I2C character display's text model: validated
//! single lines and two-row content split from free-form input, counted by
//! character rather than by byte. The physical I2C transport lives outside
//! this crate.

use vstd::prelude::*;

use crate::text::all_displayable;
use crate::text::first_bad;
use crate::text::line_ok;
use crate::text::preview;
use crate::text::row1;
use crate::text::row2;
use crate::text::split_content;
use crate::text::split_error_of;
use crate::text::split_ok;
use crate::text::take_preview;
use crate::text::validate_line;
use crate::text::LineError;
use crate::text::SplitError;

verus! {

pub const INLAND_KS0061_COLS: usize = 16;

pub const INLAND_KS0061_ROWS: usize = 2;

pub const INLAND_KS0061_MAX_CHARS_PER_LINE: usize = 16;

pub const INLAND_KS0061_MAX_CHARS_TOTAL: usize = 32;

pub const INLAND_KS0061_DEFAULT_I2C_ADDRESS: u8 = 0x27;

/// The display's usual I2C bus address.
pub fn inland_ks0061_default_i2c_address() -> (r: u8)
    ensures
        r == 0x27,
{
    INLAND_KS0061_DEFAULT_I2C_ADDRESS
}

/// Faults of the KS0061 display driver. The transport variants are produced
/// by the display wiring outside this crate; `InvalidContent` carries a
/// content fault from this module.
#[derive(Debug, Clone, PartialEq, Eq)]
pub enum InlandKs0061I2cDisplayError {
    Initialization,
    Backlight,
    Clear,
    SetCursor,
    Print,
    InvalidContent(InlandKs0061ContentError),
}

impl From<InlandKs0061ContentError> for InlandKs0061I2cDisplayError {
    fn from(e: InlandKs0061ContentError) -> (r: InlandKs0061I2cDisplayError) {
        InlandKs0061I2cDisplayError::InvalidContent(e)
    }
}

impl vstd::std_specs::convert::FromSpecImpl<InlandKs0061ContentError> for InlandKs0061I2cDisplayError {
    open spec fn obeys_from_spec() -> bool {
        true
    }

    open spec fn from_spec(e: InlandKs0061ContentError) -> InlandKs0061I2cDisplayError {
        InlandKs0061I2cDisplayError::InvalidContent(e)
    }
}

/// One validated display row: at most 16 characters, each printable ASCII
/// or space. Constructed only through `try_from`; never mutated afterwards.
#[derive(Debug, Clone)]
pub struct InlandKs0061Line {
    s: String,
}

/// A string rejected for the display, with a bounded preview of the
/// offending content for diagnostics.
#[derive(Debug, Clone, PartialEq, Eq)]
pub enum InlandKs0061ContentError {
    TooLong { content: String, actual_length: usize, max_length: usize },
    TooManyLines { content: String, actual_lines: usize, max_lines: usize },
    ContainsInvalidCharacters { content: String, invalid_char: char },
}

impl View for InlandKs0061Line {
    type V = Seq<char>;

    closed spec fn view(&self) -> Seq<char> {
        self.s@
    }
}

impl InlandKs0061Line {
    /// The row invariant: the characters fit one 16-column row.
    pub open spec fn wf(&self) -> bool {
        line_ok(self@, 16)
    }

    pub fn as_str(&self) -> (r: &str)
        ensures
            r@ == self@,
    {
        self.s.as_str()
    }

    /// Validate `value` as a single display row, counting characters.
    pub fn try_from(value: &str) -> (r: Result<InlandKs0061Line, InlandKs0061ContentError>)
        ensures
            r is Ok <==> line_ok(value@, 16),
            r matches Ok(l) ==> l@ == value@ && l.wf(),
            r matches Err(e) ==> match e {
                InlandKs0061ContentError::TooLong { content, actual_length, max_length } => {
                    &&& value@.len() > 16
                    &&& content@ == preview(value@)
                    &&& actual_length == value@.len() as usize
                    &&& max_length == 16usize
                },
                InlandKs0061ContentError::ContainsInvalidCharacters { content, invalid_char } => {
                    &&& value@.len() <= 16
                    &&& !all_displayable(value@)
                    &&& content@ == preview(value@)
                    &&& invalid_char == value@[first_bad(value@)]
                },
                InlandKs0061ContentError::TooManyLines { .. } => false,
            },
    {
        match validate_line(value, INLAND_KS0061_MAX_CHARS_PER_LINE) {
            Ok(s) => Ok(InlandKs0061Line { s }),
            Err(LineError::TooLong { actual, max }) => Err(
                InlandKs0061ContentError::TooLong {
                    content: take_preview(value),
                    actual_length: actual,
                    max_length: max,
                },
            ),
            Err(LineError::InvalidChar { c }) => Err(
                InlandKs0061ContentError::ContainsInvalidCharacters {
                    content: take_preview(value),
                    invalid_char: c,
                },
            ),
        }
    }
}

/// Two-row display content. `None` rows stay blank; empty content clears
/// the display.
#[derive(Debug, Clone)]
pub struct InlandKs0061Content {
    pub line1: Option<InlandKs0061Line>,
    pub line2: Option<InlandKs0061Line>,
}

impl Default for InlandKs0061Content {
    /// Empty content: both rows blank, the canonical clear request.
    fn default() -> (r: InlandKs0061Content)
        ensures
            r.line1 is None,
            r.line2 is None,
    {
        InlandKs0061Content { line1: None, line2: None }
    }
}

/// `e` is the fault that splitting `s` for this display reports, with the
/// bounded content preview attached.
pub open spec fn ks0061_split_error_matches(s: Seq<char>, e: InlandKs0061ContentError) -> bool {
    match e {
        InlandKs0061ContentError::TooLong { content, actual_length, max_length } => {
            &&& split_error_of(s, 16) == (SplitError::TooLong {
                actual: actual_length,
                max: max_length,
            })
            &&& content@ == preview(s)
        },
        InlandKs0061ContentError::TooManyLines { content, actual_lines, max_lines } => {
            &&& split_error_of(s, 16) == (SplitError::TooManyLines {
                actual: actual_lines,
                max: max_lines,
            })
            &&& content@ == preview(s)
        },
        InlandKs0061ContentError::ContainsInvalidCharacters { content, invalid_char } => {
            &&& split_error_of(s, 16) == (SplitError::InvalidChar { c: invalid_char })
            &&& content@ == preview(s)
        },
    }
}

impl InlandKs0061Content {
    /// Both present rows satisfy the row invariant.
    pub open spec fn wf(&self) -> bool {
        &&& (self.line1 matches Some(l) ==> l.wf())
        &&& (self.line2 matches Some(l) ==> l.wf())
    }

    /// Split free-form input onto the two 16-column display rows.
    ///
    /// Empty input clears the display; input with a newline is split there
    /// (at most two lines); short input goes on row 1; input of at most 32
    /// characters is cut at column 16; anything longer is rejected.
    pub fn try_from(value: &str) -> (r: Result<InlandKs0061Content, InlandKs0061ContentError>)
        ensures
            r is Ok <==> split_ok(value@, 16),
            r matches Ok(c) ==> {
                &&& c.wf()
                &&& (c.line1 is Some <==> value@.len() > 0)
                &&& (c.line1 matches Some(a) ==> a@ == row1(value@, 16))
                &&& ((c.line2 is Some) <==> row2(value@, 16) is Some)
                &&& (c.line2 matches Some(b) ==> Some(b@) == row2(value@, 16))
            },
            r matches Err(e) ==> ks0061_split_error_matches(value@, e),
    {
        match split_content(value, INLAND_KS0061_COLS) {
            Ok((l1, l2)) => {
                let line1 = match l1 {
                    Some(s) => Some(InlandKs0061Line { s }),
                    None => None,
                };
                let line2 = match l2 {
                    Some(s) => Some(InlandKs0061Line { s }),
                    None => None,
                };
                Ok(InlandKs0061Content { line1, line2 })
            },
            Err(SplitError::TooLong { actual, max }) => Err(
                InlandKs0061ContentError::TooLong {
                    content: take_preview(value),
                    actual_length: actual,
                    max_length: max,
                },
            ),
            Err(SplitError::TooManyLines { actual, max }) => Err(
                InlandKs0061ContentError::TooManyLines {
                    content: take_preview(value),
                    actual_lines: actual,
                    max_lines: max,
                },
            ),
            Err(SplitError::InvalidChar { c }) => Err(
                InlandKs0061ContentError::ContainsInvalidCharacters {
                    content: take_preview(value),
                    invalid_char: c,
                },
            ),
        }
    }
}

} // verus!
