//! Reading the arguments of a command, which arrive as one JSON object.

use vstd::prelude::*;

use crate::error::{bad_request_error, ApiError, ApiErrorView};
use crate::json::{Json, JsonView, Number};
use crate::protocol::{refused, StepView};
use crate::text::{blank, is_blank, join3};

verus! {

/// The error for an argument that is not there or is of another type.
pub open spec fn missing_argument(key: Seq<char>) -> ApiErrorView {
    bad_request_error("missing required argument `"@ + key + "`"@)
}

pub(crate) fn missing(key: &str) -> (e: ApiError)
    ensures
        e@ == missing_argument(key@),
{
    ApiError::bad_request(join3("missing required argument `", key, "`"))
}

/// The text under `key`, where there is one.
pub open spec fn text_arg(args: JsonView, key: Seq<char>) -> Option<Seq<char>> {
    args.pick(key).as_str()
}

/// The text under `key`, where there is one that is not blank.
pub open spec fn solid_text_arg(args: JsonView, key: Seq<char>) -> Option<Seq<char>> {
    match text_arg(args, key) {
        Some(s) => if blank(s) {
            None
        } else {
            Some(s)
        },
        None => None,
    }
}

/// What a command does that needs the text under `key`: it goes on with it, or
/// answers that it is missing.
pub open spec fn with_text(
    args: JsonView,
    key: Seq<char>,
    next: spec_fn(Seq<char>) -> StepView,
) -> StepView {
    match text_arg(args, key) {
        Some(s) => next(s),
        None => refused(missing_argument(key)),
    }
}

/// What a command does that needs the whole number under `key`.
pub open spec fn with_i64(
    args: JsonView,
    key: Seq<char>,
    next: spec_fn(i64) -> StepView,
) -> StepView {
    match args.pick(key).as_i64() {
        Some(n) => next(n),
        None => refused(missing_argument(key)),
    }
}

/// A text argument that the command cannot do without.
pub fn req_str(args: &Json, key: &str) -> (r: Result<String, ApiError>)
    ensures
        match r {
            Ok(s) => text_arg(args@, key@) == Some(s@),
            Err(e) => text_arg(args@, key@) is None && e@ == missing_argument(key@),
        },
{
    match opt_str(args, key) {
        Some(s) => Ok(s),
        None => Err(missing(key)),
    }
}

/// A text argument that may be left out.
pub fn opt_str(args: &Json, key: &str) -> (r: Option<String>)
    ensures
        r.deep_view() == text_arg(args@, key@),
{
    match args.get(key) {
        Some(value) => value.as_str(),
        None => None,
    }
}

/// A text argument that may be left out, or be blank, which is the same.
pub fn solid_str(args: &Json, key: &str) -> (r: Option<String>)
    ensures
        r.deep_view() == solid_text_arg(args@, key@),
{
    match opt_str(args, key) {
        Some(s) => if is_blank(s.as_str()) {
            None
        } else {
            Some(s)
        },
        None => None,
    }
}

/// A whole number that the command cannot do without.
pub fn req_i64(args: &Json, key: &str) -> (r: Result<i64, ApiError>)
    ensures
        match r {
            Ok(n) => args@.pick(key@).as_i64() == Some(n),
            Err(e) => args@.pick(key@).as_i64() is None && e@ == missing_argument(key@),
        },
{
    match args.get(key) {
        Some(value) => match value.as_i64() {
            Some(n) => Ok(n),
            None => Err(missing(key)),
        },
        None => Err(missing(key)),
    }
}

/// The lowest 32 bits of a whole number, read as a signed number.
pub open spec fn low_i32(n: i64) -> i32 {
    n as i32
}

/// The whole number under `key`, cut down to 32 bits, where there is one.
pub open spec fn i32_arg(args: JsonView, key: Seq<char>) -> Option<i32> {
    match args.pick(key).as_i64() {
        Some(n) => Some(low_i32(n)),
        None => None,
    }
}

/// A whole number that may be left out, cut down to 32 bits.
pub fn opt_i32(args: &Json, key: &str) -> (r: Option<i32>)
    ensures
        r == i32_arg(args@, key@),
{
    match args.get(key) {
        Some(value) => match value.as_i64() {
            Some(n) => Some(#[verifier::truncate] (n as i32)),
            None => None,
        },
        None => None,
    }
}

/// The number under `key`, where there is one.
pub open spec fn number_arg(args: JsonView, key: Seq<char>) -> Option<Number> {
    args.pick(key).as_number()
}

/// A number that may be left out.
pub fn opt_number(args: &Json, key: &str) -> (r: Option<Number>)
    ensures
        r == number_arg(args@, key@),
{
    match args.get(key) {
        Some(value) => value.as_number(),
        None => None,
    }
}

// ---------------------------------------------------------------------------
// Ranges of single-precision numbers
// ---------------------------------------------------------------------------

/// The bits of a double, as a whole number that orders as the double does. The
/// two zeros are the same; what is no number lies beyond both infinities.
pub open spec fn double_order(bits: u64) -> int {
    if bits < 0x8000_0000_0000_0000 {
        bits as int
    } else {
        0x8000_0000_0000_0000 - bits
    }
}

/// Half of the smallest single-precision number, 2^-150: the largest double that
/// rounds to zero.
pub const ROUNDS_TO_ZERO: u64 = 0x3690_0000_0000_0000;

/// 1 + 2^-24, the largest double that rounds to the single-precision 1.
pub const ROUNDS_TO_ONE: u64 = 0x3ff0_0000_1000_0000;

/// 2 + 2^-23, the largest double that rounds to the single-precision 2.
pub const ROUNDS_TO_TWO: u64 = 0x4000_0000_1000_0000;

/// Whether a number, rounded to single precision, lies between 0 and `whole`,
/// where `limit` is the largest double that rounds to `whole`.
pub open spec fn rounds_into(n: Number, whole: u64, limit: u64) -> bool {
    match n {
        Number::Unsigned(k) => k <= whole,
        Number::Signed(k) => 0 <= k <= whole,
        Number::Float(bits) => -ROUNDS_TO_ZERO <= double_order(bits) <= limit,
    }
}

/// Whether a number, rounded to single precision, lies between 0 and 1.
pub open spec fn within_one(n: Number) -> bool {
    rounds_into(n, 1, ROUNDS_TO_ONE)
}

/// Whether a number, rounded to single precision, lies between 0 and 2.
pub open spec fn within_two(n: Number) -> bool {
    rounds_into(n, 2, ROUNDS_TO_TWO)
}

fn is_rounded_into(n: Number, whole: u64, limit: u64) -> (r: bool)
    requires
        limit < 0x8000_0000_0000_0000,
    ensures
        r == rounds_into(n, whole, limit),
{
    match n {
        Number::Unsigned(k) => k <= whole,
        Number::Signed(k) => 0 <= k && k as u64 <= whole,
        Number::Float(bits) => if bits < 0x8000_0000_0000_0000 {
            bits <= limit
        } else {
            bits - 0x8000_0000_0000_0000 <= ROUNDS_TO_ZERO
        },
    }
}

pub fn is_within_one(n: Number) -> (r: bool)
    ensures
        r == within_one(n),
{
    is_rounded_into(n, 1, ROUNDS_TO_ONE)
}

pub fn is_within_two(n: Number) -> (r: bool)
    ensures
        r == within_two(n),
{
    is_rounded_into(n, 2, ROUNDS_TO_TWO)
}

} // verus!
