//! The status codes that the control surface answers with.

use vstd::prelude::*;

verus! {

/// The request went through.
pub const STATUS_CODE_OK: u16 = 200;

/// The body is no valid JSON of the expected shape.
pub const STATUS_CODE_BAD_REQUEST: u16 = 400;

/// The request declares no body length.
pub const STATUS_CODE_LENGTH_REQUIRED: u16 = 411;

/// The request declares more bytes than a firmware slot holds.
pub const STATUS_CODE_PAYLOAD_TOO_LARGE: u16 = 413;

/// The request declares a media type that the route does not take.
pub const STATUS_CODE_UNSUPPORTED_MEDIA_TYPE: u16 = 415;

/// The request failed on the device's side.
pub const STATUS_CODE_INTERNAL_SERVER_ERROR: u16 = 500;

} // verus!
