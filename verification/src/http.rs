//! What the JSON routes of the control surface decide.
//!
//! The routes that set the clock and the text take a small JSON body. This
//! module checks the media type, collects the body in a buffer of fixed size,
//! names the errors and maps each to its status. Turning the bytes into values
//! and sending the answer is the caller's part.

use crate::storage::{PartitionManager, StorageError};
use crate::status::{
    STATUS_CODE_BAD_REQUEST,
    STATUS_CODE_INTERNAL_SERVER_ERROR,
    STATUS_CODE_OK,
    STATUS_CODE_UNSUPPORTED_MEDIA_TYPE,
};
use crate::text::{same_text, text_of_str};
use vstd::prelude::*;

verus! {

/// `heapless::Vec`, the vector of fixed capacity that collects a request's
/// body. Nothing is known of a value but what the functions below say.
#[verifier::external_type_specification]
#[verifier::external_body]
#[verifier::reject_recursive_types(T)]
pub struct ExBoundedVec<T, const N: usize>(heapless::Vec<T, N>);

/// `serde_json::Error`, what a body that cannot be parsed comes back as. It
/// is carried along and never looked into.
#[verifier::external_type_specification]
#[verifier::external_body]
pub struct ExParseError(serde_json::Error);

/// The media type of a JSON request.
pub const CONTENT_TYPE_JSON: &'static str = "application/json";

/// Most bytes that the body of a JSON request may have.
pub const MAX_BODY_SIZE: usize = 256;

/// Date and time for the panel's real-time clock; the year has two digits.
#[derive(Debug, Clone, Copy, PartialEq, Eq, Structural)]
pub struct Clock {
    pub day: u8,
    pub hour: u8,
    pub minute: u8,
    pub month: u8,
    pub second: u8,
    pub year: u8,
}

impl Default for Clock {
    fn default() -> (clock: Clock)
        ensures
            clock == (Clock { day: 0, hour: 0, minute: 0, month: 0, second: 0, year: 0 }),
    {
        Clock { day: 0, hour: 0, minute: 0, month: 0, second: 0, year: 0 }
    }
}

/// What the status route reports.
#[derive(Debug)]
pub struct Status {
    pub hostname: String,
    pub version: String,
}

impl Status {
    /// The status of a device called `hostname`: the version is that of the
    /// running firmware. Refused with `StorageUnavailable` on a storage that
    /// was never initialized.
    pub fn current(hostname: String, manager: &PartitionManager) -> (result: Result<
        Status,
        StorageError,
    >)
        ensures
            manager@.available ==> (result matches Ok(status) && status.hostname@ == hostname@
                && status.version@ == manager@.version),
            !manager@.available ==> result matches Err(StorageError::StorageUnavailable),
    {
        match manager.current_running_slot() {
            Ok((_, version)) => Ok(Status { hostname, version }),
            Err(error) => Err(error),
        }
    }
}

/// Why a JSON route failed.
#[derive(Debug)]
pub enum CustomError {
    /// The request declared `received` where `expected` is required.
    InvalidContentType { expected: String, received: String },
    /// The body is no valid JSON of the expected shape.
    Parsing(serde_json::Error),
    /// Anything else: the body could not be read or does not fit.
    Unknown,
}

impl CustomError {
    /// The status that answers a request which failed with `self`.
    pub open spec fn spec_status_code(&self) -> u16 {
        match self {
            CustomError::InvalidContentType { .. } => STATUS_CODE_UNSUPPORTED_MEDIA_TYPE,
            CustomError::Parsing(_) => STATUS_CODE_BAD_REQUEST,
            CustomError::Unknown => STATUS_CODE_INTERNAL_SERVER_ERROR,
        }
    }

    /// The status that answers a request which failed with `self`.
    #[verifier::when_used_as_spec(spec_status_code)]
    pub fn status_code(&self) -> (status: u16)
        ensures
            status == self.spec_status_code(),
    {
        match self {
            CustomError::InvalidContentType { .. } => STATUS_CODE_UNSUPPORTED_MEDIA_TYPE,
            CustomError::Parsing(_) => STATUS_CODE_BAD_REQUEST,
            CustomError::Unknown => STATUS_CODE_INTERNAL_SERVER_ERROR,
        }
    }

    /// The text of the error.
    pub open spec fn spec_message(&self) -> Seq<char> {
        match self {
            CustomError::InvalidContentType { expected, received } => "Content type \""@
                + received@ + "\" not accepted. Try \""@ + expected@ + "\" instead."@,
            CustomError::Parsing(_) => "Parsing Error"@,
            CustomError::Unknown => "Unknown Error"@,
        }
    }

    /// The text of the error.
    pub fn message(&self) -> (text: String)
        ensures
            text@ == self.spec_message(),
    {
        match self {
            CustomError::InvalidContentType { expected, received } => {
                let mut text = String::from_str("Content type \"");
                text.append(received.as_str());
                text.append("\" not accepted. Try \"");
                text.append(expected.as_str());
                text.append("\" instead.");
                text
            },
            CustomError::Parsing(_) => String::from_str("Parsing Error"),
            CustomError::Unknown => String::from_str("Unknown Error"),
        }
    }
}

impl From<serde_json::Error> for CustomError {
    fn from(error: serde_json::Error) -> (result: CustomError) {
        CustomError::Parsing(error)
    }
}

impl vstd::std_specs::convert::FromSpecImpl<serde_json::Error> for CustomError {
    open spec fn obeys_from_spec() -> bool {
        true
    }

    open spec fn from_spec(error: serde_json::Error) -> CustomError {
        CustomError::Parsing(error)
    }
}

/// Whether `content_type` is the media type of a JSON request.
pub open spec fn is_json(content_type: Option<Seq<char>>) -> bool {
    content_type == Some(CONTENT_TYPE_JSON@)
}

/// Accepts a request exactly if it declares the JSON media type.
///
/// The error names the media type that is required and the one that came, the
/// empty string standing for none.
pub fn check_content_type(content_type: Option<&str>) -> (result: Result<(), CustomError>)
    ensures
        is_json(text_of_str(content_type)) <==> result is Ok,
        result matches Err(error) ==> (error matches CustomError::InvalidContentType {
            expected,
            received,
        } && expected@ == CONTENT_TYPE_JSON@ && received@ == match content_type {
            Some(t) => t@,
            None => Seq::<char>::empty(),
        }),
{
    let received: &str = match content_type {
        Some(text) => text,
        None => {
            proof {
                reveal_strlit("");
            }
            ""
        },
    };
    let accepted = match content_type {
        Some(text) => same_text(text, CONTENT_TYPE_JSON),
        None => false,
    };
    if accepted {
        Ok(())
    } else {
        assert(received@ =~= match content_type {
            Some(t) => t@,
            None => Seq::<char>::empty(),
        });
        Err(
            CustomError::InvalidContentType {
                expected: String::from_str(CONTENT_TYPE_JSON),
                received: String::from_str(received),
            },
        )
    }
}

/// The status of a route's outcome, and the body to send with it: a route that
/// went through is answered with 200 and its body, a failure with the status of
/// its error and no body.
pub fn settle<B>(outcome: Result<B, CustomError>) -> (answer: (u16, Option<B>))
    ensures
        match outcome {
            Ok(body) => answer == (STATUS_CODE_OK, Some(body)),
            Err(error) => answer == (error.spec_status_code(), None::<B>),
        },
{
    match outcome {
        Ok(body) => (STATUS_CODE_OK, Some(body)),
        Err(error) => (error.status_code(), None),
    }
}

/// The bytes that a body buffer holds, in the order in which they came.
pub uninterp spec fn buffered(body: heapless::Vec<u8, 256>) -> Seq<u8>;

/// `heapless::Vec::new`: the new buffer holds nothing.
#[verifier::external_body]
fn buffer_new() -> (body: heapless::Vec<u8, 256>)
    ensures
        buffered(body) == Seq::<u8>::empty(),
{
    heapless::Vec::new()
}

/// `heapless::Vec::extend_from_slice`: a chunk that fits in what is left of
/// the 256 bytes is appended, and any other leaves the buffer as it was.
#[verifier::external_body]
fn buffer_extend(body: &mut heapless::Vec<u8, 256>, chunk: &[u8]) -> (fits: bool)
    ensures
        fits == (buffered(*old(body)).len() + chunk@.len() <= 256),
        fits ==> buffered(*final(body)) == buffered(*old(body)) + chunk@,
        !fits ==> buffered(*final(body)) == buffered(*old(body)),
{
    body.extend_from_slice(chunk).is_ok()
}

/// `heapless::Vec::as_slice`: the bytes of the buffer, which are never more
/// than the 256 that it has room for.
#[verifier::external_body]
fn buffer_bytes(body: &heapless::Vec<u8, 256>) -> (bytes: &[u8])
    ensures
        bytes@ == buffered(*body),
        bytes@.len() <= 256,
{
    body.as_slice()
}

/// What a read of the request's body gave.
pub enum BodyRead<'a> {
    /// The bytes of one read; none at the end of the body.
    Data(&'a [u8]),
    /// The read failed.
    Failed,
}

/// The body of a JSON request while it is being read: at most
/// [`MAX_BODY_SIZE`] bytes.
pub struct JsonBody {
    bytes: heapless::Vec<u8, 256>,
}

impl View for JsonBody {
    type V = Seq<u8>;

    closed spec fn view(&self) -> Seq<u8> {
        buffered(self.bytes)
    }
}

impl JsonBody {
    /// The empty body.
    pub fn new() -> (body: JsonBody)
        ensures
            body@ == Seq::<u8>::empty(),
    {
        JsonBody { bytes: buffer_new() }
    }

    /// Takes what a read gave and says whether to read on.
    ///
    /// Bytes that fit are appended and the answer is `Ok(true)`. A read
    /// without bytes ends the body: `Ok(false)`. A failed read, or bytes that
    /// do not fit in what is left of the buffer, are `Unknown`; the body then
    /// stays as it was.
    pub fn absorb(&mut self, read: BodyRead<'_>) -> (result: Result<bool, CustomError>)
        ensures
            match read {
                BodyRead::Failed => result matches Err(CustomError::Unknown) && final(self)@
                    == old(self)@,
                BodyRead::Data(chunk) => if chunk@.len() == 0 {
                    result matches Ok(false) && final(self)@ == old(self)@
                } else if old(self)@.len() + chunk@.len() <= MAX_BODY_SIZE {
                    result matches Ok(true) && final(self)@ == old(self)@ + chunk@
                } else {
                    result matches Err(CustomError::Unknown) && final(self)@ == old(self)@
                },
            },
    {
        match read {
            BodyRead::Failed => Err(CustomError::Unknown),
            BodyRead::Data(chunk) => {
                if chunk.len() == 0 {
                    Ok(false)
                } else {
                    if buffer_extend(&mut self.bytes, chunk) {
                        Ok(true)
                    } else {
                        Err(CustomError::Unknown)
                    }
                }
            },
        }
    }

    /// The bytes of the body.
    pub fn as_slice(&self) -> (bytes: &[u8])
        ensures
            bytes@ == self@,
            bytes@.len() <= MAX_BODY_SIZE,
    {
        buffer_bytes(&self.bytes)
    }
}

} // verus!
