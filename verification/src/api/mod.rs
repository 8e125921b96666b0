//! Decisions of the request dispatcher: what a request is answered with,
//! given the ring and, where the ring falls short, what a read of the device
//! brought.

pub mod encoding;
pub mod sampling;
pub mod uniformity;

use crate::device::bias_correction::{
    lemma_von_neumann_len, none, von_neumann, von_neumann_spec,
};
use crate::device::{DeviceInfo, QuantisError};
use crate::utils::RingBuffer;
use encoding::{base64_encode, base64_len, base64_text, hex_encode, hex_text};
use sampling::{
    bytes_per_int, range_between, range_size, sample_integers, sampled_all, width_of,
};
use vstd::prelude::*;
use vstd::slice::slice_subrange;

verus! {

/// Most bytes that one request for bytes may ask for.
pub const MAX_BYTES_COUNT: usize = 65536;

/// Most integers that one request for integers may ask for.
pub const MAX_INT_COUNT: usize = 1000;

/// The body of every answer: the data of a request that went well, or the
/// message of one that did not.
#[derive(Debug)]
pub struct ApiResponse<T> {
    pub success: bool,
    pub data: Option<T>,
    pub error: Option<String>,
}

impl<T> ApiResponse<T> {
    /// The response is that of a request that went well, with `data`.
    pub open spec fn succeeds_with(&self, data: T) -> bool {
        self.success && self.data == Some(data) && self.error is None
    }

    /// The response is that of a request that failed, with the message
    /// `message`.
    pub open spec fn fails_with(&self, message: Seq<char>) -> bool {
        !self.success && self.data is None && (self.error matches Some(text) && text@ == message)
    }

    /// The answer to a request that went well.
    pub fn success(data: T) -> (response: Self)
        ensures
            response.succeeds_with(data),
    {
        ApiResponse { success: true, data: Some(data), error: None }
    }

    /// The answer to a request that failed, with the reason.
    pub fn error(msg: &str) -> (response: Self)
        ensures
            response.fails_with(msg@),
    {
        ApiResponse { success: false, data: None, error: Some(msg.to_owned()) }
    }
}

/// A request for random bytes.
#[derive(Debug)]
pub struct BytesQuery {
    pub count: usize,
    pub format: String,
    pub correction: String,
}

/// Number of bytes of a request that names none.
pub fn default_count() -> (count: usize)
    ensures
        count == 32,
{
    32
}

/// Format of a request that names none.
pub fn default_format() -> (format: String)
    ensures
        format@ == "hex"@,
{
    String::from_str("hex")
}

/// Correction of a request that names none.
pub fn default_correction() -> (correction: String)
    ensures
        correction@ == "none"@,
{
    String::from_str("none")
}

/// The random bytes asked for, as text.
#[derive(Debug)]
pub struct BytesResponse {
    pub bytes: String,
    pub count: usize,
    pub format: String,
    pub correction: String,
}

/// A request for random integers between `min` and `max`, both included.
#[derive(Debug)]
pub struct IntegersQuery {
    pub min: i64,
    pub max: i64,
    pub count: usize,
}

/// Number of integers of a request that names none.
pub fn default_int_count() -> (count: usize)
    ensures
        count == 1,
{
    1
}

/// The random integers asked for.
#[derive(Debug)]
pub struct IntegersResponse {
    pub integers: Vec<i64>,
    pub min: i64,
    pub max: i64,
    pub count: usize,
}

/// The kinds of failure that the service knows.
#[derive(Debug, Clone, Copy, PartialEq, Eq, Structural)]
pub enum ErrorKind {
    DeviceNotFound,
    UsbTransport,
    Timeout,
    InvalidResponse,
    InvalidParameter,
    InsufficientEntropy,
    /// The ring had no room for all the bytes read; never the fate of a
    /// request.
    BufferOverflow,
}

/// Why a request failed.
#[derive(Debug, Clone, PartialEq, Eq)]
pub enum RequestError {
    /// The number of bytes asked for is not between 1 and `MAX_BYTES_COUNT`.
    ByteCount,
    /// The correction asked for is neither `none` nor `von_neumann`.
    Correction,
    /// The format asked for is neither `hex` nor `base64`.
    Format,
    /// Debiasing left fewer bytes than were asked for.
    DebiasedShort,
    /// `min` is not less than `max`.
    Range,
    /// The number of integers asked for is not between 1 and `MAX_INT_COUNT`.
    IntCount,
    /// The raw bytes drawn gave fewer integers than were asked for.
    IntegersShort,
    /// The ring fell short and the device could not be read.
    Device(QuantisError),
    /// The device's descriptor could not be read.
    DeviceInfo(QuantisError),
}

impl RequestError {
    /// The message of the error.
    pub open spec fn message_spec(&self) -> Seq<char> {
        match self {
            RequestError::ByteCount => "Count must be between 1 and 65536"@,
            RequestError::Correction => "Invalid correction method"@,
            RequestError::Format => "Invalid format"@,
            RequestError::DebiasedShort => "Insufficient entropy after von_neumann correction, try larger count"@,
            RequestError::Range => "min must be less than max"@,
            RequestError::IntCount => "count must be between 1 and 1000"@,
            RequestError::IntegersShort => "Insufficient entropy for requested integers"@,
            RequestError::Device(error) => "Device error: "@ + error.message_spec(),
            RequestError::DeviceInfo(error) => "Failed to get device info: "@
                + error.message_spec(),
        }
    }

    /// The kind of the error.
    pub open spec fn kind_spec(&self) -> ErrorKind {
        match self {
            RequestError::ByteCount | RequestError::Correction | RequestError::Format
            | RequestError::Range | RequestError::IntCount => ErrorKind::InvalidParameter,
            RequestError::DebiasedShort | RequestError::IntegersShort => {
                ErrorKind::InsufficientEntropy
            },
            RequestError::Device(error) | RequestError::DeviceInfo(error) => match error {
                QuantisError::Usb(_) => ErrorKind::UsbTransport,
                QuantisError::DeviceNotFound => ErrorKind::DeviceNotFound,
                QuantisError::Timeout => ErrorKind::Timeout,
                QuantisError::InvalidResponse => ErrorKind::InvalidResponse,
            },
        }
    }

    /// The message of the error, as the client gets it.
    pub fn message(&self) -> (text: String)
        ensures
            text@ == self.message_spec(),
    {
        match self {
            RequestError::ByteCount => String::from_str("Count must be between 1 and 65536"),
            RequestError::Correction => String::from_str("Invalid correction method"),
            RequestError::Format => String::from_str("Invalid format"),
            RequestError::DebiasedShort => String::from_str(
                "Insufficient entropy after von_neumann correction, try larger count",
            ),
            RequestError::Range => String::from_str("min must be less than max"),
            RequestError::IntCount => String::from_str("count must be between 1 and 1000"),
            RequestError::IntegersShort => String::from_str(
                "Insufficient entropy for requested integers",
            ),
            RequestError::Device(error) => {
                let detail = error.message();
                String::from_str("Device error: ").concat(detail.as_str())
            },
            RequestError::DeviceInfo(error) => {
                let detail = error.message();
                String::from_str("Failed to get device info: ").concat(detail.as_str())
            },
        }
    }

    /// The kind of the error. No request fails for want of room in the ring.
    pub fn kind(&self) -> (kind: ErrorKind)
        ensures
            kind == self.kind_spec(),
            !(kind is BufferOverflow),
    {
        match self {
            RequestError::ByteCount => ErrorKind::InvalidParameter,
            RequestError::Correction => ErrorKind::InvalidParameter,
            RequestError::Format => ErrorKind::InvalidParameter,
            RequestError::Range => ErrorKind::InvalidParameter,
            RequestError::IntCount => ErrorKind::InvalidParameter,
            RequestError::DebiasedShort => ErrorKind::InsufficientEntropy,
            RequestError::IntegersShort => ErrorKind::InsufficientEntropy,
            RequestError::Device(error) => device_error_kind(error),
            RequestError::DeviceInfo(error) => device_error_kind(error),
        }
    }

    /// The answer to a request that failed with this error.
    pub fn response<T>(&self) -> (response: ApiResponse<T>)
        ensures
            response.fails_with(self.message_spec()),
    {
        let text = self.message();
        ApiResponse::error(text.as_str())
    }
}

fn device_error_kind(error: &QuantisError) -> (kind: ErrorKind)
    ensures
        kind == RequestError::Device(*error).kind_spec(),
{
    match error {
        QuantisError::Usb(_) => ErrorKind::UsbTransport,
        QuantisError::DeviceNotFound => ErrorKind::DeviceNotFound,
        QuantisError::Timeout => ErrorKind::Timeout,
        QuantisError::InvalidResponse => ErrorKind::InvalidResponse,
    }
}

/// The text forms that bytes are served in.
#[derive(Debug, Clone, Copy, PartialEq, Eq, Structural)]
pub enum Format {
    Hex,
    Base64,
}

/// The corrections that can be applied to raw bytes.
#[derive(Debug, Clone, Copy, PartialEq, Eq, Structural)]
pub enum Correction {
    Raw,
    VonNeumann,
}

/// The format that `name` names, if any.
pub open spec fn format_named(name: Seq<char>) -> Option<Format> {
    if name == "hex"@ {
        Some(Format::Hex)
    } else if name == "base64"@ {
        Some(Format::Base64)
    } else {
        None
    }
}

/// The correction that `name` names, if any.
pub open spec fn correction_named(name: Seq<char>) -> Option<Correction> {
    if name == "none"@ {
        Some(Correction::Raw)
    } else if name == "von_neumann"@ {
        Some(Correction::VonNeumann)
    } else {
        None
    }
}

/// Whether `text` reads `literal`.
fn reads(text: &String, literal: &str) -> (same: bool)
    ensures
        same == (text@ == literal@),
{
    let other = String::from_str(literal);
    *text == other
}

/// The format that `name` names, if any: `hex` or `base64`.
pub fn parse_format(name: &String) -> (format: Option<Format>)
    ensures
        format == format_named(name@),
{
    if reads(name, "hex") {
        Some(Format::Hex)
    } else if reads(name, "base64") {
        Some(Format::Base64)
    } else {
        None
    }
}

/// The correction that `name` names, if any: `none` or `von_neumann`.
pub fn parse_correction(name: &String) -> (correction: Option<Correction>)
    ensures
        correction == correction_named(name@),
{
    if reads(name, "none") {
        Some(Correction::Raw)
    } else if reads(name, "von_neumann") {
        Some(Correction::VonNeumann)
    } else {
        None
    }
}

/// What the dispatcher does next with a request.
#[derive(Debug)]
pub enum Step<T> {
    /// Answer with this response.
    Respond(ApiResponse<T>),
    /// The ring fell short: read `size` bytes from the device, and go on with
    /// what the read brought.
    ReadDevice { size: usize },
}

/// Why a request for bytes is turned down before a byte is drawn, if it is:
/// for its count, else for its correction, else for its format.
pub open spec fn bytes_query_fault(query: &BytesQuery) -> Option<RequestError> {
    if query.count == 0 || query.count > MAX_BYTES_COUNT {
        Some(RequestError::ByteCount)
    } else if correction_named(query.correction@) is None {
        Some(RequestError::Correction)
    } else if format_named(query.format@) is None {
        Some(RequestError::Format)
    } else {
        None
    }
}

/// `raw` after the correction `correction`.
pub open spec fn corrected(correction: Correction, raw: Seq<u8>) -> Seq<u8> {
    match correction {
        Correction::Raw => raw,
        Correction::VonNeumann => von_neumann_spec(raw),
    }
}

/// `data` in the text form `format`.
pub open spec fn encoded(format: Format, data: Seq<u8>) -> Seq<char> {
    match format {
        Format::Hex => hex_text(data),
        Format::Base64 => base64_text(data),
    }
}

/// Number of characters of the text form `format` of `len` bytes.
pub open spec fn encoded_len(format: Format, len: nat) -> nat {
    match format {
        Format::Hex => 2 * len,
        Format::Base64 => base64_len(len),
    }
}

/// The text that `response` carries, if it carries one, has the length that
/// the format of `query` gives to `count` bytes.
pub open spec fn text_length_fits(response: &ApiResponse<BytesResponse>, query: &BytesQuery) -> bool {
    response.data matches Some(data) ==> format_named(query.format@) is Some && data.bytes@.len()
        == encoded_len(format_named(query.format@)->0, query.count as nat)
}

/// What a request for bytes comes to, once `raw` has been drawn for it: the
/// text of the first `count` corrected bytes, or the reason why there is
/// none. A request with a fault fails with it; one whose corrected bytes are
/// fewer than `count` fails too.
pub open spec fn bytes_result(query: &BytesQuery, raw: Seq<u8>) -> Result<Seq<char>, RequestError> {
    match bytes_query_fault(query) {
        Some(fault) => Err(fault),
        None => {
            let data = corrected(correction_named(query.correction@)->0, raw);
            if data.len() < query.count {
                Err(RequestError::DebiasedShort)
            } else {
                Ok(encoded(format_named(query.format@)->0, data.take(query.count as int)))
            }
        },
    }
}

/// Debiasing as many raw bytes as were asked for never leaves enough: a
/// request with the correction `von_neumann` for which just `count` bytes
/// are drawn fails for want of entropy, whatever the bytes are.
pub proof fn lemma_debiased_draw_is_short(query: &BytesQuery, raw: Seq<u8>)
    requires
        bytes_query_fault(query) is None,
        correction_named(query.correction@) == Some(Correction::VonNeumann),
        raw.len() == query.count,
    ensures
        bytes_result(query, raw) == Err::<Seq<char>, RequestError>(RequestError::DebiasedShort),
{
    lemma_von_neumann_len(raw);
}

/// `response` carries the text `bytes` for `query`, with the count, format
/// and correction that `query` names.
pub open spec fn carries_bytes(
    response: &ApiResponse<BytesResponse>,
    query: &BytesQuery,
    bytes: Seq<char>,
) -> bool {
    &&& response.success
    &&& response.error is None
    &&& response.data matches Some(data) && data.bytes@ == bytes && data.count == query.count
        && data.format@ == query.format@ && data.correction@ == query.correction@
}

/// `response` is the answer to `query` for which `raw` was drawn.
pub open spec fn answers_bytes(
    response: &ApiResponse<BytesResponse>,
    query: &BytesQuery,
    raw: Seq<u8>,
) -> bool {
    match bytes_result(query, raw) {
        Ok(text) => carries_bytes(response, query, text),
        Err(fault) => response.fails_with(fault.message_spec()),
    }
}

/// Check a request for bytes: its count, then its correction, then its
/// format.
pub fn check_bytes_query(query: &BytesQuery) -> (checked: Result<(Correction, Format), RequestError>)
    ensures
        checked is Err <==> bytes_query_fault(query) is Some,
        checked matches Err(fault) ==> Some(fault) == bytes_query_fault(query),
        checked matches Ok(names) ==> Some(names.0) == correction_named(query.correction@) && Some(
            names.1,
        ) == format_named(query.format@),
{
    if query.count == 0 || query.count > MAX_BYTES_COUNT {
        return Err(RequestError::ByteCount);
    }
    let correction = match parse_correction(&query.correction) {
        Some(correction) => correction,
        None => {
            return Err(RequestError::Correction);
        },
    };
    let format = match parse_format(&query.format) {
        Some(format) => format,
        None => {
            return Err(RequestError::Format);
        },
    };
    Ok((correction, format))
}

/// The answer that carries the text `bytes` for `query`.
pub fn bytes_response(query: &BytesQuery, bytes: String) -> (response: ApiResponse<BytesResponse>)
    ensures
        carries_bytes(&response, query, bytes@),
{
    ApiResponse::success(
        BytesResponse {
            bytes,
            count: query.count,
            format: query.format.clone(),
            correction: query.correction.clone(),
        },
    )
}

/// Answer a request for bytes from the raw bytes drawn for it: correct them
/// as the request says, and encode the first `count` of them as it says.
pub fn bytes_from_raw(query: &BytesQuery, raw: &[u8]) -> (response: ApiResponse<BytesResponse>)
    ensures
        answers_bytes(&response, query, raw@),
        text_length_fits(&response, query),
        query.count == 0 || query.count > MAX_BYTES_COUNT ==> response.fails_with(
            RequestError::ByteCount.message_spec(),
        ),
{
    let (correction, format) = match check_bytes_query(query) {
        Ok(names) => names,
        Err(fault) => {
            return fault.response();
        },
    };
    let data = match correction {
        Correction::Raw => none(raw),
        Correction::VonNeumann => von_neumann(raw),
    };
    if data.len() < query.count {
        return RequestError::DebiasedShort.response();
    }
    let first = slice_subrange(data.as_slice(), 0, query.count);
    assert(first@ == data@.take(query.count as int));
    let text = match format {
        Format::Hex => hex_encode(first),
        Format::Base64 => {
            assert(base64_len(first@.len()) <= usize::MAX);
            base64_encode(first)
        },
    };
    bytes_response(query, text)
}

/// First step of a request for bytes: turn it down if it has a fault, else
/// draw `count` bytes from the ring and answer from them, or, where the ring
/// holds fewer, ask for a read of the device. The ring changes only where
/// bytes are drawn from it.
pub fn random_bytes(query: &BytesQuery, buffer: &mut RingBuffer) -> (step: Step<BytesResponse>)
    ensures
        final(buffer).spec_capacity() == old(buffer).spec_capacity(),
        bytes_query_fault(query) is Some ==> *final(buffer) == *old(buffer),
        bytes_query_fault(query) matches Some(fault) ==> (step matches Step::Respond(response)
            && response.fails_with(fault.message_spec())),
        bytes_query_fault(query) is None && query.count <= old(buffer)@.len() ==> final(buffer)@
            == old(buffer)@.skip(query.count as int),
        bytes_query_fault(query) is None && query.count <= old(buffer)@.len() ==> (
        step matches Step::Respond(response) && answers_bytes(
            &response,
            query,
            old(buffer)@.take(query.count as int),
        ) && text_length_fits(&response, query)),
        bytes_query_fault(query) is None && query.count > old(buffer)@.len() ==> *final(buffer)
            == *old(buffer),
        bytes_query_fault(query) is None && query.count > old(buffer)@.len() ==> (
        step matches Step::ReadDevice { size } && size == query.count),
{
    match check_bytes_query(query) {
        Ok(_) => {},
        Err(fault) => {
            return Step::Respond(fault.response());
        },
    }
    match buffer.read(query.count) {
        Some(raw) => Step::Respond(bytes_from_raw(query, raw.as_slice())),
        None => Step::ReadDevice { size: query.count },
    }
}

/// Second step of a request for bytes that the ring could not serve: answer
/// from what the read of the device brought, or with the device's error.
pub fn random_bytes_from_device(query: &BytesQuery, read: Result<Vec<u8>, QuantisError>) -> (response:
    ApiResponse<BytesResponse>)
    ensures
        text_length_fits(&response, query),
        bytes_query_fault(query) matches Some(fault) ==> response.fails_with(fault.message_spec()),
        bytes_query_fault(query) is None ==> (match read {
            Ok(raw) => answers_bytes(&response, query, raw@),
            Err(error) => response.fails_with(RequestError::Device(error).message_spec()),
        }),
{
    match check_bytes_query(query) {
        Ok(_) => {},
        Err(fault) => {
            return fault.response();
        },
    }
    match read {
        Ok(raw) => bytes_from_raw(query, raw.as_slice()),
        Err(error) => RequestError::Device(error).response(),
    }
}

/// Why a request for integers is turned down before a byte is drawn, if it
/// is: for its range, else for its count.
pub open spec fn integers_query_fault(query: &IntegersQuery) -> Option<RequestError> {
    if query.min >= query.max {
        Some(RequestError::Range)
    } else if query.count == 0 || query.count > MAX_INT_COUNT {
        Some(RequestError::IntCount)
    } else {
        None
    }
}

/// Raw bytes drawn for a request for integers: for each integer twice the
/// bytes that one integer of the range needs, to make up for rejections.
pub open spec fn integers_draw_size(query: &IntegersQuery) -> nat {
    (width_of(range_size(query.min, query.max)) * query.count * 2) as nat
}

/// What a request for integers comes to, once `raw` has been drawn for it:
/// the integers sampled from `raw`, or the reason why there are none. A
/// request with a fault fails with it; one for which `raw` gives fewer than
/// `count` integers fails too.
pub open spec fn integers_result(query: &IntegersQuery, raw: Seq<u8>) -> Result<
    Seq<i64>,
    RequestError,
> {
    match integers_query_fault(query) {
        Some(fault) => Err(fault),
        None => {
            let integers = sampled_all(raw, query.min, query.max, query.count as nat);
            if integers.len() < query.count {
                Err(RequestError::IntegersShort)
            } else {
                Ok(integers)
            }
        },
    }
}

/// `response` carries `integers` for `query`, with the range and count that
/// `query` names.
pub open spec fn carries_integers(
    response: &ApiResponse<IntegersResponse>,
    query: &IntegersQuery,
    integers: Seq<i64>,
) -> bool {
    &&& response.success
    &&& response.error is None
    &&& response.data matches Some(data) && data.integers@ == integers && data.min == query.min
        && data.max == query.max && data.count == query.count
}

/// `response` is the answer to `query` for which `raw` was drawn.
pub open spec fn answers_integers(
    response: &ApiResponse<IntegersResponse>,
    query: &IntegersQuery,
    raw: Seq<u8>,
) -> bool {
    match integers_result(query, raw) {
        Ok(integers) => carries_integers(response, query, integers),
        Err(fault) => response.fails_with(fault.message_spec()),
    }
}

/// Every integer that `response` carries lies between `min` and `max`, and
/// there are `count` of them.
pub open spec fn integers_within(
    response: &ApiResponse<IntegersResponse>,
    query: &IntegersQuery,
) -> bool {
    response.data matches Some(data) ==> data.integers@.len() == query.count && forall|i: int|
        0 <= i < data.integers@.len() ==> query.min <= #[trigger] data.integers@[i] <= query.max
}

/// Check a request for integers, its range first, and say how many raw bytes
/// to draw for it.
pub fn check_integers_query(query: &IntegersQuery) -> (checked: Result<usize, RequestError>)
    ensures
        checked is Err <==> integers_query_fault(query) is Some,
        checked matches Err(fault) ==> Some(fault) == integers_query_fault(query),
        checked matches Ok(size) ==> size == integers_draw_size(query) && 2 <= size <= 16000,
{
    if query.min >= query.max {
        return Err(RequestError::Range);
    }
    if query.count == 0 || query.count > MAX_INT_COUNT {
        return Err(RequestError::IntCount);
    }
    let range = range_between(query.min, query.max);
    let width = bytes_per_int(range);
    assert(1 <= width * query.count <= 8000) by (nonlinear_arith)
        requires
            1 <= width <= 8,
            1 <= query.count <= 1000,
    ;
    Ok(width * query.count * 2)
}

/// The answer that carries `integers` for `query`.
pub fn integers_response(query: &IntegersQuery, integers: Vec<i64>) -> (response: ApiResponse<
    IntegersResponse,
>)
    ensures
        carries_integers(&response, query, integers@),
{
    ApiResponse::success(
        IntegersResponse { integers, min: query.min, max: query.max, count: query.count },
    )
}

/// Answer a request for integers from the raw bytes drawn for it, by
/// rejection sampling.
pub fn integers_from_raw(query: &IntegersQuery, raw: &[u8]) -> (response: ApiResponse<
    IntegersResponse,
>)
    ensures
        answers_integers(&response, query, raw@),
        integers_within(&response, query),
        query.min >= query.max ==> response.fails_with(RequestError::Range.message_spec()),
        query.min < query.max && (query.count == 0 || query.count > MAX_INT_COUNT)
            ==> response.fails_with(RequestError::IntCount.message_spec()),
{
    match check_integers_query(query) {
        Ok(_) => {},
        Err(fault) => {
            return fault.response();
        },
    }
    match sample_integers(raw, query.min, query.max, query.count) {
        Some(integers) => integers_response(query, integers),
        None => {
            proof {
                sampling::lemma_sampled_in_range(
                    raw@,
                    query.min,
                    query.max,
                    query.count as nat,
                    raw@.len() / width_of(range_size(query.min, query.max)),
                );
            }
            RequestError::IntegersShort.response()
        },
    }
}

/// First step of a request for integers: turn it down if it has a fault,
/// else draw the raw bytes from the ring and answer from them, or, where the
/// ring holds fewer, ask for a read of the device. The ring changes only
/// where bytes are drawn from it.
pub fn random_integers(query: &IntegersQuery, buffer: &mut RingBuffer) -> (step: Step<
    IntegersResponse,
>)
    ensures
        final(buffer).spec_capacity() == old(buffer).spec_capacity(),
        integers_query_fault(query) is Some ==> *final(buffer) == *old(buffer),
        integers_query_fault(query) matches Some(fault) ==> (step matches Step::Respond(response)
            && response.fails_with(fault.message_spec())),
        integers_query_fault(query) is None && integers_draw_size(query) <= old(buffer)@.len()
            ==> final(buffer)@ == old(buffer)@.skip(integers_draw_size(query) as int),
        integers_query_fault(query) is None && integers_draw_size(query) <= old(buffer)@.len()
            ==> (step matches Step::Respond(response) && answers_integers(
            &response,
            query,
            old(buffer)@.take(integers_draw_size(query) as int),
        ) && integers_within(&response, query)),
        integers_query_fault(query) is None && integers_draw_size(query) > old(buffer)@.len()
            ==> *final(buffer) == *old(buffer),
        integers_query_fault(query) is None && integers_draw_size(query) > old(buffer)@.len()
            ==> (step matches Step::ReadDevice { size } && size == integers_draw_size(query)),
{
    let size = match check_integers_query(query) {
        Ok(size) => size,
        Err(fault) => {
            return Step::Respond(fault.response());
        },
    };
    match buffer.read(size) {
        Some(raw) => Step::Respond(integers_from_raw(query, raw.as_slice())),
        None => Step::ReadDevice { size },
    }
}

/// Second step of a request for integers that the ring could not serve:
/// answer from what the read of the device brought, or with the device's
/// error.
pub fn random_integers_from_device(
    query: &IntegersQuery,
    read: Result<Vec<u8>, QuantisError>,
) -> (response: ApiResponse<IntegersResponse>)
    ensures
        integers_within(&response, query),
        integers_query_fault(query) matches Some(fault) ==> response.fails_with(
            fault.message_spec(),
        ),
        integers_query_fault(query) is None ==> (match read {
            Ok(raw) => answers_integers(&response, query, raw@),
            Err(error) => response.fails_with(RequestError::Device(error).message_spec()),
        }),
{
    match check_integers_query(query) {
        Ok(_) => {},
        Err(fault) => {
            return fault.response();
        },
    }
    match read {
        Ok(raw) => integers_from_raw(query, raw.as_slice()),
        Err(error) => RequestError::Device(error).response(),
    }
}

/// What the health endpoint reports of a service that is well.
#[derive(Debug)]
pub struct HealthReport {
    pub status: String,
    pub device: String,
    pub buffer_available: usize,
}

/// The report of the health endpoint: one for a device that passed its
/// health check, none for one that did not, and the service is then
/// unavailable.
pub fn health(healthy: bool, buffer: &RingBuffer) -> (report: Option<HealthReport>)
    ensures
        report is Some <==> healthy,
        report matches Some(report) ==> report.status@ == "healthy"@ && report.device@
            == "connected"@ && report.buffer_available == buffer@.len(),
{
    if healthy {
        Some(
            HealthReport {
                status: String::from_str("healthy"),
                device: String::from_str("connected"),
                buffer_available: buffer.available(),
            },
        )
    } else {
        None
    }
}

/// What the device endpoint reports.
#[derive(Debug)]
pub struct DeviceReport {
    pub device: DeviceInfo,
    pub buffer_size: usize,
    pub buffer_available: usize,
}

/// The answer of the device endpoint: what the device says of itself, with
/// the ring's capacity and fill, or why the device did not say.
pub fn device_info(info: Result<DeviceInfo, QuantisError>, buffer: &RingBuffer) -> (response:
    ApiResponse<DeviceReport>)
    ensures
        info matches Ok(device) ==> response.success && response.error is None && (
        response.data matches Some(report) && report.device == device && report.buffer_size
            == buffer.spec_capacity() && report.buffer_available == buffer@.len()),
        info matches Err(error) ==> response.fails_with(
            RequestError::DeviceInfo(error).message_spec(),
        ),
{
    match info {
        Ok(device) => ApiResponse::success(
            DeviceReport {
                device,
                buffer_size: buffer.capacity(),
                buffer_available: buffer.available(),
            },
        ),
        Err(error) => RequestError::DeviceInfo(error).response(),
    }
}

/// What the root endpoint reports.
#[derive(Debug)]
pub struct ServiceInfo {
    pub service: String,
    pub version: String,
    pub endpoints: Vec<String>,
}

/// The paths that the service answers on, besides the root.
pub open spec fn endpoint_paths() -> Seq<Seq<char>> {
    seq![
        "/api/v1/health"@,
        "/api/v1/random/bytes"@,
        "/api/v1/random/int"@,
        "/api/v1/device/info"@,
    ]
}

/// The answer of the root endpoint: the service's name, its version and its
/// endpoints.
pub fn root() -> (info: ServiceInfo)
    ensures
        info.service@ == "Quantis QRNG API"@,
        info.version@ == "1.0.0"@,
        info.endpoints@.len() == 4,
        forall|i: int| 0 <= i < 4 ==> (#[trigger] info.endpoints@[i])@ == endpoint_paths()[i],
{
    let mut endpoints: Vec<String> = Vec::new();
    endpoints.push(String::from_str("/api/v1/health"));
    endpoints.push(String::from_str("/api/v1/random/bytes"));
    endpoints.push(String::from_str("/api/v1/random/int"));
    endpoints.push(String::from_str("/api/v1/device/info"));
    ServiceInfo {
        service: String::from_str("Quantis QRNG API"),
        version: String::from_str("1.0.0"),
        endpoints,
    }
}

} // verus!
