//! The printing protocol: operations, status codes, requests and responses,
//! and their encoding on the wire.
//!
//! A request on the wire is, with every number a big-endian `u16` unless
//! said otherwise:
//! - the protocol version, two bytes (major, minor): 2.0 or 2.1;
//! - the operation code and the request id;
//! - the number of attributes, then each attribute as its name (a text),
//!   the number of its values and the values (texts);
//! - the rest of the bytes: the document payload.
//!
//! A text is its length in bytes followed by that many bytes of UTF-8.
//! A response is the status code, the operation code and request id that it
//! answers, and its attributes encoded as in a request; it carries no
//! payload.

use vstd::prelude::*;
use vstd::slice::{slice_subrange, slice_to_vec};
use vstd::utf8::{decode_utf8, encode_utf8, encode_utf8_decode_utf8, encode_utf8_valid_utf8, valid_utf8};

verus! {

/// Protocol versions this server speaks.
#[derive(Debug, Clone, Copy, PartialEq, Eq, Structural)]
pub enum IppVersion {
    Ipp2_0,
    Ipp2_1,
}

impl IppVersion {
    pub open spec fn spec_from_bytes(major: u8, minor: u8) -> Option<IppVersion> {
        if major == 2 && minor == 0 {
            Some(IppVersion::Ipp2_0)
        } else if major == 2 && minor == 1 {
            Some(IppVersion::Ipp2_1)
        } else {
            None
        }
    }

    /// The version written as the two bytes `major`, `minor`, if supported.
    pub fn from_bytes(major: u8, minor: u8) -> (r: Option<IppVersion>)
        ensures
            r == IppVersion::spec_from_bytes(major, minor),
    {
        if major == 2 && minor == 0 {
            Some(IppVersion::Ipp2_0)
        } else if major == 2 && minor == 1 {
            Some(IppVersion::Ipp2_1)
        } else {
            None
        }
    }
}

/// The operations a client may ask for.
#[derive(Debug, Clone, Copy, PartialEq, Eq, Structural)]
pub enum IppOperation {
    GetPrinterAttributes,
    GetJobs,
    CreateJob,
    SendDocument,
    CloseJob,
    CancelJob,
    ValidateJob,
    GetJobAttributes,
}

impl IppOperation {
    pub open spec fn spec_code(self) -> u16 {
        match self {
            IppOperation::GetPrinterAttributes => 0x0002,
            IppOperation::GetJobs => 0x0010,
            IppOperation::CreateJob => 0x0004,
            IppOperation::SendDocument => 0x0011,
            IppOperation::CloseJob => 0x0006,
            IppOperation::CancelJob => 0x0005,
            IppOperation::ValidateJob => 0x000A,
            IppOperation::GetJobAttributes => 0x0009,
        }
    }

    pub open spec fn spec_from_code(code: u16) -> Option<IppOperation> {
        if code == 0x0002 {
            Some(IppOperation::GetPrinterAttributes)
        } else if code == 0x0010 {
            Some(IppOperation::GetJobs)
        } else if code == 0x0004 {
            Some(IppOperation::CreateJob)
        } else if code == 0x0011 {
            Some(IppOperation::SendDocument)
        } else if code == 0x0006 {
            Some(IppOperation::CloseJob)
        } else if code == 0x0005 {
            Some(IppOperation::CancelJob)
        } else if code == 0x000A {
            Some(IppOperation::ValidateJob)
        } else if code == 0x0009 {
            Some(IppOperation::GetJobAttributes)
        } else {
            None
        }
    }

    /// The operation's code on the wire.
    pub fn code(self) -> (r: u16)
        ensures
            r == self.spec_code(),
            IppOperation::spec_from_code(r) == Some(self),
    {
        match self {
            IppOperation::GetPrinterAttributes => 0x0002,
            IppOperation::GetJobs => 0x0010,
            IppOperation::CreateJob => 0x0004,
            IppOperation::SendDocument => 0x0011,
            IppOperation::CloseJob => 0x0006,
            IppOperation::CancelJob => 0x0005,
            IppOperation::ValidateJob => 0x000A,
            IppOperation::GetJobAttributes => 0x0009,
        }
    }

    /// The operation with this code, if it is one of the routed set.
    pub fn from_code(code: u16) -> (r: Option<IppOperation>)
        ensures
            r == IppOperation::spec_from_code(code),
            r matches Some(op) ==> op.spec_code() == code,
    {
        if code == 0x0002 {
            Some(IppOperation::GetPrinterAttributes)
        } else if code == 0x0010 {
            Some(IppOperation::GetJobs)
        } else if code == 0x0004 {
            Some(IppOperation::CreateJob)
        } else if code == 0x0011 {
            Some(IppOperation::SendDocument)
        } else if code == 0x0006 {
            Some(IppOperation::CloseJob)
        } else if code == 0x0005 {
            Some(IppOperation::CancelJob)
        } else if code == 0x000A {
            Some(IppOperation::ValidateJob)
        } else if code == 0x0009 {
            Some(IppOperation::GetJobAttributes)
        } else {
            None
        }
    }
}

/// Status codes of a response.
#[derive(Debug, Clone, Copy, PartialEq, Eq, Structural)]
pub enum IppStatusCode {
    Successful,
    ClientError,
    ServerError,
    BadRequest,
    NotAuthorized,
    NotFound,
    RequestEntityTooLarge,
    UnsupportedAttributes,
    InternalError,
    NotSupported,
    ServiceUnavailable,
    VersionNotSupported,
}

impl IppStatusCode {
    pub open spec fn spec_code(self) -> u16 {
        match self {
            IppStatusCode::Successful => 0x0000,
            IppStatusCode::ClientError => 0x0040,
            IppStatusCode::ServerError => 0x0080,
            IppStatusCode::BadRequest => 0x0041,
            IppStatusCode::NotAuthorized => 0x0043,
            IppStatusCode::NotFound => 0x0044,
            IppStatusCode::RequestEntityTooLarge => 0x0050,
            IppStatusCode::UnsupportedAttributes => 0x0051,
            IppStatusCode::InternalError => 0x0081,
            IppStatusCode::NotSupported => 0x0085,
            IppStatusCode::ServiceUnavailable => 0x0086,
            IppStatusCode::VersionNotSupported => 0x0087,
        }
    }

    /// The status's code on the wire.
    pub fn code(self) -> (r: u16)
        ensures
            r == self.spec_code(),
    {
        match self {
            IppStatusCode::Successful => 0x0000,
            IppStatusCode::ClientError => 0x0040,
            IppStatusCode::ServerError => 0x0080,
            IppStatusCode::BadRequest => 0x0041,
            IppStatusCode::NotAuthorized => 0x0043,
            IppStatusCode::NotFound => 0x0044,
            IppStatusCode::RequestEntityTooLarge => 0x0050,
            IppStatusCode::UnsupportedAttributes => 0x0051,
            IppStatusCode::InternalError => 0x0081,
            IppStatusCode::NotSupported => 0x0085,
            IppStatusCode::ServiceUnavailable => 0x0086,
            IppStatusCode::VersionNotSupported => 0x0087,
        }
    }

    /// Whether the status reports success.
    pub fn is_successful(self) -> (r: bool)
        ensures
            r == (self is Successful),
    {
        match self {
            IppStatusCode::Successful => true,
            _ => false,
        }
    }
}

/// The attributes of a request or response: names with their values.
pub open spec fn attributes_view(a: Seq<(String, Vec<String>)>) -> Seq<(Seq<char>, Seq<Seq<char>>)> {
    Seq::new(a.len(), |i: int| (a[i].0@, a[i].1@.map_values(|v: String| v@)))
}

/// One decoded request.
pub struct IppRequest {
    pub version: IppVersion,
    pub operation_id: IppOperation,
    pub request_id: u16,
    pub attributes: Vec<(String, Vec<String>)>,
    /// The document payload that followed the attributes.
    pub data: Vec<u8>,
}

/// The mathematical value of a request.
pub struct RequestModel {
    pub version: IppVersion,
    pub operation: IppOperation,
    pub request_id: u16,
    pub attributes: Seq<(Seq<char>, Seq<Seq<char>>)>,
    pub data: Seq<u8>,
}

impl View for IppRequest {
    type V = RequestModel;

    open spec fn view(&self) -> RequestModel {
        RequestModel {
            version: self.version,
            operation: self.operation_id,
            request_id: self.request_id,
            attributes: attributes_view(self.attributes@),
            data: self.data@,
        }
    }
}

/// Why a request could not be decoded, with the operation code and request
/// id to echo (zero where the header was cut short).
#[derive(Debug, Clone, Copy, PartialEq, Eq, Structural)]
pub enum DecodeError {
    /// The bytes are cut short or do not follow the format.
    Malformed { operation: u16, request_id: u16 },
    /// The protocol version is not 2.0 or 2.1.
    UnsupportedVersion { operation: u16, request_id: u16 },
    /// The operation code is outside the routed set.
    UnsupportedOperation { operation: u16, request_id: u16 },
}

/// The big-endian `u16` at `pos`.
pub open spec fn be16(b: Seq<u8>, pos: int) -> u16 {
    (b[pos] as int * 256 + b[pos + 1] as int) as u16
}

/// A text at `pos`: its decoded characters and the position after it.
pub open spec fn parse_text(b: Seq<u8>, pos: int) -> Option<(Seq<char>, int)> {
    if 0 <= pos && pos + 2 <= b.len() && pos + 2 + be16(b, pos) <= b.len() && valid_utf8(
        b.subrange(pos + 2, pos + 2 + be16(b, pos)),
    ) {
        Some((decode_utf8(b.subrange(pos + 2, pos + 2 + be16(b, pos))), pos + 2 + be16(b, pos)))
    } else {
        None
    }
}

/// `count` texts one after the other from `pos`.
pub open spec fn parse_texts(b: Seq<u8>, pos: int, count: nat) -> Option<(Seq<Seq<char>>, int)>
    decreases count,
{
    if count == 0 {
        Some((Seq::empty(), pos))
    } else {
        match parse_text(b, pos) {
            Some((t, next)) => match parse_texts(b, next, (count - 1) as nat) {
                Some((rest, end)) => Some((seq![t] + rest, end)),
                None => None,
            },
            None => None,
        }
    }
}

/// One attribute at `pos`: its name, the number of values, the values.
pub open spec fn parse_attribute(b: Seq<u8>, pos: int) -> Option<((Seq<char>, Seq<Seq<char>>), int)> {
    match parse_text(b, pos) {
        Some((name, next)) => if next + 2 <= b.len() {
            match parse_texts(b, next + 2, be16(b, next) as nat) {
                Some((values, end)) => Some(((name, values), end)),
                None => None,
            }
        } else {
            None
        },
        None => None,
    }
}

/// `count` attributes one after the other from `pos`.
pub open spec fn parse_attributes(b: Seq<u8>, pos: int, count: nat) -> Option<
    (Seq<(Seq<char>, Seq<Seq<char>>)>, int),
>
    decreases count,
{
    if count == 0 {
        Some((Seq::empty(), pos))
    } else {
        match parse_attribute(b, pos) {
            Some((a, next)) => match parse_attributes(b, next, (count - 1) as nat) {
                Some((rest, end)) => Some((seq![a] + rest, end)),
                None => None,
            },
            None => None,
        }
    }
}

/// What a request's bytes decode to.
pub open spec fn spec_decode_request(b: Seq<u8>) -> Result<RequestModel, DecodeError> {
    if b.len() < 8 {
        Err(DecodeError::Malformed { operation: 0, request_id: 0 })
    } else {
        let op = be16(b, 2);
        let id = be16(b, 4);
        match IppVersion::spec_from_bytes(b[0], b[1]) {
            None => Err(DecodeError::UnsupportedVersion { operation: op, request_id: id }),
            Some(version) => match IppOperation::spec_from_code(op) {
                None => Err(DecodeError::UnsupportedOperation { operation: op, request_id: id }),
                Some(operation) => match parse_attributes(b, 8, be16(b, 6) as nat) {
                    Some((attributes, end)) => Ok(
                        RequestModel { version, operation, request_id: id, attributes, data: b.subrange(end, b.len() as int) },
                    ),
                    None => Err(DecodeError::Malformed { operation: op, request_id: id }),
                },
            },
        }
    }
}

/// Relies on `String::from_utf8`: the text that valid UTF-8 bytes encode,
/// and an error for any other bytes.
#[verifier::external_body]
fn utf8_text(bytes: Vec<u8>) -> (r: Option<String>)
    ensures
        r is Some <==> valid_utf8(bytes@),
        r matches Some(s) ==> s@ == decode_utf8(bytes@),
{
    String::from_utf8(bytes).ok()
}

fn read_be16(b: &[u8], pos: usize) -> (r: u16)
    requires
        pos + 2 <= b@.len(),
    ensures
        r == be16(b@, pos as int),
{
    (b[pos] as u16) * 256 + (b[pos + 1] as u16)
}

fn read_text(b: &[u8], pos: usize) -> (r: Option<(String, usize)>)
    ensures
        match parse_text(b@, pos as int) {
            Some((t, next)) => r matches Some((s, n)) && s@ == t && n == next,
            None => r is None,
        },
        r matches Some((_, n)) ==> n <= b@.len(),
{
    if pos > b.len() || b.len() - pos < 2 {
        return None;
    }
    let len = read_be16(b, pos) as usize;
    if b.len() - pos - 2 < len {
        return None;
    }
    let raw = slice_to_vec(slice_subrange(b, pos + 2, pos + 2 + len));
    assert(raw@ =~= b@.subrange(pos + 2, pos + 2 + len));
    match utf8_text(raw) {
        Some(s) => Some((s, pos + 2 + len)),
        None => None,
    }
}

fn read_texts(b: &[u8], pos: usize, count: u16) -> (r: Option<(Vec<String>, usize)>)
    requires
        pos <= b@.len(),
    ensures
        r matches Some((_, n)) ==> n <= b@.len(),
        match parse_texts(b@, pos as int, count as nat) {
            Some((ts, end)) => r matches Some((v, n)) && v@.map_values(|s: String| s@) == ts && n == end,
            None => r is None,
        },
{
    let mut out: Vec<String> = Vec::new();
    let mut at = pos;
    let mut i: u16 = 0;
    while i < count
        invariant
            0 <= i <= count,
            at <= b@.len(),
            parse_texts(b@, pos as int, count as nat) == match parse_texts(b@, at as int, (count - i) as nat) {
                Some((rest, end)) => Some((out@.map_values(|s: String| s@) + rest, end)),
                None => None,
            },
        decreases count - i,
    {
        let ghost acc = out@.map_values(|s: String| s@);
        match read_text(b, at) {
            Some((s, next)) => {
                proof {
                    let tail = parse_texts(b@, next as int, (count - i - 1) as nat);
                    if let Some((rest, end)) = tail {
                        assert(acc + (seq![s@] + rest) =~= (acc.push(s@)) + rest);
                    }
                }
                out.push(s);
                at = next;
                i = i + 1;
                proof {
                    assert(out@.map_values(|s: String| s@) =~= acc.push(s@));
                }
            },
            None => {
                return None;
            },
        }
    }
    assert(out@.map_values(|s: String| s@) + Seq::<Seq<char>>::empty() =~= out@.map_values(|s: String| s@));
    Some((out, at))
}

fn read_attribute(b: &[u8], pos: usize) -> (r: Option<((String, Vec<String>), usize)>)
    ensures
        r matches Some((_, n)) ==> n <= b@.len(),
        match parse_attribute(b@, pos as int) {
            Some((a, end)) => r matches Some((v, n)) && v.0@ == a.0 && v.1@.map_values(|s: String| s@) == a.1
                && n == end,
            None => r is None,
        },
{
    let (name, next) = match read_text(b, pos) {
        Some(t) => t,
        None => {
            return None;
        },
    };
    if next > b.len() || b.len() - next < 2 {
        return None;
    }
    let count = read_be16(b, next);
    match read_texts(b, next + 2, count) {
        Some((values, end)) => Some(((name, values), end)),
        None => None,
    }
}

fn read_attributes(b: &[u8], pos: usize, count: u16) -> (r: Option<(Vec<(String, Vec<String>)>, usize)>)
    requires
        pos <= b@.len(),
    ensures
        r matches Some((_, n)) ==> n <= b@.len(),
        match parse_attributes(b@, pos as int, count as nat) {
            Some((attrs, end)) => r matches Some((v, n)) && attributes_view(v@) == attrs && n == end,
            None => r is None,
        },
{
    let mut out: Vec<(String, Vec<String>)> = Vec::new();
    let mut at = pos;
    let mut i: u16 = 0;
    while i < count
        invariant
            0 <= i <= count,
            at <= b@.len(),
            parse_attributes(b@, pos as int, count as nat) == match parse_attributes(b@, at as int, (count - i) as nat) {
                Some((rest, end)) => Some((attributes_view(out@) + rest, end)),
                None => None,
            },
        decreases count - i,
    {
        let ghost acc = attributes_view(out@);
        match read_attribute(b, at) {
            Some((a, next)) => {
                let ghost av = (a.0@, a.1@.map_values(|s: String| s@));
                proof {
                    let tail = parse_attributes(b@, next as int, (count - i - 1) as nat);
                    if let Some((rest, end)) = tail {
                        assert(acc + (seq![av] + rest) =~= (acc.push(av)) + rest);
                    }
                }
                out.push(a);
                at = next;
                i = i + 1;
                proof {
                    assert(attributes_view(out@) =~= acc.push(av));
                }
            },
            None => {
                return None;
            },
        }
    }
    assert(attributes_view(out@) + Seq::<(Seq<char>, Seq<Seq<char>>)>::empty() =~= attributes_view(out@));
    Some((out, at))
}

/// Decodes one request from its bytes.
pub fn decode_request(bytes: &[u8]) -> (r: Result<IppRequest, DecodeError>)
    ensures
        match r {
            Ok(req) => spec_decode_request(bytes@) == Ok::<RequestModel, DecodeError>(req@),
            Err(e) => spec_decode_request(bytes@) == Err::<RequestModel, DecodeError>(e),
        },
{
    if bytes.len() < 8 {
        return Err(DecodeError::Malformed { operation: 0, request_id: 0 });
    }
    let operation = read_be16(bytes, 2);
    let request_id = read_be16(bytes, 4);
    let version = match IppVersion::from_bytes(bytes[0], bytes[1]) {
        Some(v) => v,
        None => {
            return Err(DecodeError::UnsupportedVersion { operation, request_id });
        },
    };
    let operation_id = match IppOperation::from_code(operation) {
        Some(op) => op,
        None => {
            return Err(DecodeError::UnsupportedOperation { operation, request_id });
        },
    };
    let count = read_be16(bytes, 6);
    match read_attributes(bytes, 8, count) {
        Some((attributes, end)) => {
            let data = slice_to_vec(slice_subrange(bytes, end, bytes.len()));
            Ok(IppRequest { version, operation_id, request_id, attributes, data })
        },
        None => Err(DecodeError::Malformed { operation, request_id }),
    }
}

/// One response, fully buffered before it is written.
pub struct IppResponse {
    pub status_code: IppStatusCode,
    /// The operation code of the request answered, as it came.
    pub operation_id: u16,
    pub request_id: u16,
    pub attributes: Vec<(String, Vec<String>)>,
}

/// The mathematical value of a response.
pub struct ResponseModel {
    pub status: IppStatusCode,
    pub operation: u16,
    pub request_id: u16,
    pub attributes: Seq<(Seq<char>, Seq<Seq<char>>)>,
}

impl View for IppResponse {
    type V = ResponseModel;

    open spec fn view(&self) -> ResponseModel {
        ResponseModel {
            status: self.status_code,
            operation: self.operation_id,
            request_id: self.request_id,
            attributes: attributes_view(self.attributes@),
        }
    }
}

/// The two big-endian bytes of `v`.
pub open spec fn u16_bytes(v: u16) -> Seq<u8> {
    seq![(v / 256) as u8, (v % 256) as u8]
}

pub open spec fn encode_text(t: Seq<char>) -> Seq<u8> {
    u16_bytes(encode_utf8(t).len() as u16) + encode_utf8(t)
}

pub open spec fn encode_texts(ts: Seq<Seq<char>>) -> Seq<u8>
    decreases ts.len(),
{
    if ts.len() == 0 {
        Seq::empty()
    } else {
        encode_texts(ts.drop_last()) + encode_text(ts.last())
    }
}

pub open spec fn encode_attribute(a: (Seq<char>, Seq<Seq<char>>)) -> Seq<u8> {
    encode_text(a.0) + u16_bytes(a.1.len() as u16) + encode_texts(a.1)
}

pub open spec fn encode_attributes(attrs: Seq<(Seq<char>, Seq<Seq<char>>)>) -> Seq<u8>
    decreases attrs.len(),
{
    if attrs.len() == 0 {
        Seq::empty()
    } else {
        encode_attributes(attrs.drop_last()) + encode_attribute(attrs.last())
    }
}

/// Whether every count and length of `attrs` fits the wire's 16 bits.
pub open spec fn attributes_fit(attrs: Seq<(Seq<char>, Seq<Seq<char>>)>) -> bool {
    &&& attrs.len() <= 0xFFFF
    &&& forall|i: int| 0 <= i < attrs.len() ==> {
        &&& encode_utf8(#[trigger] attrs[i].0).len() <= 0xFFFF
        &&& attrs[i].1.len() <= 0xFFFF
        &&& forall|j: int| 0 <= j < attrs[i].1.len() ==> encode_utf8(#[trigger] attrs[i].1[j]).len() <= 0xFFFF
    }
}

/// The bytes of a response.
pub open spec fn spec_encode_response(r: ResponseModel) -> Seq<u8> {
    u16_bytes(r.status.spec_code()) + u16_bytes(r.operation) + u16_bytes(r.request_id) + u16_bytes(
        r.attributes.len() as u16,
    ) + encode_attributes(r.attributes)
}

fn write_u16(out: &mut Vec<u8>, v: u16)
    ensures
        final(out)@ == old(out)@ + u16_bytes(v),
{
    out.push((v / 256) as u8);
    out.push((v % 256) as u8);
    assert(final(out)@ =~= old(out)@ + u16_bytes(v));
}

/// Appends `s` as a text, if its length fits.
fn write_text(out: &mut Vec<u8>, s: &String) -> (ok: bool)
    ensures
        ok == (encode_utf8(s@).len() <= 0xFFFF),
        ok ==> final(out)@ == old(out)@ + encode_text(s@),
        !ok ==> final(out)@ == old(out)@,
{
    let bytes = s.as_str().as_bytes();
    if bytes.len() > 0xFFFF {
        return false;
    }
    write_u16(out, bytes.len() as u16);
    let mut copy = slice_to_vec(bytes);
    out.append(&mut copy);
    assert(final(out)@ =~= old(out)@ + encode_text(s@));
    true
}

fn write_attributes(out: &mut Vec<u8>, attrs: &Vec<(String, Vec<String>)>) -> (ok: bool)
    ensures
        ok == attributes_fit(attributes_view(attrs@)),
        ok ==> final(out)@ == old(out)@ + u16_bytes(attrs@.len() as u16) + encode_attributes(attributes_view(attrs@)),
{
    let ghost view = attributes_view(attrs@);
    if attrs.len() > 0xFFFF {
        return false;
    }
    write_u16(out, attrs.len() as u16);
    let ghost start = out@;
    let mut i: usize = 0;
    while i < attrs.len()
        invariant
            0 <= i <= attrs@.len(),
            attrs@.len() <= 0xFFFF,
            view == attributes_view(attrs@),
            out@ == start + encode_attributes(view.subrange(0, i as int)),
            forall|k: int| 0 <= k < i ==> {
                &&& encode_utf8(#[trigger] view[k].0).len() <= 0xFFFF
                &&& view[k].1.len() <= 0xFFFF
                &&& forall|j: int| 0 <= j < view[k].1.len() ==> encode_utf8(#[trigger] view[k].1[j]).len() <= 0xFFFF
            },
        decreases attrs@.len() - i,
    {
        let ghost before = out@;
        let (name, values) = &attrs[i];
        proof {
            assert(view[i as int].0 == name@);
            assert(view[i as int].1 == values@.map_values(|s: String| s@));
        }
        if !write_text(out, name) {
            assert(!(encode_utf8(view[i as int].0).len() <= 0xFFFF));
            return false;
        }
        if values.len() > 0xFFFF {
            assert(!(view[i as int].1.len() <= 0xFFFF));
            return false;
        }
        write_u16(out, values.len() as u16);
        let ghost mid = out@;
        let ghost vs = values@.map_values(|s: String| s@);
        let mut j: usize = 0;
        while j < values.len()
            invariant
                0 <= j <= values@.len(),
                vs == values@.map_values(|s: String| s@),
                0 <= i < view.len(),
                view == attributes_view(attrs@),
                view[i as int].1 == vs,
                out@ == mid + encode_texts(vs.subrange(0, j as int)),
                forall|m: int| 0 <= m < j ==> encode_utf8(#[trigger] vs[m]).len() <= 0xFFFF,
            decreases values@.len() - j,
        {
            let ghost prev = out@;
            if !write_text(out, &values[j]) {
                proof {
                    assert(vs[j as int] == values@[j as int]@);
                    if attributes_fit(view) {
                        assert(encode_utf8(view[i as int].0).len() <= 0xFFFF);
                        assert(encode_utf8(view[i as int].1[j as int]).len() <= 0xFFFF);
                    }
                }
                return false;
            }
            proof {
                assert(vs.subrange(0, j + 1).drop_last() =~= vs.subrange(0, j as int));
            }
            j = j + 1;
            assert(out@ =~= mid + encode_texts(vs.subrange(0, j as int)));
        }
        proof {
            assert(vs.subrange(0, j as int) =~= vs);
            assert(view[i as int] == (name@, vs));
            assert(view.subrange(0, i + 1).drop_last() =~= view.subrange(0, i as int));
        }
        i = i + 1;
        assert(out@ =~= start + encode_attributes(view.subrange(0, i as int)));
    }
    assert(view.subrange(0, i as int) =~= view);
    assert(out@ =~= old(out)@ + u16_bytes(attrs@.len() as u16) + encode_attributes(view));
    true
}

/// Encodes a response, or gives `None` when one of its counts or lengths
/// does not fit the wire's 16 bits.
pub fn encode_response(resp: &IppResponse) -> (r: Option<Vec<u8>>)
    ensures
        r is Some <==> attributes_fit(resp@.attributes),
        r matches Some(v) ==> v@ == spec_encode_response(resp@),
{
    let mut out: Vec<u8> = Vec::new();
    write_u16(&mut out, resp.status_code.code());
    write_u16(&mut out, resp.operation_id);
    write_u16(&mut out, resp.request_id);
    if write_attributes(&mut out, &resp.attributes) {
        assert(out@ =~= spec_encode_response(resp@));
        Some(out)
    } else {
        None
    }
}

/// The two bytes of a protocol version.
pub open spec fn version_bytes(v: IppVersion) -> Seq<u8> {
    match v {
        IppVersion::Ipp2_0 => seq![2u8, 0u8],
        IppVersion::Ipp2_1 => seq![2u8, 1u8],
    }
}

/// The bytes of a request.
pub open spec fn spec_encode_request(m: RequestModel) -> Seq<u8> {
    version_bytes(m.version) + u16_bytes(m.operation.spec_code()) + u16_bytes(m.request_id) + u16_bytes(
        m.attributes.len() as u16,
    ) + encode_attributes(m.attributes) + m.data
}

proof fn lemma_be16(p: Seq<u8>, v: u16, q: Seq<u8>)
    ensures
        be16(p + u16_bytes(v) + q, p.len() as int) == v,
{
    let b = p + u16_bytes(v) + q;
    assert(b[p.len() as int] == (v / 256) as u8);
    assert(b[p.len() + 1int] == (v % 256) as u8);
    assert((v / 256) as int * 256 + (v % 256) as int == v) by (nonlinear_arith);
}

proof fn lemma_parse_text(p: Seq<u8>, t: Seq<char>, q: Seq<u8>)
    requires
        encode_utf8(t).len() <= 0xFFFF,
    ensures
        parse_text(p + encode_text(t) + q, p.len() as int) == Some((t, p.len() + encode_text(t).len() as int)),
{
    let e = encode_utf8(t);
    let b = p + encode_text(t) + q;
    assert(b =~= p + u16_bytes(e.len() as u16) + (e + q));
    lemma_be16(p, e.len() as u16, e + q);
    let start: int = p.len() as int + 2;
    assert(b.subrange(start, start + e.len() as int) =~= e);
    encode_utf8_valid_utf8(t);
    encode_utf8_decode_utf8(t);
}

proof fn lemma_encode_texts_first(t: Seq<char>, rest: Seq<Seq<char>>)
    ensures
        encode_texts(seq![t] + rest) == encode_text(t) + encode_texts(rest),
    decreases rest.len(),
{
    if rest.len() == 0 {
        assert(seq![t] + rest =~= seq![t]);
        assert(seq![t].drop_last() =~= Seq::<Seq<char>>::empty());
        assert(seq![t].last() == t);
        assert(encode_texts(seq![t]) == encode_texts(seq![t].drop_last()) + encode_text(t));
        assert(encode_text(t) + Seq::<u8>::empty() =~= encode_text(t));
        assert(Seq::<u8>::empty() + encode_text(t) =~= encode_text(t));
    } else {
        let all = seq![t] + rest;
        assert(all.drop_last() =~= seq![t] + rest.drop_last());
        assert(all.last() == rest.last());
        assert(encode_texts(all) == encode_texts(all.drop_last()) + encode_text(all.last()));
        assert(encode_texts(rest) == encode_texts(rest.drop_last()) + encode_text(rest.last()));
        lemma_encode_texts_first(t, rest.drop_last());
        assert(encode_text(t) + encode_texts(rest.drop_last()) + encode_text(rest.last()) =~= encode_text(t) + (
        encode_texts(rest.drop_last()) + encode_text(rest.last())));
    }
}

/// Every text of `ts` fits the wire's 16-bit length.
pub open spec fn texts_fit(ts: Seq<Seq<char>>) -> bool {
    forall|j: int| 0 <= j < ts.len() ==> encode_utf8(#[trigger] ts[j]).len() <= 0xFFFF
}

proof fn lemma_parse_texts(p: Seq<u8>, ts: Seq<Seq<char>>, q: Seq<u8>)
    requires
        texts_fit(ts),
    ensures
        parse_texts(p + encode_texts(ts) + q, p.len() as int, ts.len()) == Some((ts, p.len() + encode_texts(ts).len() as int)),
    decreases ts.len(),
{
    if ts.len() == 0 {
        assert(ts =~= Seq::<Seq<char>>::empty());
    } else {
        let t = ts[0];
        let rest = ts.drop_first();
        assert(ts =~= seq![t] + rest);
        lemma_encode_texts_first(t, rest);
        let b = p + encode_texts(ts) + q;
        assert(b =~= p + encode_text(t) + (encode_texts(rest) + q));
        assert(encode_utf8(ts[0]).len() <= 0xFFFF);
        lemma_parse_text(p, t, encode_texts(rest) + q);
        let p2 = p + encode_text(t);
        assert(texts_fit(rest)) by {
            assert forall|j: int| 0 <= j < rest.len() implies encode_utf8(#[trigger] rest[j]).len() <= 0xFFFF by {
                assert(rest[j] == ts[j + 1]);
            }
        }
        lemma_parse_texts(p2, rest, q);
        assert(b =~= p2 + encode_texts(rest) + q);
        assert(seq![t] + rest =~= ts);
    }
}

proof fn lemma_encode_attributes_first(a: (Seq<char>, Seq<Seq<char>>), rest: Seq<(Seq<char>, Seq<Seq<char>>)>)
    ensures
        encode_attributes(seq![a] + rest) == encode_attribute(a) + encode_attributes(rest),
    decreases rest.len(),
{
    if rest.len() == 0 {
        assert(seq![a] + rest =~= seq![a]);
        assert(seq![a].drop_last() =~= Seq::<(Seq<char>, Seq<Seq<char>>)>::empty());
        assert(seq![a].last() == a);
        assert(encode_attributes(seq![a]) == encode_attributes(seq![a].drop_last()) + encode_attribute(a));
        assert(encode_attribute(a) + Seq::<u8>::empty() =~= encode_attribute(a));
        assert(Seq::<u8>::empty() + encode_attribute(a) =~= encode_attribute(a));
    } else {
        let all = seq![a] + rest;
        assert(all.drop_last() =~= seq![a] + rest.drop_last());
        assert(all.last() == rest.last());
        assert(encode_attributes(all) == encode_attributes(all.drop_last()) + encode_attribute(all.last()));
        assert(encode_attributes(rest) == encode_attributes(rest.drop_last()) + encode_attribute(rest.last()));
        lemma_encode_attributes_first(a, rest.drop_last());
        assert(encode_attribute(a) + encode_attributes(rest.drop_last()) + encode_attribute(rest.last()) =~= encode_attribute(
            a,
        ) + (encode_attributes(rest.drop_last()) + encode_attribute(rest.last())));
    }
}

proof fn lemma_parse_attribute(p: Seq<u8>, a: (Seq<char>, Seq<Seq<char>>), q: Seq<u8>)
    requires
        encode_utf8(a.0).len() <= 0xFFFF,
        a.1.len() <= 0xFFFF,
        texts_fit(a.1),
    ensures
        parse_attribute(p + encode_attribute(a) + q, p.len() as int) == Some((a, p.len() + encode_attribute(a).len() as int)),
{
    let b = p + encode_attribute(a) + q;
    let tail = u16_bytes(a.1.len() as u16) + encode_texts(a.1) + q;
    assert(b =~= p + encode_text(a.0) + tail);
    lemma_parse_text(p, a.0, tail);
    let p1 = p + encode_text(a.0);
    assert(b =~= p1 + u16_bytes(a.1.len() as u16) + (encode_texts(a.1) + q));
    lemma_be16(p1, a.1.len() as u16, encode_texts(a.1) + q);
    let p2 = p1 + u16_bytes(a.1.len() as u16);
    assert(b =~= p2 + encode_texts(a.1) + q);
    assert(a.1.len() as u16 as nat == a.1.len());
    lemma_parse_texts(p2, a.1, q);
}

proof fn lemma_parse_attributes(p: Seq<u8>, attrs: Seq<(Seq<char>, Seq<Seq<char>>)>, q: Seq<u8>)
    requires
        attributes_fit(attrs),
    ensures
        parse_attributes(p + encode_attributes(attrs) + q, p.len() as int, attrs.len()) == Some(
            (attrs, p.len() + encode_attributes(attrs).len() as int),
        ),
    decreases attrs.len(),
{
    if attrs.len() == 0 {
        assert(attrs =~= Seq::<(Seq<char>, Seq<Seq<char>>)>::empty());
    } else {
        let a = attrs[0];
        let rest = attrs.drop_first();
        assert(attrs =~= seq![a] + rest);
        lemma_encode_attributes_first(a, rest);
        let b = p + encode_attributes(attrs) + q;
        assert(encode_utf8(attrs[0].0).len() <= 0xFFFF);
        assert(texts_fit(a.1)) by {
            assert forall|j: int| 0 <= j < a.1.len() implies encode_utf8(#[trigger] a.1[j]).len() <= 0xFFFF by {
                assert(encode_utf8(attrs[0].1[j]).len() <= 0xFFFF);
            }
        }
        assert(b =~= p + encode_attribute(a) + (encode_attributes(rest) + q));
        lemma_parse_attribute(p, a, encode_attributes(rest) + q);
        let p3 = p + encode_attribute(a);
        assert(attributes_fit(rest)) by {
            assert forall|i: int| 0 <= i < rest.len() implies {
                &&& encode_utf8(#[trigger] rest[i].0).len() <= 0xFFFF
                &&& rest[i].1.len() <= 0xFFFF
                &&& forall|j: int| 0 <= j < rest[i].1.len() ==> encode_utf8(#[trigger] rest[i].1[j]).len() <= 0xFFFF
            } by {
                assert(rest[i] == attrs[i + 1]);
                assert(encode_utf8(attrs[i + 1].0).len() <= 0xFFFF);
            }
        }
        lemma_parse_attributes(p3, rest, q);
        assert(b =~= p3 + encode_attributes(rest) + q);
        assert(seq![a] + rest =~= attrs);
    }
}

proof fn lemma_u16_bytes(v: u16)
    ensures
        (v / 256) as u8 as int * 256 + (v % 256) as u8 as int == v,
{
    assert((v / 256) as int * 256 + (v % 256) as int == v) by (nonlinear_arith);
}

proof fn lemma_header(m: RequestModel, rest: Seq<u8>)
    ensures
        ({
            let b = version_bytes(m.version) + u16_bytes(m.operation.spec_code()) + u16_bytes(m.request_id) + u16_bytes(
                m.attributes.len() as u16,
            ) + rest;
            &&& b.len() == 8 + rest.len()
            &&& IppVersion::spec_from_bytes(b[0], b[1]) == Some(m.version)
            &&& be16(b, 2) == m.operation.spec_code()
            &&& be16(b, 4) == m.request_id
            &&& be16(b, 6) == m.attributes.len() as u16
            &&& b.subrange(8, b.len() as int) == rest
        }),
{
    let h = version_bytes(m.version) + u16_bytes(m.operation.spec_code()) + u16_bytes(m.request_id) + u16_bytes(
        m.attributes.len() as u16,
    );
    let b = h + rest;
    lemma_u16_bytes(m.operation.spec_code());
    lemma_u16_bytes(m.request_id);
    lemma_u16_bytes(m.attributes.len() as u16);
    assert(h.len() == 8);
    assert(b.subrange(8, b.len() as int) =~= rest);
}

/// Round-trip law: the bytes of a request whose counts and lengths fit the
/// wire decode to that request.
pub proof fn lemma_request_round_trip(m: RequestModel)
    requires
        attributes_fit(m.attributes),
    ensures
        spec_decode_request(spec_encode_request(m)) == Ok::<RequestModel, DecodeError>(m),
{
    let h = version_bytes(m.version) + u16_bytes(m.operation.spec_code()) + u16_bytes(m.request_id) + u16_bytes(
        m.attributes.len() as u16,
    );
    let enc = encode_attributes(m.attributes);
    let b = spec_encode_request(m);
    lemma_header(m, enc + m.data);
    assert(b =~= h + (enc + m.data));
    assert(b =~= h + enc + m.data);
    assert(h.len() == 8);
    lemma_parse_attributes(h, m.attributes, m.data);
    assert(m.attributes.len() as u16 as nat == m.attributes.len());
    assert(b.subrange(8 + enc.len() as int, b.len() as int) =~= m.data);
    assert(IppOperation::spec_from_code(m.operation.spec_code()) == Some(m.operation));
}

} // verus!
