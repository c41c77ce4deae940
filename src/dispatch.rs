//! The protocol dispatcher: turns one decoded request into calls on the job
//! processor and one response. It holds no state of its own.
//!
//! Attributes read from a creation or validation request, each by its first
//! value: `copies` (decimal, 1 when absent), `number-up` (1, 2, 4, 6 or 8),
//! `sides` (`one-sided`, `two-sided-long-edge`, `two-sided-short-edge`),
//! `orientation-requested` (3 portrait, 4 landscape, 5 reverse landscape,
//! 6 reverse portrait), `page-ranges` (`first-last`), `document-format`
//! (`application/pdf` or `application/postscript`) and `printer-name`.
//! Job operations name their job by a `job-id` attribute in UUID text.

use vstd::prelude::*;
use crate::error::Error;
use crate::ipp::{attributes_view, decode_request, spec_decode_request, DecodeError, IppOperation, IppRequest, IppResponse, IppStatusCode, RequestModel};
use crate::job::{
    uuid_parsed, uuid_text, DuplexMode, FileType, JobId, JobStatus, MarginMode, Orientation, PagesPerSheet, PrintJobRequest,
    PrintOptions,
};
use crate::processor::JobProcessor;

verus! {

/// The values of the first attribute called `name`.
pub open spec fn find_attribute(attrs: Seq<(Seq<char>, Seq<Seq<char>>)>, name: Seq<char>) -> Option<Seq<Seq<char>>>
    decreases attrs.len(),
{
    if attrs.len() == 0 {
        None
    } else if attrs[0].0 == name {
        Some(attrs[0].1)
    } else {
        find_attribute(attrs.drop_first(), name)
    }
}

/// The first value of the first attribute called `name`.
pub open spec fn attribute_value(attrs: Seq<(Seq<char>, Seq<Seq<char>>)>, name: Seq<char>) -> Option<Seq<char>> {
    match find_attribute(attrs, name) {
        Some(vs) => if vs.len() > 0 {
            Some(vs[0])
        } else {
            None
        },
        None => None,
    }
}

/// The number that a text of decimal digits spells.
pub open spec fn digits_value(s: Seq<char>) -> nat
    decreases s.len(),
{
    if s.len() == 0 {
        0
    } else {
        digits_value(s.drop_last()) * 10 + (s.last() as nat - '0' as nat) as nat
    }
}

pub open spec fn all_digits(s: Seq<char>) -> bool {
    forall|i: int| 0 <= i < s.len() ==> '0' <= #[trigger] s[i] <= '9'
}

/// A non-empty text of decimal digits whose number fits a `u32`.
pub open spec fn spec_parse_u32(s: Seq<char>) -> Option<u32> {
    if s.len() > 0 && all_digits(s) && digits_value(s) <= u32::MAX {
        Some(digits_value(s) as u32)
    } else {
        None
    }
}

/// The decimal digits of `n`.
pub open spec fn decimal_text(n: nat) -> Seq<char>
    decreases n,
{
    if n < 10 {
        seq![('0' as u8 + n) as char]
    } else {
        decimal_text(n / 10).push(('0' as u8 + (n % 10)) as char)
    }
}

proof fn lemma_digits_grow(s: Seq<char>, i: int)
    requires
        0 <= i <= s.len(),
        all_digits(s),
    ensures
        digits_value(s.subrange(0, i)) <= digits_value(s),
    decreases s.len() - i,
{
    if i < s.len() {
        lemma_digits_grow(s, i + 1);
        let p = s.subrange(0, i + 1);
        assert(p.drop_last() =~= s.subrange(0, i));
        assert('0' <= p.last() <= '9');
    } else {
        assert(s.subrange(0, i) =~= s);
    }
}

/// Reads a `u32` from decimal digits.
pub fn parse_u32(s: &str) -> (r: Option<u32>)
    ensures
        r == spec_parse_u32(s@),
{
    let n = s.unicode_len();
    if n == 0 {
        return None;
    }
    let mut value: u32 = 0;
    let mut i: usize = 0;
    while i < n
        invariant
            n == s@.len(),
            0 <= i <= n,
            all_digits(s@.subrange(0, i as int)),
            value as nat == digits_value(s@.subrange(0, i as int)),
        decreases n - i,
    {
        let c = s.get_char(i);
        if c < '0' || c > '9' {
            assert(!all_digits(s@));
            return None;
        }
        let d = (c as u32) - ('0' as u32);
        proof {
            let p = s@.subrange(0, i + 1);
            assert(p.drop_last() =~= s@.subrange(0, i as int));
            assert(all_digits(p));
        }
        if value > (u32::MAX - d) / 10 {
            proof {
                let p = s@.subrange(0, i + 1);
                assert(digits_value(p) > u32::MAX);
                if all_digits(s@) {
                    lemma_digits_grow(s@, i + 1);
                }
            }
            return None;
        }
        value = value * 10 + d;
        i = i + 1;
    }
    assert(s@.subrange(0, n as int) =~= s@);
    Some(value)
}

/// The single-character text of digit `d`.
fn digit_text(d: u64) -> (r: &'static str)
    requires
        d < 10,
    ensures
        r@ == seq![('0' as u8 + d) as char],
{
    proof {
        reveal_strlit("0");
        reveal_strlit("1");
        reveal_strlit("2");
        reveal_strlit("3");
        reveal_strlit("4");
        reveal_strlit("5");
        reveal_strlit("6");
        reveal_strlit("7");
        reveal_strlit("8");
        reveal_strlit("9");
    }
    if d == 0 {
        assert("0"@ =~= seq![('0' as u8 + d) as char]);
        "0"
    } else if d == 1 {
        assert("1"@ =~= seq![('0' as u8 + d) as char]);
        "1"
    } else if d == 2 {
        assert("2"@ =~= seq![('0' as u8 + d) as char]);
        "2"
    } else if d == 3 {
        assert("3"@ =~= seq![('0' as u8 + d) as char]);
        "3"
    } else if d == 4 {
        assert("4"@ =~= seq![('0' as u8 + d) as char]);
        "4"
    } else if d == 5 {
        assert("5"@ =~= seq![('0' as u8 + d) as char]);
        "5"
    } else if d == 6 {
        assert("6"@ =~= seq![('0' as u8 + d) as char]);
        "6"
    } else if d == 7 {
        assert("7"@ =~= seq![('0' as u8 + d) as char]);
        "7"
    } else if d == 8 {
        assert("8"@ =~= seq![('0' as u8 + d) as char]);
        "8"
    } else {
        assert("9"@ =~= seq![('0' as u8 + d) as char]);
        "9"
    }
}

/// The decimal text of `n`.
pub fn format_decimal(n: u64) -> (r: String)
    ensures
        r@ == decimal_text(n as nat),
    decreases n,
{
    if n < 10 {
        String::from_str(digit_text(n))
    } else {
        let head = format_decimal(n / 10);
        head.concat(digit_text(n % 10))
    }
}

/// The value of the first attribute called `name`, by its first value.
pub fn lookup_value<'a>(attrs: &'a Vec<(String, Vec<String>)>, name: &str) -> (r: Option<&'a String>)
    ensures
        match attribute_value(attributes_view(attrs@), name@) {
            Some(v) => r matches Some(s) && s@ == v,
            None => r is None,
        },
{
    let ghost view = attributes_view(attrs@);
    let key = String::from_str(name);
    let mut i: usize = 0;
    assert(view.subrange(0, view.len() as int) =~= view);
    while i < attrs.len()
        invariant
            0 <= i <= attrs@.len(),
            view == attributes_view(attrs@),
            key@ == name@,
            find_attribute(view, name@) == find_attribute(view.subrange(i as int, view.len() as int), name@),
        decreases attrs@.len() - i,
    {
        proof {
            let rest = view.subrange(i as int, view.len() as int);
            assert(rest[0] == view[i as int]);
            assert(rest.drop_first() =~= view.subrange(i + 1, view.len() as int));
        }
        if attrs[i].0 == key {
            let values = &attrs[i].1;
            if values.len() == 0 {
                return None;
            }
            return Some(&values[0]);
        }
        i = i + 1;
    }
    proof {
        assert(view.subrange(i as int, view.len() as int).len() == 0);
    }
    None
}

pub open spec fn spec_copies(attrs: Seq<(Seq<char>, Seq<Seq<char>>)>) -> Option<u32> {
    match attribute_value(attrs, "copies"@) {
        None => Some(1),
        Some(v) => spec_parse_u32(v),
    }
}

pub open spec fn spec_number_up(attrs: Seq<(Seq<char>, Seq<Seq<char>>)>) -> Option<PagesPerSheet> {
    match attribute_value(attrs, "number-up"@) {
        None => Some(PagesPerSheet::One),
        Some(v) => match spec_parse_u32(v) {
            Some(n) => PagesPerSheet::spec_from_count(n),
            None => None,
        },
    }
}

pub open spec fn spec_sides(attrs: Seq<(Seq<char>, Seq<Seq<char>>)>) -> Option<DuplexMode> {
    match attribute_value(attrs, "sides"@) {
        None => Some(DuplexMode::Simplex),
        Some(v) => if v == "one-sided"@ {
            Some(DuplexMode::Simplex)
        } else if v == "two-sided-long-edge"@ {
            Some(DuplexMode::LongEdge)
        } else if v == "two-sided-short-edge"@ {
            Some(DuplexMode::ShortEdge)
        } else {
            None
        },
    }
}

pub open spec fn spec_orientation(attrs: Seq<(Seq<char>, Seq<Seq<char>>)>) -> Option<Orientation> {
    match attribute_value(attrs, "orientation-requested"@) {
        None => Some(Orientation::Portrait),
        Some(v) => if v == "3"@ {
            Some(Orientation::Portrait)
        } else if v == "4"@ {
            Some(Orientation::Landscape)
        } else if v == "5"@ {
            Some(Orientation::UpsideDownLandscape)
        } else if v == "6"@ {
            Some(Orientation::UpsideDownPortrait)
        } else {
            None
        },
    }
}

pub open spec fn spec_file_type(attrs: Seq<(Seq<char>, Seq<Seq<char>>)>) -> Option<FileType> {
    match attribute_value(attrs, "document-format"@) {
        None => Some(FileType::Pdf),
        Some(v) => if v == "application/pdf"@ {
            Some(FileType::Pdf)
        } else if v == "application/postscript"@ {
            Some(FileType::PostScript)
        } else {
            None
        },
    }
}

/// Whether `k` is the position of the first dash of `s`.
pub open spec fn is_first_dash(s: Seq<char>, k: int) -> bool {
    0 <= k < s.len() && s[k] == '-' && forall|j: int| 0 <= j < k ==> s[j] != '-'
}

/// A page range written `first-last`, both decimal, split at the first
/// dash.
pub open spec fn spec_range(s: Seq<char>) -> Option<(usize, usize)> {
    if exists|k: int| is_first_dash(s, k) {
        let k = choose|k: int| is_first_dash(s, k);
        match (spec_parse_u32(s.subrange(0, k)), spec_parse_u32(s.subrange(k + 1, s.len() as int))) {
            (Some(a), Some(b)) => Some((a as usize, b as usize)),
            _ => None,
        }
    } else {
        None
    }
}

/// The page range asked for: `Some(None)` when none is.
pub open spec fn spec_page_range(attrs: Seq<(Seq<char>, Seq<Seq<char>>)>) -> Option<Option<(usize, usize)>> {
    match attribute_value(attrs, "page-ranges"@) {
        None => Some(None),
        Some(v) => match spec_range(v) {
            Some(r) => Some(Some(r)),
            None => None,
        },
    }
}

/// The print options that `attrs` spell, if every one of them reads.
pub open spec fn spec_options(attrs: Seq<(Seq<char>, Seq<Seq<char>>)>) -> Option<PrintOptions> {
    match (spec_copies(attrs), spec_number_up(attrs), spec_sides(attrs), spec_orientation(attrs), spec_page_range(attrs)) {
        (Some(copies), Some(pages_per_sheet), Some(duplex), Some(orientation), Some(page_range)) => Some(
            PrintOptions {
                copies,
                collate: false,
                duplex,
                orientation,
                page_range,
                pages_per_sheet,
                scale_percent: 100,
                margins: MarginMode::Normal,
            },
        ),
        _ => None,
    }
}

fn equals(s: &String, literal: &str) -> (r: bool)
    ensures
        r == (s@ == literal@),
{
    let other = String::from_str(literal);
    *s == other
}

fn read_range(s: &str) -> (r: Option<(usize, usize)>)
    ensures
        r == spec_range(s@),
{
    let n = s.unicode_len();
    let mut k: usize = 0;
    let mut found = false;
    while k < n && !found
        invariant
            n == s@.len(),
            0 <= k <= n,
            forall|j: int| 0 <= j < k ==> s@[j] != '-',
            found ==> k < n && s@[k as int] == '-',
        decreases n - k + (if found { 0int } else { 1int }),
    {
        if s.get_char(k) == '-' {
            found = true;
        } else {
            k = k + 1;
        }
    }
    if !found {
        return None;
    }
    let first = parse_u32(s.substring_char(0, k));
    let last = parse_u32(s.substring_char(k + 1, n));
    proof {
        assert(is_first_dash(s@, k as int));
        let w = choose|j: int| is_first_dash(s@, j);
        assert(w == k) by {
            if w < k {
                assert(s@[w] != '-');
            } else if w > k {
                assert(s@[k as int] != '-');
            }
        }
    }
    match (first, last) {
        (Some(a), Some(b)) => Some((a as usize, b as usize)),
        _ => None,
    }
}

/// Reads the print options from a request's attributes; fails with
/// `InvalidOptions` where one of them does not read.
pub fn options_from_attributes(attrs: &Vec<(String, Vec<String>)>) -> (r: Result<PrintOptions, Error>)
    ensures
        match spec_options(attributes_view(attrs@)) {
            Some(o) => r == Ok::<PrintOptions, Error>(o),
            None => r matches Err(e) && e is InvalidOptions,
        },
{
    let ghost view = attributes_view(attrs@);
    let copies = match lookup_value(attrs, "copies") {
        None => 1u32,
        Some(v) => match parse_u32(v.as_str()) {
            Some(c) => c,
            None => {
                return Err(Error::InvalidOptions(String::from_str("copies is not a number")));
            },
        },
    };
    let pages_per_sheet = match lookup_value(attrs, "number-up") {
        None => PagesPerSheet::One,
        Some(v) => match parse_u32(v.as_str()) {
            Some(c) => match PagesPerSheet::from_count(c) {
                Some(p) => p,
                None => {
                    return Err(Error::InvalidOptions(String::from_str("number-up must be 1, 2, 4, 6 or 8")));
                },
            },
            None => {
                return Err(Error::InvalidOptions(String::from_str("number-up is not a number")));
            },
        },
    };
    let duplex = match lookup_value(attrs, "sides") {
        None => DuplexMode::Simplex,
        Some(v) => if equals(v, "one-sided") {
            DuplexMode::Simplex
        } else if equals(v, "two-sided-long-edge") {
            DuplexMode::LongEdge
        } else if equals(v, "two-sided-short-edge") {
            DuplexMode::ShortEdge
        } else {
            return Err(Error::InvalidOptions(String::from_str("unknown sides")));
        },
    };
    let orientation = match lookup_value(attrs, "orientation-requested") {
        None => Orientation::Portrait,
        Some(v) => if equals(v, "3") {
            Orientation::Portrait
        } else if equals(v, "4") {
            Orientation::Landscape
        } else if equals(v, "5") {
            Orientation::UpsideDownLandscape
        } else if equals(v, "6") {
            Orientation::UpsideDownPortrait
        } else {
            return Err(Error::InvalidOptions(String::from_str("unknown orientation-requested")));
        },
    };
    let page_range = match lookup_value(attrs, "page-ranges") {
        None => None,
        Some(v) => match read_range(v.as_str()) {
            Some(r) => Some(r),
            None => {
                return Err(Error::InvalidOptions(String::from_str("page-ranges must read first-last")));
            },
        },
    };
    Ok(PrintOptions {
        copies,
        collate: false,
        duplex,
        orientation,
        page_range,
        pages_per_sheet,
        scale_percent: 100,
        margins: MarginMode::Normal,
    })
}

/// Reads the document format; fails with `InvalidOptions` for one this
/// printer does not take.
pub fn file_type_from_attributes(attrs: &Vec<(String, Vec<String>)>) -> (r: Result<FileType, Error>)
    ensures
        match spec_file_type(attributes_view(attrs@)) {
            Some(t) => r == Ok::<FileType, Error>(t),
            None => r matches Err(e) && e is InvalidOptions,
        },
{
    match lookup_value(attrs, "document-format") {
        None => Ok(FileType::Pdf),
        Some(v) => if equals(v, "application/pdf") {
            Ok(FileType::Pdf)
        } else if equals(v, "application/postscript") {
            Ok(FileType::PostScript)
        } else {
            Err(Error::InvalidOptions(String::from_str("unsupported document-format")))
        },
    }
}

/// The job a request names: `None` when it names none, `Some(None)` when
/// its `job-id` is no identifier.
pub open spec fn spec_requested_job(attrs: Seq<(Seq<char>, Seq<Seq<char>>)>) -> Option<Option<JobId>> {
    match attribute_value(attrs, "job-id"@) {
        None => None,
        Some(v) => Some(
            match uuid_parsed(v) {
                Some(x) => Some(JobId(x)),
                None => None,
            },
        ),
    }
}

/// Reads the job a request names.
pub fn requested_job(attrs: &Vec<(String, Vec<String>)>) -> (r: Option<Option<JobId>>)
    ensures
        r == spec_requested_job(attributes_view(attrs@)),
{
    match lookup_value(attrs, "job-id") {
        None => None,
        Some(v) => Some(JobId::parse(v.as_str())),
    }
}

/// The protocol status that reports an admission error.
pub open spec fn spec_status_for_error(e: Error) -> IppStatusCode {
    match e {
        Error::InvalidOptions(_) => IppStatusCode::BadRequest,
        Error::QueueFull | Error::TooManyJobs => IppStatusCode::ServiceUnavailable,
        Error::NotFound(_) => IppStatusCode::NotFound,
        Error::DocumentTooLarge => IppStatusCode::RequestEntityTooLarge,
        Error::Job(_) => IppStatusCode::BadRequest,
        _ => IppStatusCode::InternalError,
    }
}

/// Maps an error of the job processor to the status of the response.
pub fn status_for_error(e: &Error) -> (r: IppStatusCode)
    ensures
        r == spec_status_for_error(*e),
{
    match e {
        Error::InvalidOptions(_) => IppStatusCode::BadRequest,
        Error::QueueFull | Error::TooManyJobs => IppStatusCode::ServiceUnavailable,
        Error::NotFound(_) => IppStatusCode::NotFound,
        Error::DocumentTooLarge => IppStatusCode::RequestEntityTooLarge,
        Error::Job(_) => IppStatusCode::BadRequest,
        _ => IppStatusCode::InternalError,
    }
}

/// The attribute list of an error response: one human-readable message.
pub open spec fn is_error_message(attrs: Seq<(Seq<char>, Seq<Seq<char>>)>) -> bool {
    attrs.len() == 1 && attrs[0].0 == "status-message"@ && attrs[0].1.len() == 1
}

fn text_attribute(name: &str, value: String) -> (r: (String, Vec<String>))
    ensures
        r.0@ == name@,
        r.1@.map_values(|s: String| s@) == seq![value@],
{
    let mut values: Vec<String> = Vec::new();
    let ghost v = value@;
    values.push(value);
    assert(values@.map_values(|s: String| s@) =~= seq![v]);
    (String::from_str(name), values)
}

/// A response that carries only a status and a message.
pub fn message_response(status: IppStatusCode, operation: u16, request_id: u16, message: &str) -> (r: IppResponse)
    ensures
        r@.status == status,
        r@.operation == operation,
        r@.request_id == request_id,
        r@.attributes == seq![("status-message"@, seq![message@])],
{
    let mut attributes: Vec<(String, Vec<String>)> = Vec::new();
    let a = text_attribute("status-message", String::from_str(message));
    let ghost av = (a.0@, a.1@.map_values(|s: String| s@));
    attributes.push(a);
    assert(attributes_view(attributes@) =~= seq![av]);
    IppResponse { status_code: status, operation_id: operation, request_id, attributes }
}

/// The response to a request that could not be decoded.
pub fn decode_error_response(e: DecodeError) -> (r: IppResponse)
    ensures
        match e {
            DecodeError::Malformed { operation, request_id } => r@.status == IppStatusCode::BadRequest
                && r@.operation == operation && r@.request_id == request_id,
            DecodeError::UnsupportedVersion { operation, request_id } => r@.status
                == IppStatusCode::VersionNotSupported && r@.operation == operation && r@.request_id == request_id,
            DecodeError::UnsupportedOperation { operation, request_id } => r@.status == IppStatusCode::NotSupported
                && r@.operation == operation && r@.request_id == request_id,
        },
        is_error_message(r@.attributes),
{
    match e {
        DecodeError::Malformed { operation, request_id } => message_response(
            IppStatusCode::BadRequest,
            operation,
            request_id,
            "the request is malformed",
        ),
        DecodeError::UnsupportedVersion { operation, request_id } => message_response(
            IppStatusCode::VersionNotSupported,
            operation,
            request_id,
            "the protocol version is not supported",
        ),
        DecodeError::UnsupportedOperation { operation, request_id } => message_response(
            IppStatusCode::NotSupported,
            operation,
            request_id,
            "the operation is not supported",
        ),
    }
}

/// The status a creation or validation request gets from its attributes
/// alone: `Successful` when its options read and hold.
pub open spec fn spec_admission_status(attrs: Seq<(Seq<char>, Seq<Seq<char>>)>) -> IppStatusCode {
    match spec_options(attrs) {
        Some(o) => if o.spec_valid() && spec_file_type(attrs) is Some {
            IppStatusCode::Successful
        } else {
            IppStatusCode::BadRequest
        },
        None => IppStatusCode::BadRequest,
    }
}

/// Handles a creation request: admits a job with id `new_id` built from the
/// request's attributes. A job that cannot be admitted leaves the processor
/// as it was: bad options answer `BadRequest`; a full queue, or as many
/// unfinished jobs as the processor admits, `ServiceUnavailable`.
pub fn handle_create_job(processor: &mut JobProcessor, request: &IppRequest, new_id: JobId) -> (r: IppResponse)
    requires
        old(processor).wf(),
    ensures
        final(processor).wf(),
        JobProcessor::same_limits(old(processor), final(processor)),
        JobProcessor::lifecycle_respected(old(processor), final(processor)),
        r@.operation == request.operation_id.spec_code(),
        r@.request_id == request.request_id,
        spec_admission_status(request@.attributes) != IppStatusCode::Successful ==> r@.status
            == IppStatusCode::BadRequest,
        spec_admission_status(request@.attributes) == IppStatusCode::Successful ==> {
            &&& old(processor).status_of(new_id) is Some ==> r@.status == IppStatusCode::InternalError
            &&& old(processor).status_of(new_id) is None && !JobProcessor::has_room(old(processor)) ==> r@.status
                == IppStatusCode::ServiceUnavailable
            &&& old(processor).status_of(new_id) is None && JobProcessor::has_room(old(processor)) ==> r@.status
                == IppStatusCode::Successful
        },
        r@.status != IppStatusCode::Successful ==> *final(processor) == *old(processor) && is_error_message(
            r@.attributes,
        ),
        r@.status == IppStatusCode::Successful ==> {
            &&& final(processor).status_of(new_id) == Some(JobStatus::Queued)
            &&& final(processor).entries() == old(processor).entries().push((new_id, JobStatus::Queued))
            &&& final(processor).pending().len() == old(processor).pending().len() + 1
            &&& final(processor).pending().last().job_id == new_id
            &&& spec_options(request@.attributes) == Some(final(processor).pending().last().options)
            &&& spec_file_type(request@.attributes) == Some(final(processor).pending().last().file_type)
            &&& r@.attributes == seq![("job-id"@, seq![uuid_text(new_id.0)]), ("job-state"@, seq!["Queued"@])]
        },
{
    let op = request.operation_id.code();
    let options = match options_from_attributes(&request.attributes) {
        Ok(o) => o,
        Err(_) => {
            return message_response(IppStatusCode::BadRequest, op, request.request_id, "the print options are invalid");
        },
    };
    let file_type = match file_type_from_attributes(&request.attributes) {
        Ok(t) => t,
        Err(_) => {
            return message_response(IppStatusCode::BadRequest, op, request.request_id, "the document format is not supported");
        },
    };
    let printer_name = match lookup_value(&request.attributes, "printer-name") {
        Some(v) => Some(v.clone()),
        None => None,
    };
    let job = PrintJobRequest { job_id: new_id, file_path: String::new(), file_type, printer_name, options };
    let ghost job_view = job;
    match processor.add_job(job) {
        Ok(()) => {
            let mut attributes: Vec<(String, Vec<String>)> = Vec::new();
            let a = text_attribute("job-id", new_id.to_string());
            let b = text_attribute("job-state", String::from_str(JobStatus::Queued.as_str()));
            let ghost av = (a.0@, a.1@.map_values(|s: String| s@));
            let ghost bv = (b.0@, b.1@.map_values(|s: String| s@));
            attributes.push(a);
            attributes.push(b);
            assert(attributes_view(attributes@) =~= seq![av, bv]);
            assert(final(processor).pending().last() == job_view);
            IppResponse { status_code: IppStatusCode::Successful, operation_id: op, request_id: request.request_id, attributes }
        },
        Err(e) => {
            let status = status_for_error(&e);
            if status == IppStatusCode::ServiceUnavailable {
                message_response(status, op, request.request_id, "the printer is busy")
            } else {
                message_response(status, op, request.request_id, "the job could not be admitted")
            }
        },
    }
}

/// Handles a validation request: checks the options as a creation would,
/// and changes nothing.
pub fn handle_validate_job(request: &IppRequest) -> (r: IppResponse)
    ensures
        r@.operation == request.operation_id.spec_code(),
        r@.request_id == request.request_id,
        r@.status == spec_admission_status(request@.attributes),
        r@.status != IppStatusCode::Successful ==> is_error_message(r@.attributes),
        r@.status == IppStatusCode::Successful ==> r@.attributes == Seq::<(Seq<char>, Seq<Seq<char>>)>::empty(),
{
    let op = request.operation_id.code();
    let options = match options_from_attributes(&request.attributes) {
        Ok(o) => o,
        Err(_) => {
            return message_response(IppStatusCode::BadRequest, op, request.request_id, "the print options are invalid");
        },
    };
    if options.validate().is_err() {
        return message_response(IppStatusCode::BadRequest, op, request.request_id, "the print options are invalid");
    }
    match file_type_from_attributes(&request.attributes) {
        Ok(_) => {
            let attributes: Vec<(String, Vec<String>)> = Vec::new();
            assert(attributes_view(attributes@) =~= Seq::<(Seq<char>, Seq<Seq<char>>)>::empty());
            IppResponse { status_code: IppStatusCode::Successful, operation_id: op, request_id: request.request_id, attributes }
        },
        Err(_) => message_response(IppStatusCode::BadRequest, op, request.request_id, "the document format is not supported"),
    }
}

/// The status a request about one job gets when that job is missing:
/// `BadRequest` when it names no job, `NotFound` when it names one the
/// processor does not know.
pub open spec fn spec_job_lookup_status(p: &JobProcessor, attrs: Seq<(Seq<char>, Seq<Seq<char>>)>) -> Option<IppStatusCode> {
    match spec_requested_job(attrs) {
        None => Some(IppStatusCode::BadRequest),
        Some(None) => Some(IppStatusCode::NotFound),
        Some(Some(id)) => if p.status_of(id) is None {
            Some(IppStatusCode::NotFound)
        } else {
            None
        },
    }
}

/// Finds the known job a request names, or the response that says why
/// there is none.
fn known_job(processor: &JobProcessor, request: &IppRequest) -> (r: Result<JobId, IppResponse>)
    requires
        processor.wf(),
    ensures
        match spec_job_lookup_status(processor, request@.attributes) {
            Some(status) => r matches Err(resp) && resp@.status == status && resp@.operation
                == request.operation_id.spec_code() && resp@.request_id == request.request_id && is_error_message(
                resp@.attributes,
            ),
            None => r matches Ok(id) && spec_requested_job(request@.attributes) == Some(Some(id)),
        },
{
    let op = request.operation_id.code();
    match requested_job(&request.attributes) {
        None => Err(message_response(IppStatusCode::BadRequest, op, request.request_id, "the request names no job")),
        Some(None) => Err(message_response(IppStatusCode::NotFound, op, request.request_id, "no such job")),
        Some(Some(id)) => if processor.get_status(id).is_none() {
            Err(message_response(IppStatusCode::NotFound, op, request.request_id, "no such job"))
        } else {
            Ok(id)
        },
    }
}

/// Handles a cancellation: delegates to `cancel_job` and reports the job's
/// status afterwards.
pub fn handle_cancel_job(processor: &mut JobProcessor, request: &IppRequest) -> (r: IppResponse)
    requires
        old(processor).wf(),
    ensures
        final(processor).wf(),
        JobProcessor::same_limits(old(processor), final(processor)),
        JobProcessor::lifecycle_respected(old(processor), final(processor)),
        r@.operation == request.operation_id.spec_code(),
        r@.request_id == request.request_id,
        match spec_job_lookup_status(old(processor), request@.attributes) {
            Some(status) => r@.status == status && *final(processor) == *old(processor) && is_error_message(
                r@.attributes,
            ),
            None => spec_requested_job(request@.attributes) matches Some(Some(id)) && old(processor).status_of(id) matches Some(
                s,
            ) && r@.status == IppStatusCode::Successful && final(processor).status_of(id) == Some(
                crate::processor::cancel_transition(s),
            ) && r@.attributes == seq![("job-state"@, seq![crate::processor::cancel_transition(s).spec_name()])],
        },
{
    let id = match known_job(processor, request) {
        Ok(id) => id,
        Err(resp) => {
            return resp;
        },
    };
    let op = request.operation_id.code();
    match processor.cancel_job(id) {
        Ok(status) => {
            let mut attributes: Vec<(String, Vec<String>)> = Vec::new();
            let a = text_attribute("job-state", String::from_str(status.as_str()));
            let ghost av = (a.0@, a.1@.map_values(|s: String| s@));
            attributes.push(a);
            assert(attributes_view(attributes@) =~= seq![av]);
            IppResponse { status_code: IppStatusCode::Successful, operation_id: op, request_id: request.request_id, attributes }
        },
        Err(_) => message_response(IppStatusCode::NotFound, op, request.request_id, "no such job"),
    }
}

/// Handles a request for one job's attributes: its id and status.
pub fn handle_get_job_attributes(processor: &JobProcessor, request: &IppRequest) -> (r: IppResponse)
    requires
        processor.wf(),
    ensures
        r@.operation == request.operation_id.spec_code(),
        r@.request_id == request.request_id,
        match spec_job_lookup_status(processor, request@.attributes) {
            Some(status) => r@.status == status && is_error_message(r@.attributes),
            None => spec_requested_job(request@.attributes) matches Some(Some(id)) && processor.status_of(id) matches Some(
                s,
            ) && r@.status == IppStatusCode::Successful && r@.attributes == seq![
                ("job-id"@, seq![uuid_text(id.0)]),
                ("job-state"@, seq![s.spec_name()]),
            ],
        },
{
    let id = match known_job(processor, request) {
        Ok(id) => id,
        Err(resp) => {
            return resp;
        },
    };
    let op = request.operation_id.code();
    match processor.get_status(id) {
        Some(status) => {
            let mut attributes: Vec<(String, Vec<String>)> = Vec::new();
            let a = text_attribute("job-id", id.to_string());
            let b = text_attribute("job-state", String::from_str(status.as_str()));
            let ghost av = (a.0@, a.1@.map_values(|s: String| s@));
            let ghost bv = (b.0@, b.1@.map_values(|s: String| s@));
            attributes.push(a);
            attributes.push(b);
            assert(attributes_view(attributes@) =~= seq![av, bv]);
            IppResponse { status_code: IppStatusCode::Successful, operation_id: op, request_id: request.request_id, attributes }
        },
        None => message_response(IppStatusCode::NotFound, op, request.request_id, "no such job"),
    }
}

/// Handles a document transfer: appends the request's payload to the
/// job's document, up to `max_job_size` bytes in all.
pub fn handle_send_document(processor: &mut JobProcessor, request: &IppRequest, max_job_size: usize) -> (r: IppResponse)
    requires
        old(processor).wf(),
    ensures
        final(processor).wf(),
        JobProcessor::same_limits(old(processor), final(processor)),
        JobProcessor::lifecycle_respected(old(processor), final(processor)),
        r@.operation == request.operation_id.spec_code(),
        r@.request_id == request.request_id,
        r@.status != IppStatusCode::Successful ==> *final(processor) == *old(processor) && is_error_message(
            r@.attributes,
        ),
        match spec_job_lookup_status(old(processor), request@.attributes) {
            Some(status) => r@.status == status,
            None => spec_requested_job(request@.attributes) matches Some(Some(id)) && {
                &&& old(processor).is_document_closed(id) ==> r@.status == IppStatusCode::BadRequest
                &&& !old(processor).is_document_closed(id) && old(processor).document_of(id).len() + request@.data.len()
                    > max_job_size ==> r@.status == IppStatusCode::RequestEntityTooLarge
                &&& !old(processor).is_document_closed(id) && old(processor).document_of(id).len() + request@.data.len()
                    <= max_job_size ==> r@.status == IppStatusCode::Successful && final(processor).document_of(id)
                    == old(processor).document_of(id) + request@.data && r@.attributes == Seq::<
                    (Seq<char>, Seq<Seq<char>>),
                >::empty()
            },
        },
{
    let id = match known_job(processor, request) {
        Ok(id) => id,
        Err(resp) => {
            return resp;
        },
    };
    let op = request.operation_id.code();
    let data = request.data.clone();
    match processor.append_document(id, data, max_job_size) {
        Ok(()) => {
            let attributes: Vec<(String, Vec<String>)> = Vec::new();
            assert(attributes_view(attributes@) =~= Seq::<(Seq<char>, Seq<Seq<char>>)>::empty());
            IppResponse { status_code: IppStatusCode::Successful, operation_id: op, request_id: request.request_id, attributes }
        },
        Err(e) => {
            let status = status_for_error(&e);
            message_response(status, op, request.request_id, "the document was refused")
        },
    }
}

/// Handles the end of a document transfer.
pub fn handle_close_job(processor: &mut JobProcessor, request: &IppRequest) -> (r: IppResponse)
    requires
        old(processor).wf(),
    ensures
        final(processor).wf(),
        JobProcessor::same_limits(old(processor), final(processor)),
        JobProcessor::lifecycle_respected(old(processor), final(processor)),
        r@.operation == request.operation_id.spec_code(),
        r@.request_id == request.request_id,
        match spec_job_lookup_status(old(processor), request@.attributes) {
            Some(status) => r@.status == status && *final(processor) == *old(processor) && is_error_message(
                r@.attributes,
            ),
            None => spec_requested_job(request@.attributes) matches Some(Some(id)) && r@.status
                == IppStatusCode::Successful && final(processor).is_document_closed(id) && final(processor).entries()
                == old(processor).entries() && r@.attributes == Seq::<(Seq<char>, Seq<Seq<char>>)>::empty(),
        },
{
    let id = match known_job(processor, request) {
        Ok(id) => id,
        Err(resp) => {
            return resp;
        },
    };
    let op = request.operation_id.code();
    match processor.close_document(id) {
        Ok(()) => {
            let attributes: Vec<(String, Vec<String>)> = Vec::new();
            assert(attributes_view(attributes@) =~= Seq::<(Seq<char>, Seq<Seq<char>>)>::empty());
            IppResponse { status_code: IppStatusCode::Successful, operation_id: op, request_id: request.request_id, attributes }
        },
        Err(_) => message_response(IppStatusCode::NotFound, op, request.request_id, "no such job"),
    }
}

/// The attributes describing this printer.
pub open spec fn printer_attributes(p: &JobProcessor) -> Seq<(Seq<char>, Seq<Seq<char>>)> {
    seq![
        ("printer-name"@, seq!["boomaga-ipp"@]),
        ("printer-info"@, seq!["Boomaga Virtual Printer"@]),
        ("printer-state"@, seq![if p.active_count() == 0 { "idle"@ } else { "processing"@ }]),
        ("document-format-supported"@, seq!["application/pdf"@, "application/postscript"@]),
        ("queued-job-count"@, seq![decimal_text(p.pending().len())]),
    ]
}

/// Handles a request for the printer's attributes; it always succeeds.
pub fn handle_get_printer_attributes(processor: &JobProcessor, request: &IppRequest) -> (r: IppResponse)
    requires
        processor.wf(),
    ensures
        r@.operation == request.operation_id.spec_code(),
        r@.request_id == request.request_id,
        r@.status == IppStatusCode::Successful,
        r@.attributes == printer_attributes(processor),
{
    let mut attributes: Vec<(String, Vec<String>)> = Vec::new();
    let a = text_attribute("printer-name", String::from_str("boomaga-ipp"));
    let b = text_attribute("printer-info", String::from_str("Boomaga Virtual Printer"));
    let state = if processor.active_jobs() == 0 {
        String::from_str("idle")
    } else {
        String::from_str("processing")
    };
    let c = text_attribute("printer-state", state);
    let mut formats: Vec<String> = Vec::new();
    formats.push(String::from_str("application/pdf"));
    formats.push(String::from_str("application/postscript"));
    assert(formats@.map_values(|s: String| s@) =~= seq!["application/pdf"@, "application/postscript"@]);
    let d = (String::from_str("document-format-supported"), formats);
    let e = text_attribute("queued-job-count", format_decimal(processor.queue_size() as u64));
    let ghost views = seq![
        (a.0@, a.1@.map_values(|s: String| s@)),
        (b.0@, b.1@.map_values(|s: String| s@)),
        (c.0@, c.1@.map_values(|s: String| s@)),
        (d.0@, d.1@.map_values(|s: String| s@)),
        (e.0@, e.1@.map_values(|s: String| s@)),
    ];
    attributes.push(a);
    attributes.push(b);
    attributes.push(c);
    attributes.push(d);
    attributes.push(e);
    assert(attributes_view(attributes@) =~= views);
    assert(views =~= printer_attributes(processor));
    IppResponse {
        status_code: IppStatusCode::Successful,
        operation_id: request.operation_id.code(),
        request_id: request.request_id,
        attributes,
    }
}

/// The attributes listing every job: their number, ids and statuses.
pub open spec fn jobs_attributes(entries: Seq<(JobId, JobStatus)>) -> Seq<(Seq<char>, Seq<Seq<char>>)> {
    seq![
        ("job-count"@, seq![decimal_text(entries.len())]),
        ("job-id"@, Seq::new(entries.len(), |i: int| uuid_text(entries[i].0.0))),
        ("job-state"@, Seq::new(entries.len(), |i: int| entries[i].1.spec_name())),
    ]
}

/// Handles a request for the list of jobs; it always succeeds.
pub fn handle_get_jobs(processor: &JobProcessor, request: &IppRequest) -> (r: IppResponse)
    requires
        processor.wf(),
    ensures
        r@.operation == request.operation_id.spec_code(),
        r@.request_id == request.request_id,
        r@.status == IppStatusCode::Successful,
        r@.attributes == jobs_attributes(processor.entries()),
{
    let jobs = processor.get_all_jobs();
    let ghost e = processor.entries();
    let mut ids: Vec<String> = Vec::new();
    let mut states: Vec<String> = Vec::new();
    let mut i: usize = 0;
    while i < jobs.len()
        invariant
            jobs@ == e,
            0 <= i <= jobs@.len(),
            ids@.map_values(|s: String| s@) == Seq::new(i as nat, |k: int| uuid_text(e[k].0.0)),
            states@.map_values(|s: String| s@) == Seq::new(i as nat, |k: int| e[k].1.spec_name()),
        decreases jobs@.len() - i,
    {
        let (id, status) = jobs[i];
        assert(id == e[i as int].0 && status == e[i as int].1);
        let ghost old_ids = ids@.map_values(|s: String| s@);
        let ghost old_states = states@.map_values(|s: String| s@);
        let id_text = id.to_string();
        let state_text = String::from_str(status.as_str());
        let ghost id_view = id_text@;
        let ghost state_view = state_text@;
        ids.push(id_text);
        states.push(state_text);
        assert(ids@.map_values(|s: String| s@) =~= old_ids.push(id_view));
        assert(states@.map_values(|s: String| s@) =~= old_states.push(state_view));
        i = i + 1;
        assert(ids@.map_values(|s: String| s@) =~= Seq::new(i as nat, |k: int| uuid_text(e[k].0.0)));
        assert(states@.map_values(|s: String| s@) =~= Seq::new(i as nat, |k: int| e[k].1.spec_name()));
    }
    let mut attributes: Vec<(String, Vec<String>)> = Vec::new();
    let a = text_attribute("job-count", format_decimal(jobs.len() as u64));
    let ghost av = (a.0@, a.1@.map_values(|s: String| s@));
    attributes.push(a);
    attributes.push((String::from_str("job-id"), ids));
    attributes.push((String::from_str("job-state"), states));
    assert(attributes_view(attributes@) =~= jobs_attributes(e));
    IppResponse {
        status_code: IppStatusCode::Successful,
        operation_id: request.operation_id.code(),
        request_id: request.request_id,
        attributes,
    }
}

/// The status of the response to `req` when the processor is `p`, the id
/// drawn for a new job is `new_id` and documents may hold `max_job_size`
/// bytes.
pub open spec fn spec_response_status(p: &JobProcessor, req: RequestModel, new_id: JobId, max_job_size: usize) -> IppStatusCode {
    let attrs = req.attributes;
    match req.operation {
        IppOperation::CreateJob => if spec_admission_status(attrs) != IppStatusCode::Successful {
            IppStatusCode::BadRequest
        } else if p.status_of(new_id) is Some {
            IppStatusCode::InternalError
        } else if !JobProcessor::has_room(p) {
            IppStatusCode::ServiceUnavailable
        } else {
            IppStatusCode::Successful
        },
        IppOperation::ValidateJob => spec_admission_status(attrs),
        IppOperation::SendDocument => match spec_job_lookup_status(p, attrs) {
            Some(status) => status,
            None => match spec_requested_job(attrs) {
                Some(Some(id)) => if p.is_document_closed(id) {
                    IppStatusCode::BadRequest
                } else if p.document_of(id).len() + req.data.len() > max_job_size {
                    IppStatusCode::RequestEntityTooLarge
                } else {
                    IppStatusCode::Successful
                },
                _ => IppStatusCode::InternalError,
            },
        },
        IppOperation::CancelJob | IppOperation::GetJobAttributes | IppOperation::CloseJob => match spec_job_lookup_status(
            p,
            attrs,
        ) {
            Some(status) => status,
            None => IppStatusCode::Successful,
        },
        IppOperation::GetPrinterAttributes | IppOperation::GetJobs => IppStatusCode::Successful,
    }
}

/// Whether an operation only reads.
pub open spec fn is_read_only(op: IppOperation) -> bool {
    op is GetPrinterAttributes || op is GetJobs || op is GetJobAttributes || op is ValidateJob
}

/// Routes one decoded request to its handler and returns the response.
/// `new_id` is the id a creation request gives its job.
pub fn handle_request(processor: &mut JobProcessor, request: &IppRequest, new_id: JobId, max_job_size: usize) -> (r: IppResponse)
    requires
        old(processor).wf(),
    ensures
        final(processor).wf(),
        JobProcessor::same_limits(old(processor), final(processor)),
        JobProcessor::lifecycle_respected(old(processor), final(processor)),
        r@.operation == request.operation_id.spec_code(),
        r@.request_id == request.request_id,
        r@.status == spec_response_status(old(processor), request@, new_id, max_job_size),
        r@.status != IppStatusCode::Successful ==> *final(processor) == *old(processor) && is_error_message(
            r@.attributes,
        ),
        is_read_only(request.operation_id) ==> *final(processor) == *old(processor),
        request.operation_id is GetPrinterAttributes ==> r@.attributes == printer_attributes(old(processor)),
        request.operation_id is GetJobs ==> r@.attributes == jobs_attributes(old(processor).entries()),
        request.operation_id is CreateJob && r@.status == IppStatusCode::Successful ==> {
            &&& final(processor).status_of(new_id) == Some(JobStatus::Queued)
            &&& final(processor).entries() == old(processor).entries().push((new_id, JobStatus::Queued))
            &&& r@.attributes == seq![("job-id"@, seq![uuid_text(new_id.0)]), ("job-state"@, seq!["Queued"@])]
        },
        request.operation_id is CancelJob && r@.status == IppStatusCode::Successful ==> (spec_requested_job(
            request@.attributes,
        ) matches Some(Some(id)) && old(processor).status_of(id) matches Some(s) && final(processor).status_of(id)
            == Some(crate::processor::cancel_transition(s))),
        request.operation_id is SendDocument && r@.status == IppStatusCode::Successful ==> (spec_requested_job(
            request@.attributes,
        ) matches Some(Some(id)) && final(processor).document_of(id) == old(processor).document_of(id)
            + request@.data),
        request.operation_id is CloseJob && r@.status == IppStatusCode::Successful ==> (spec_requested_job(
            request@.attributes,
        ) matches Some(Some(id)) && final(processor).is_document_closed(id)),
{
    match request.operation_id {
        IppOperation::CreateJob => handle_create_job(processor, request, new_id),
        IppOperation::SendDocument => handle_send_document(processor, request, max_job_size),
        IppOperation::CloseJob => handle_close_job(processor, request),
        IppOperation::CancelJob => handle_cancel_job(processor, request),
        IppOperation::GetPrinterAttributes => handle_get_printer_attributes(processor, request),
        IppOperation::GetJobs => handle_get_jobs(processor, request),
        IppOperation::GetJobAttributes => handle_get_job_attributes(processor, request),
        IppOperation::ValidateJob => handle_validate_job(request),
    }
}

/// One request/response cycle on bytes: decodes the request, routes it,
/// and answers a request that does not decode without touching the
/// processor.
pub fn process_request_bytes(processor: &mut JobProcessor, bytes: &[u8], new_id: JobId, max_job_size: usize) -> (r: IppResponse)
    requires
        old(processor).wf(),
    ensures
        final(processor).wf(),
        JobProcessor::same_limits(old(processor), final(processor)),
        JobProcessor::lifecycle_respected(old(processor), final(processor)),
        match spec_decode_request(bytes@) {
            Ok(req) => r@.status == spec_response_status(old(processor), req, new_id, max_job_size)
                && r@.operation == req.operation.spec_code() && r@.request_id == req.request_id,
            Err(e) => *final(processor) == *old(processor) && is_error_message(r@.attributes) && match e {
                DecodeError::Malformed { operation, request_id } => r@.status == IppStatusCode::BadRequest
                    && r@.operation == operation && r@.request_id == request_id,
                DecodeError::UnsupportedVersion { operation, request_id } => r@.status
                    == IppStatusCode::VersionNotSupported && r@.operation == operation && r@.request_id == request_id,
                DecodeError::UnsupportedOperation { operation, request_id } => r@.status == IppStatusCode::NotSupported
                    && r@.operation == operation && r@.request_id == request_id,
            },
        },
{
    match decode_request(bytes) {
        Ok(request) => handle_request(processor, &request, new_id, max_job_size),
        Err(e) => decode_error_response(e),
    }
}

} // verus!
