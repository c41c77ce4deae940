use boomaga::dispatch::{format_decimal, options_from_attributes, parse_u32, process_request_bytes};
use boomaga::error::Error;
use boomaga::ipp::{decode_request, encode_response, DecodeError, IppOperation, IppResponse, IppStatusCode};
use boomaga::job::{DuplexMode, JobId, JobStatus, Orientation, PagesPerSheet};
use boomaga::processor::{JobOutcome, JobProcessor};
use boomaga::queue::JobQueue;
use boomaga::job::JobStatistics;

fn text(out: &mut Vec<u8>, s: &str) {
    out.extend_from_slice(&(s.len() as u16).to_be_bytes());
    out.extend_from_slice(s.as_bytes());
}

fn encode(version: (u8, u8), op: u16, request_id: u16, attrs: Vec<(&str, Vec<&str>)>, data: &[u8]) -> Vec<u8> {
    let mut out = vec![version.0, version.1];
    out.extend_from_slice(&op.to_be_bytes());
    out.extend_from_slice(&request_id.to_be_bytes());
    out.extend_from_slice(&(attrs.len() as u16).to_be_bytes());
    for (name, values) in &attrs {
        text(&mut out, name);
        out.extend_from_slice(&(values.len() as u16).to_be_bytes());
        for v in values.iter() {
            text(&mut out, v);
        }
    }
    out.extend_from_slice(data);
    out
}

fn processor() -> JobProcessor {
    JobProcessor::new(JobQueue::new(4).unwrap(), 4, 2).unwrap()
}

fn attribute<'a>(resp: &'a IppResponse, name: &str) -> Option<&'a Vec<String>> {
    resp.attributes.iter().find(|(n, _)| n == name).map(|(_, v)| v)
}

const CREATE: u16 = 0x0004;
const CANCEL: u16 = 0x0005;

#[test]
fn scenario_create_with_zero_copies_is_bad_request() {
    let mut p = processor();
    let bytes = encode((2, 0), CREATE, 7, vec![("copies", vec!["0"])], &[]);
    let resp = process_request_bytes(&mut p, &bytes, JobId(1), 1024);
    assert_eq!(resp.status_code, IppStatusCode::BadRequest);
    assert_eq!(resp.request_id, 7);
    assert!(attribute(&resp, "job-id").is_none());
    assert!(p.get_all_jobs().is_empty());
}

#[test]
fn scenario_created_job_completes() {
    let mut p = processor();
    let id = JobId(0x1234);
    let bytes = encode((2, 0), CREATE, 1, vec![("copies", vec!["2"]), ("sides", vec!["two-sided-long-edge"])], &[]);
    let resp = process_request_bytes(&mut p, &bytes, id, 1024);
    assert_eq!(resp.status_code, IppStatusCode::Successful);
    assert_eq!(attribute(&resp, "job-id").unwrap()[0], id.to_string());
    assert_eq!(p.get_status(id), Some(JobStatus::Queued));
    let job = p.start_next().unwrap();
    assert_eq!(job.options.copies, 2);
    assert_eq!(job.options.duplex, DuplexMode::LongEdge);
    assert_eq!(p.get_status(id), Some(JobStatus::Processing));
    p.finish_job(id, JobOutcome::Completed(JobStatistics::new(id, 5, 1, 0, 5))).unwrap();
    assert_eq!(p.get_status(id), Some(JobStatus::Completed));
    let query = encode((2, 0), 0x0009, 2, vec![("job-id", vec![&id.to_string()])], &[]);
    let resp = process_request_bytes(&mut p, &query, JobId(99), 1024);
    assert_eq!(resp.status_code, IppStatusCode::Successful);
    assert_eq!(attribute(&resp, "job-state").unwrap()[0], "Completed");
}

#[test]
fn scenario_cancel_unknown_job_is_not_found() {
    let mut p = processor();
    let unknown = JobId(0xfeed).to_string();
    let bytes = encode((2, 0), CANCEL, 3, vec![("job-id", vec![&unknown])], &[]);
    let resp = process_request_bytes(&mut p, &bytes, JobId(1), 1024);
    assert_eq!(resp.status_code, IppStatusCode::NotFound);
    let missing = encode((2, 0), CANCEL, 4, vec![], &[]);
    let resp = process_request_bytes(&mut p, &missing, JobId(1), 1024);
    assert_eq!(resp.status_code, IppStatusCode::BadRequest);
}

#[test]
fn cancel_known_job_reports_cancelled() {
    let mut p = processor();
    let id = JobId(77);
    process_request_bytes(&mut p, &encode((2, 1), CREATE, 1, vec![], &[]), id, 1024);
    let bytes = encode((2, 0), CANCEL, 2, vec![("job-id", vec![&id.to_string()])], &[]);
    let resp = process_request_bytes(&mut p, &bytes, JobId(1), 1024);
    assert_eq!(resp.status_code, IppStatusCode::Successful);
    assert_eq!(attribute(&resp, "job-state").unwrap()[0], "Cancelled");
    assert_eq!(p.get_status(id), Some(JobStatus::Cancelled));
}

#[test]
fn full_queue_answers_service_unavailable() {
    let mut p = JobProcessor::new(JobQueue::new(1).unwrap(), 4, 1).unwrap();
    let create = encode((2, 0), CREATE, 1, vec![], &[]);
    assert_eq!(process_request_bytes(&mut p, &create, JobId(1), 10).status_code, IppStatusCode::Successful);
    assert_eq!(process_request_bytes(&mut p, &create, JobId(2), 10).status_code, IppStatusCode::ServiceUnavailable);
    assert_eq!(p.get_all_jobs().len(), 1);
}

#[test]
fn decode_failures_never_reach_the_processor() {
    let mut p = processor();
    let short = process_request_bytes(&mut p, &[2, 0, 0], JobId(1), 10);
    assert_eq!(short.status_code, IppStatusCode::BadRequest);
    assert_eq!(short.request_id, 0);
    let old = process_request_bytes(&mut p, &encode((1, 1), CREATE, 9, vec![], &[]), JobId(1), 10);
    assert_eq!(old.status_code, IppStatusCode::VersionNotSupported);
    assert_eq!(old.request_id, 9);
    let unknown = process_request_bytes(&mut p, &encode((2, 0), 0x0033, 5, vec![], &[]), JobId(1), 10);
    assert_eq!(unknown.status_code, IppStatusCode::NotSupported);
    assert_eq!(unknown.operation_id, 0x0033);
    let mut cut = encode((2, 0), CREATE, 6, vec![("copies", vec!["3"])], &[]);
    cut.truncate(cut.len() - 1);
    let truncated = process_request_bytes(&mut p, &cut, JobId(1), 10);
    assert_eq!(truncated.status_code, IppStatusCode::BadRequest);
    assert!(p.get_all_jobs().is_empty());
}

#[test]
fn decode_reads_header_attributes_and_payload() {
    let bytes = encode((2, 1), 0x0011, 513, vec![("job-id", vec!["x"]), ("names", vec!["a", "b"])], &[9, 8, 7]);
    let req = decode_request(&bytes).unwrap();
    assert_eq!(req.operation_id, IppOperation::SendDocument);
    assert_eq!(req.request_id, 513);
    assert_eq!(req.attributes.len(), 2);
    assert_eq!(req.attributes[1].1, vec!["a".to_string(), "b".to_string()]);
    assert_eq!(req.data, vec![9, 8, 7]);
    assert!(matches!(decode_request(&[2, 0, 0, 4, 0, 1, 0, 1, 0]), Err(DecodeError::Malformed { operation: 4, request_id: 1 })));
    assert!(matches!(decode_request(&encode((2, 0), CREATE, 1, vec![("bad", vec![])], &[]))
        .map(|r| r.attributes.len()), Ok(1)));
    let invalid_utf8 = vec![2, 0, 0, 4, 0, 1, 0, 1, 0, 1, 0xff, 0, 0];
    assert!(matches!(decode_request(&invalid_utf8), Err(DecodeError::Malformed { .. })));
}

#[test]
fn encode_response_bytes() {
    let resp = IppResponse {
        status_code: IppStatusCode::NotFound,
        operation_id: 5,
        request_id: 258,
        attributes: vec![("m".to_string(), vec!["ok".to_string()])],
    };
    let bytes = encode_response(&resp).unwrap();
    assert_eq!(bytes, vec![0, 0x44, 0, 5, 1, 2, 0, 1, 0, 1, b'm', 0, 1, 0, 2, b'o', b'k']);
    let long = IppResponse {
        status_code: IppStatusCode::Successful,
        operation_id: 2,
        request_id: 1,
        attributes: vec![("x".repeat(70000), vec![])],
    };
    assert!(encode_response(&long).is_none());
}

#[test]
fn send_and_close_document() {
    let mut p = processor();
    let id = JobId(5);
    process_request_bytes(&mut p, &encode((2, 0), CREATE, 1, vec![], &[]), id, 4);
    let send = encode((2, 0), 0x0011, 2, vec![("job-id", vec![&id.to_string()])], &[1, 2, 3]);
    assert_eq!(process_request_bytes(&mut p, &send, JobId(0), 4).status_code, IppStatusCode::Successful);
    assert_eq!(process_request_bytes(&mut p, &send, JobId(0), 4).status_code, IppStatusCode::RequestEntityTooLarge);
    assert_eq!(p.document_len(id), Some(3));
    let close = encode((2, 0), 0x0006, 3, vec![("job-id", vec![&id.to_string()])], &[]);
    assert_eq!(process_request_bytes(&mut p, &close, JobId(0), 4).status_code, IppStatusCode::Successful);
    let more = encode((2, 0), 0x0011, 4, vec![("job-id", vec![&id.to_string()])], &[4]);
    assert_eq!(process_request_bytes(&mut p, &more, JobId(0), 4).status_code, IppStatusCode::BadRequest);
}

#[test]
fn printer_and_job_listing() {
    let mut p = processor();
    process_request_bytes(&mut p, &encode((2, 0), CREATE, 1, vec![], &[]), JobId(1), 4);
    process_request_bytes(&mut p, &encode((2, 0), CREATE, 2, vec![], &[]), JobId(2), 4);
    let jobs = process_request_bytes(&mut p, &encode((2, 0), 0x0010, 3, vec![], &[]), JobId(0), 4);
    assert_eq!(jobs.status_code, IppStatusCode::Successful);
    assert_eq!(attribute(&jobs, "job-count").unwrap()[0], "2");
    assert_eq!(attribute(&jobs, "job-state").unwrap(), &vec!["Queued".to_string(), "Queued".to_string()]);
    let printer = process_request_bytes(&mut p, &encode((2, 0), 0x0002, 4, vec![], &[]), JobId(0), 4);
    assert_eq!(printer.status_code, IppStatusCode::Successful);
    assert_eq!(attribute(&printer, "printer-name").unwrap()[0], "boomaga-ipp");
    assert_eq!(attribute(&printer, "printer-state").unwrap()[0], "idle");
    assert_eq!(attribute(&printer, "queued-job-count").unwrap()[0], "2");
}

#[test]
fn validate_job_changes_nothing() {
    let mut p = processor();
    let good = encode((2, 0), 0x000A, 1, vec![("number-up", vec!["4"])], &[]);
    assert_eq!(process_request_bytes(&mut p, &good, JobId(1), 4).status_code, IppStatusCode::Successful);
    let bad = encode((2, 0), 0x000A, 2, vec![("number-up", vec!["3"])], &[]);
    assert_eq!(process_request_bytes(&mut p, &bad, JobId(1), 4).status_code, IppStatusCode::BadRequest);
    assert!(p.get_all_jobs().is_empty());
}

#[test]
fn options_read_from_attributes() {
    let attrs = vec![
        ("copies".to_string(), vec!["3".to_string()]),
        ("number-up".to_string(), vec!["2".to_string()]),
        ("orientation-requested".to_string(), vec!["4".to_string()]),
        ("page-ranges".to_string(), vec!["2-9".to_string()]),
    ];
    let o = options_from_attributes(&attrs).unwrap();
    assert_eq!(o.copies, 3);
    assert_eq!(o.pages_per_sheet, PagesPerSheet::Two);
    assert_eq!(o.orientation, Orientation::Landscape);
    assert_eq!(o.page_range, Some((2, 9)));
    assert!(o.is_booklet());
    let reversed = vec![("page-ranges".to_string(), vec!["9-2".to_string()])];
    let r = options_from_attributes(&reversed).unwrap();
    assert!(matches!(r.validate(), Err(Error::InvalidOptions(_))));
    let garbled = vec![("page-ranges".to_string(), vec!["2-x".to_string()])];
    assert!(matches!(options_from_attributes(&garbled), Err(Error::InvalidOptions(_))));
    let bad_sides = vec![("sides".to_string(), vec!["both".to_string()])];
    assert!(matches!(options_from_attributes(&bad_sides), Err(Error::InvalidOptions(_))));
}

#[test]
fn decimal_numbers() {
    assert_eq!(parse_u32("0"), Some(0));
    assert_eq!(parse_u32("4294967295"), Some(u32::MAX));
    assert_eq!(parse_u32("4294967296"), None);
    assert_eq!(parse_u32(""), None);
    assert_eq!(parse_u32("12a"), None);
    assert_eq!(format_decimal(0), "0");
    assert_eq!(format_decimal(1907), "1907");
    assert_eq!(format_decimal(u64::MAX), u64::MAX.to_string());
}

#[test]
fn job_id_text_round_trip() {
    let id = JobId(0x0123_4567_89ab_cdef_0123_4567_89ab_cdef);
    let text = id.to_string();
    assert_eq!(text, "01234567-89ab-cdef-0123-456789abcdef");
    assert_eq!(JobId::parse(&text), Some(id));
    assert_eq!(JobId::parse("not a uuid"), None);
    assert_ne!(JobId::new(), JobId::new());
}
