use boomaga::error::Error;
use boomaga::job::{FileType, JobId, JobStatus, PrintJobRequest, PrintOptions};
use boomaga::printer::{BoomagaIppInterface, PrinterStatus};
use boomaga::processor::JobProcessor;
use boomaga::queue::JobQueue;

fn request(id: u128) -> PrintJobRequest {
    PrintJobRequest {
        job_id: JobId(id),
        file_path: String::new(),
        file_type: FileType::Pdf,
        printer_name: None,
        options: PrintOptions::default(),
    }
}

#[test]
fn bus_interface_over_processor() {
    let mut p = JobProcessor::new(JobQueue::new(4).unwrap(), 2, 1).unwrap();
    let mut iface = BoomagaIppInterface::new();
    p.add_job(request(1)).unwrap();
    let text = JobId(1).to_string();
    iface.send_document(&mut p, text.clone(), vec![1, 2], 10).unwrap();
    assert_eq!(iface.print_document(&mut p, text.clone()).unwrap(), JobStatus::Queued);
    iface.close_job(&mut p, text.clone()).unwrap();
    p.start_next().unwrap();
    iface.refresh(&p);
    assert_eq!(iface.active_jobs, 1);
    assert_eq!(iface.printer_status, PrinterStatus::Busy);
    let attrs = iface.get_printer_attributes(vec![]);
    assert_eq!(attrs[2], ("printer-state".to_string(), "processing".to_string()));
    assert_eq!(iface.cancel_job(&mut p, text).unwrap(), JobStatus::Processing);
    assert!(matches!(iface.cancel_job(&mut p, "nope".to_string()), Err(Error::NotFound(_))));
    assert!(matches!(iface.close_job(&mut p, JobId(9).to_string()), Err(Error::NotFound(_))));
    assert_eq!(PrinterStatus::Offline.as_str(), "Offline");
}
