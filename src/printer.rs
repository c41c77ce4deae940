//! The printer as its local clients see it: its status and the operations
//! the desktop bus offers, each a thin layer over the job processor.

use vstd::prelude::*;
use crate::error::Error;
use crate::job::{uuid_parsed, JobId, JobStatus};
use crate::processor::{cancel_transition, JobProcessor};

verus! {

/// The state of the printer.
#[derive(Debug, Clone, Copy, PartialEq, Eq, Structural)]
pub enum PrinterStatus {
    Idle,
    Busy,
    Paused,
    Stopped,
    Error,
    Offline,
}

impl PrinterStatus {
    pub open spec fn spec_name(self) -> Seq<char> {
        match self {
            PrinterStatus::Idle => "Idle"@,
            PrinterStatus::Busy => "Busy"@,
            PrinterStatus::Paused => "Paused"@,
            PrinterStatus::Stopped => "Stopped"@,
            PrinterStatus::Error => "Error"@,
            PrinterStatus::Offline => "Offline"@,
        }
    }

    /// The status's name.
    pub fn as_str(self) -> (r: &'static str)
        ensures
            r@ == self.spec_name(),
    {
        match self {
            PrinterStatus::Idle => "Idle",
            PrinterStatus::Busy => "Busy",
            PrinterStatus::Paused => "Paused",
            PrinterStatus::Stopped => "Stopped",
            PrinterStatus::Error => "Error",
            PrinterStatus::Offline => "Offline",
        }
    }
}

/// The printer's interface on the desktop bus: the properties it publishes
/// and the operations it offers. Job ids are UUID texts.
pub struct BoomagaIppInterface {
    pub printer_name: String,
    pub printer_description: String,
    pub printer_status: PrinterStatus,
    pub job_queue_size: usize,
    pub active_jobs: usize,
    pub supported_formats: Vec<String>,
}

/// The job a bus call names, if its text is an identifier.
pub open spec fn named_job(job_id: Seq<char>) -> Option<JobId> {
    match uuid_parsed(job_id) {
        Some(v) => Some(JobId(v)),
        None => None,
    }
}

impl BoomagaIppInterface {
    /// The interface of an idle printer with no jobs.
    pub fn new() -> (r: BoomagaIppInterface)
        ensures
            r.printer_name@ == "boomaga-ipp"@,
            r.printer_description@ == "Boomaga Virtual Printer"@,
            r.printer_status == PrinterStatus::Idle,
            r.job_queue_size == 0,
            r.active_jobs == 0,
            r.supported_formats@.len() == 2,
            r.supported_formats@[0]@ == "application/pdf"@,
            r.supported_formats@[1]@ == "application/postscript"@,
    {
        let mut supported_formats: Vec<String> = Vec::new();
        supported_formats.push(String::from_str("application/pdf"));
        supported_formats.push(String::from_str("application/postscript"));
        BoomagaIppInterface {
            printer_name: String::from_str("boomaga-ipp"),
            printer_description: String::from_str("Boomaga Virtual Printer"),
            printer_status: PrinterStatus::Idle,
            job_queue_size: 0,
            active_jobs: 0,
            supported_formats,
        }
    }

    /// Copies the queue size and the number of processing jobs from the
    /// processor; the printer is busy while any job processes.
    pub fn refresh(&mut self, processor: &JobProcessor)
        requires
            processor.wf(),
        ensures
            final(self).job_queue_size == processor.pending().len(),
            final(self).active_jobs == processor.active_count(),
            final(self).printer_status == (if processor.active_count() == 0 {
                PrinterStatus::Idle
            } else {
                PrinterStatus::Busy
            }),
            final(self).printer_name == old(self).printer_name,
            final(self).printer_description == old(self).printer_description,
            final(self).supported_formats == old(self).supported_formats,
    {
        self.job_queue_size = processor.queue_size();
        self.active_jobs = processor.active_jobs();
        self.printer_status = if self.active_jobs == 0 {
            PrinterStatus::Idle
        } else {
            PrinterStatus::Busy
        };
    }

    /// The printer's name, description and state, whatever attributes are
    /// asked for.
    pub fn get_printer_attributes(&self, attributes: Vec<String>) -> (r: Vec<(String, String)>)
        ensures
            r@.len() == 3,
            r@[0].0@ == "printer-name"@ && r@[0].1@ == self.printer_name@,
            r@[1].0@ == "printer-info"@ && r@[1].1@ == self.printer_description@,
            r@[2].0@ == "printer-state"@ && r@[2].1@ == (if self.printer_status == PrinterStatus::Idle {
                "idle"@
            } else {
                "processing"@
            }),
    {
        let mut attrs: Vec<(String, String)> = Vec::new();
        attrs.push((String::from_str("printer-name"), self.printer_name.clone()));
        attrs.push((String::from_str("printer-info"), self.printer_description.clone()));
        let state = if self.printer_status == PrinterStatus::Idle {
            String::from_str("idle")
        } else {
            String::from_str("processing")
        };
        attrs.push((String::from_str("printer-state"), state));
        attrs
    }

    /// Cancels the job named by `job_id`, as `cancel_job` of the processor
    /// does, and reports its status afterwards.
    pub fn cancel_job(&self, processor: &mut JobProcessor, job_id: String) -> (r: Result<JobStatus, Error>)
        requires
            old(processor).wf(),
        ensures
            final(processor).wf(),
            JobProcessor::lifecycle_respected(old(processor), final(processor)),
            match named_job(job_id@) {
                None => (r matches Err(e) && e is NotFound) && *final(processor) == *old(processor),
                Some(id) => match old(processor).status_of(id) {
                    None => (r matches Err(e) && e is NotFound) && *final(processor) == *old(processor),
                    Some(s) => r == Ok::<JobStatus, Error>(cancel_transition(s)) && final(processor).status_of(id)
                        == Some(cancel_transition(s)),
                },
            },
    {
        match JobId::parse(job_id.as_str()) {
            Some(id) => processor.cancel_job(id),
            None => Err(Error::NotFound(String::from_str("no job with this id"))),
        }
    }

    /// Appends `document` to the job named by `job_id`, up to
    /// `max_job_size` bytes in all.
    pub fn send_document(
        &self,
        processor: &mut JobProcessor,
        job_id: String,
        document: Vec<u8>,
        max_job_size: usize,
    ) -> (r: Result<(), Error>)
        requires
            old(processor).wf(),
        ensures
            final(processor).wf(),
            JobProcessor::lifecycle_respected(old(processor), final(processor)),
            r is Err ==> *final(processor) == *old(processor),
            named_job(job_id@) is None ==> (r matches Err(e) && e is NotFound),
            named_job(job_id@) matches Some(id) ==> {
                &&& old(processor).status_of(id) is None ==> (r matches Err(e) && e is NotFound)
                &&& r is Ok ==> final(processor).document_of(id) == old(processor).document_of(id) + document@
                &&& old(processor).status_of(id) is Some && !old(processor).is_document_closed(id) ==> (r is Ok
                    <==> old(processor).document_of(id).len() + document@.len() <= max_job_size)
            },
    {
        match JobId::parse(job_id.as_str()) {
            Some(id) => processor.append_document(id, document, max_job_size),
            None => Err(Error::NotFound(String::from_str("no job with this id"))),
        }
    }

    /// Marks the document transfer of the job named by `job_id` complete.
    pub fn close_job(&self, processor: &mut JobProcessor, job_id: String) -> (r: Result<(), Error>)
        requires
            old(processor).wf(),
        ensures
            final(processor).wf(),
            JobProcessor::lifecycle_respected(old(processor), final(processor)),
            r is Err ==> *final(processor) == *old(processor),
            r is Ok <==> (named_job(job_id@) matches Some(id) && old(processor).status_of(id) is Some),
            r matches Err(e) ==> e is NotFound,
            r is Ok ==> (named_job(job_id@) matches Some(id) && final(processor).is_document_closed(id)),
    {
        match JobId::parse(job_id.as_str()) {
            Some(id) => processor.close_document(id),
            None => Err(Error::NotFound(String::from_str("no job with this id"))),
        }
    }

    /// Asks for the job named by `job_id` to be printed: its document is
    /// complete, so it is closed, and the job's status is reported.
    pub fn print_document(&self, processor: &mut JobProcessor, job_id: String) -> (r: Result<JobStatus, Error>)
        requires
            old(processor).wf(),
        ensures
            final(processor).wf(),
            JobProcessor::lifecycle_respected(old(processor), final(processor)),
            r is Err ==> *final(processor) == *old(processor),
            r matches Err(e) ==> e is NotFound,
            match named_job(job_id@) {
                None => r is Err,
                Some(id) => match old(processor).status_of(id) {
                    None => r is Err,
                    Some(s) => r == Ok::<JobStatus, Error>(s) && final(processor).is_document_closed(id)
                        && final(processor).status_of(id) == Some(s),
                },
            },
    {
        match JobId::parse(job_id.as_str()) {
            Some(id) => match processor.close_document(id) {
                Ok(()) => match processor.get_status(id) {
                    Some(s) => Ok(s),
                    None => Err(Error::NotFound(String::from_str("no job with this id"))),
                },
                Err(e) => Err(e),
            },
            None => Err(Error::NotFound(String::from_str("no job with this id"))),
        }
    }
}

} // verus!
