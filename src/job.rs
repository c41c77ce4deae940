//! The job model: identifiers, requests, options, statuses and statistics.

use vstd::prelude::*;
use crate::error::Error;

verus! {

/// What `uuid` renders as the text of a 128-bit identifier.
pub uninterp spec fn uuid_text(v: u128) -> Seq<char>;

/// What `uuid` reads as an identifier from a text, if anything.
pub uninterp spec fn uuid_parsed(s: Seq<char>) -> Option<u128>;

/// Unique identifier of a print job: a 128-bit value.
#[derive(Debug, Clone, Copy, PartialEq, Eq, Structural, Hash)]
pub struct JobId(pub u128);

impl JobId {
    /// A fresh random identifier (a version 4 UUID).
    ///
    /// Relies on `uuid::Uuid::new_v4`; nothing is known of the value drawn.
    #[verifier::external_body]
    pub fn new() -> (r: JobId) {
        JobId(uuid::Uuid::new_v4().as_u128())
    }

    /// The identifier as hyphenated UUID text.
    ///
    /// Relies on `Uuid`'s `Display`: the hyphenated form, 36 characters long.
    #[verifier::external_body]
    pub fn to_string(&self) -> (r: String)
        ensures
            r@ == uuid_text(self.0),
            r@.len() == 36,
    {
        uuid::Uuid::from_u128(self.0).to_string()
    }

    /// Reads an identifier from UUID text.
    ///
    /// Relies on `uuid::Uuid::parse_str`, which accepts the usual UUID forms.
    #[verifier::external_body]
    pub fn parse(s: &str) -> (r: Option<JobId>)
        ensures
            r == match uuid_parsed(s@) {
                Some(v) => Some(JobId(v)),
                None => None::<JobId>,
            },
    {
        match uuid::Uuid::parse_str(s) {
            Ok(u) => Some(JobId(u.as_u128())),
            Err(_) => None,
        }
    }
}

/// Status of a print job.
#[derive(Debug, Clone, Copy, PartialEq, Eq, Structural)]
pub enum JobStatus {
    Queued,
    Processing,
    Completed,
    Cancelled,
    Failed,
    Held,
    Aborted,
}

impl JobStatus {
    /// No transition leaves a terminal status.
    pub open spec fn spec_is_terminal(self) -> bool {
        self is Completed || self is Cancelled || self is Failed || self is Aborted
    }

    /// The lifecycle state machine: the transitions a job may take.
    pub open spec fn spec_can_transition(self, next: JobStatus) -> bool {
        match (self, next) {
            (JobStatus::Queued, JobStatus::Processing) => true,
            (JobStatus::Queued, JobStatus::Cancelled) => true,
            (JobStatus::Queued, JobStatus::Held) => true,
            (JobStatus::Held, JobStatus::Queued) => true,
            (JobStatus::Processing, JobStatus::Completed) => true,
            (JobStatus::Processing, JobStatus::Failed) => true,
            (JobStatus::Processing, JobStatus::Cancelled) => true,
            _ => false,
        }
    }

    pub open spec fn spec_name(self) -> Seq<char> {
        match self {
            JobStatus::Queued => "Queued"@,
            JobStatus::Processing => "Processing"@,
            JobStatus::Completed => "Completed"@,
            JobStatus::Cancelled => "Cancelled"@,
            JobStatus::Failed => "Failed"@,
            JobStatus::Held => "Held"@,
            JobStatus::Aborted => "Aborted"@,
        }
    }

    /// Whether no further transition can leave this status.
    pub fn is_terminal(self) -> (r: bool)
        ensures
            r == self.spec_is_terminal(),
    {
        match self {
            JobStatus::Completed | JobStatus::Cancelled | JobStatus::Failed | JobStatus::Aborted => true,
            _ => false,
        }
    }

    /// Whether the lifecycle allows a job to go from this status to `next`.
    pub fn can_transition_to(self, next: JobStatus) -> (r: bool)
        ensures
            r == self.spec_can_transition(next),
    {
        match (self, next) {
            (JobStatus::Queued, JobStatus::Processing) => true,
            (JobStatus::Queued, JobStatus::Cancelled) => true,
            (JobStatus::Queued, JobStatus::Held) => true,
            (JobStatus::Held, JobStatus::Queued) => true,
            (JobStatus::Processing, JobStatus::Completed) => true,
            (JobStatus::Processing, JobStatus::Failed) => true,
            (JobStatus::Processing, JobStatus::Cancelled) => true,
            _ => false,
        }
    }

    /// The status's name, as shown to users.
    pub fn as_str(self) -> (r: &'static str)
        ensures
            r@ == self.spec_name(),
    {
        match self {
            JobStatus::Queued => "Queued",
            JobStatus::Processing => "Processing",
            JobStatus::Completed => "Completed",
            JobStatus::Cancelled => "Cancelled",
            JobStatus::Failed => "Failed",
            JobStatus::Held => "Held",
            JobStatus::Aborted => "Aborted",
        }
    }
}

/// Job priority levels. The queue does not consult them: it serves jobs in
/// the order they came.
#[derive(Debug, Clone, Copy, PartialEq, Eq, Structural, PartialOrd, Ord)]
pub enum JobPriority {
    Low,
    Normal,
    High,
    Urgent,
}

impl JobPriority {
    pub open spec fn spec_level(self) -> u8 {
        match self {
            JobPriority::Low => 0,
            JobPriority::Normal => 1,
            JobPriority::High => 2,
            JobPriority::Urgent => 3,
        }
    }

    /// The priority as a number, higher meaning more urgent.
    pub fn level(self) -> (r: u8)
        ensures
            r == self.spec_level(),
    {
        match self {
            JobPriority::Low => 0,
            JobPriority::Normal => 1,
            JobPriority::High => 2,
            JobPriority::Urgent => 3,
        }
    }
}

/// Document formats a job may carry.
#[derive(Debug, Clone, Copy, PartialEq, Eq, Structural)]
pub enum FileType {
    Pdf,
    PostScript,
    Ps,
}

/// Two-sided printing.
#[derive(Debug, Clone, Copy, PartialEq, Eq, Structural)]
pub enum DuplexMode {
    /// One-sided.
    Simplex,
    /// Bound on the long edge, like a book.
    LongEdge,
    /// Bound on the short edge, like a calendar.
    ShortEdge,
}

/// How many pages are placed on one sheet.
#[derive(Debug, Clone, Copy, PartialEq, Eq, Structural)]
pub enum PagesPerSheet {
    One,
    Two,
    Four,
    Six,
    Eight,
}

/// The page counts that may be placed on one sheet.
pub open spec fn supported_pages_per_sheet(n: u32) -> bool {
    n == 1 || n == 2 || n == 4 || n == 6 || n == 8
}

impl PagesPerSheet {
    pub open spec fn spec_count(self) -> u32 {
        match self {
            PagesPerSheet::One => 1,
            PagesPerSheet::Two => 2,
            PagesPerSheet::Four => 4,
            PagesPerSheet::Six => 6,
            PagesPerSheet::Eight => 8,
        }
    }

    /// The number of pages on one sheet.
    pub fn count(self) -> (r: u32)
        ensures
            r == self.spec_count(),
            supported_pages_per_sheet(r),
    {
        match self {
            PagesPerSheet::One => 1,
            PagesPerSheet::Two => 2,
            PagesPerSheet::Four => 4,
            PagesPerSheet::Six => 6,
            PagesPerSheet::Eight => 8,
        }
    }

    pub open spec fn spec_from_count(n: u32) -> Option<PagesPerSheet> {
        if n == 1 {
            Some(PagesPerSheet::One)
        } else if n == 2 {
            Some(PagesPerSheet::Two)
        } else if n == 4 {
            Some(PagesPerSheet::Four)
        } else if n == 6 {
            Some(PagesPerSheet::Six)
        } else if n == 8 {
            Some(PagesPerSheet::Eight)
        } else {
            None
        }
    }

    /// The variant for a page count, if that count is supported.
    pub fn from_count(n: u32) -> (r: Option<PagesPerSheet>)
        ensures
            r == PagesPerSheet::spec_from_count(n),
            r is Some <==> supported_pages_per_sheet(n),
            r matches Some(p) ==> p.spec_count() == n,
    {
        if n == 1 {
            Some(PagesPerSheet::One)
        } else if n == 2 {
            Some(PagesPerSheet::Two)
        } else if n == 4 {
            Some(PagesPerSheet::Four)
        } else if n == 6 {
            Some(PagesPerSheet::Six)
        } else if n == 8 {
            Some(PagesPerSheet::Eight)
        } else {
            None
        }
    }
}

/// Page orientation.
#[derive(Debug, Clone, Copy, PartialEq, Eq, Structural)]
pub enum Orientation {
    Portrait,
    Landscape,
    UpsideDownPortrait,
    UpsideDownLandscape,
}

impl Orientation {
    pub open spec fn spec_rotate_90(self) -> Orientation {
        match self {
            Orientation::Portrait => Orientation::Landscape,
            Orientation::Landscape => Orientation::UpsideDownPortrait,
            Orientation::UpsideDownPortrait => Orientation::UpsideDownLandscape,
            Orientation::UpsideDownLandscape => Orientation::Portrait,
        }
    }

    /// The orientation after a quarter turn clockwise.
    pub fn rotate_90(&self) -> (r: Orientation)
        ensures
            r == self.spec_rotate_90(),
    {
        match self {
            Orientation::Portrait => Orientation::Landscape,
            Orientation::Landscape => Orientation::UpsideDownPortrait,
            Orientation::UpsideDownPortrait => Orientation::UpsideDownLandscape,
            Orientation::UpsideDownLandscape => Orientation::Portrait,
        }
    }

    /// Whether the page is wider than tall.
    pub fn is_landscape(&self) -> (r: bool)
        ensures
            r == (*self is Landscape || *self is UpsideDownLandscape),
    {
        match self {
            Orientation::Landscape | Orientation::UpsideDownLandscape => true,
            _ => false,
        }
    }
}

/// Margins around the printed area. Custom margins are in points.
#[derive(Debug, Clone, Copy, PartialEq, Eq, Structural)]
pub enum MarginMode {
    /// No margins at all.
    Borderless,
    Minimum,
    Normal,
    Wide,
    Custom { top: u32, bottom: u32, left: u32, right: u32 },
}

/// How a document is to be printed. The scale is a percentage.
#[derive(Debug, Clone, Copy)]
pub struct PrintOptions {
    pub copies: u32,
    pub collate: bool,
    pub duplex: DuplexMode,
    pub orientation: Orientation,
    pub page_range: Option<(usize, usize)>,
    pub pages_per_sheet: PagesPerSheet,
    pub scale_percent: u32,
    pub margins: MarginMode,
}

impl PrintOptions {
    /// The options' invariant: at least one copy, and a page range, when
    /// given, that does not end before it starts.
    pub open spec fn spec_valid(&self) -> bool {
        &&& self.copies > 0
        &&& match self.page_range {
            Some((start, end)) => start <= end,
            None => true,
        }
    }

    pub open spec fn spec_default() -> PrintOptions {
        PrintOptions {
            copies: 1,
            collate: false,
            duplex: DuplexMode::Simplex,
            orientation: Orientation::Portrait,
            page_range: None,
            pages_per_sheet: PagesPerSheet::One,
            scale_percent: 100,
            margins: MarginMode::Normal,
        }
    }

    /// Checks the options' invariant.
    pub fn validate(&self) -> (r: Result<(), Error>)
        ensures
            r is Ok <==> self.spec_valid(),
            r matches Err(e) ==> e is InvalidOptions,
    {
        if self.copies == 0 {
            return Err(Error::InvalidOptions(String::from_str("copies must be greater than 0")));
        }
        match self.page_range {
            Some((start, end)) => {
                if start > end {
                    return Err(Error::InvalidOptions(String::from_str("page range ends before it starts")));
                }
            }
            None => {}
        }
        Ok(())
    }

    /// Whether the job is laid out as a booklet (two pages per sheet).
    pub fn is_booklet(&self) -> (r: bool)
        ensures
            r == (self.pages_per_sheet is Two),
    {
        match self.pages_per_sheet {
            PagesPerSheet::Two => true,
            _ => false,
        }
    }
}

impl Default for PrintOptions {
    fn default() -> (r: PrintOptions)
        ensures
            r == PrintOptions::spec_default(),
    {
        PrintOptions {
            copies: 1,
            collate: false,
            duplex: DuplexMode::Simplex,
            orientation: Orientation::Portrait,
            page_range: None,
            pages_per_sheet: PagesPerSheet::One,
            scale_percent: 100,
            margins: MarginMode::Normal,
        }
    }
}

/// A request to print one document.
#[derive(Debug, Clone)]
pub struct PrintJobRequest {
    pub job_id: JobId,
    /// Where the document is to be read from.
    pub file_path: String,
    pub file_type: FileType,
    pub printer_name: Option<String>,
    pub options: PrintOptions,
}

/// Figures of a finished job. Durations are in milliseconds, the success
/// rate in thousandths.
#[derive(Debug, Clone, Copy, PartialEq, Eq, Structural)]
pub struct JobStatistics {
    pub job_id: JobId,
    pub duration_ms: u64,
    pub pages_processed: usize,
    pub bytes_processed: u64,
    pub success_permille: u32,
    pub average_ms_per_page: u64,
}

impl JobStatistics {
    /// Statistics of a run that took `duration_ms` and printed
    /// `pages_processed` pages, `pages_failed` of them without success.
    pub fn new(
        job_id: JobId,
        duration_ms: u64,
        pages_processed: usize,
        pages_failed: usize,
        bytes_processed: u64,
    ) -> (r: JobStatistics)
        requires
            pages_failed <= pages_processed,
        ensures
            r.job_id == job_id,
            r.duration_ms == duration_ms,
            r.pages_processed == pages_processed,
            r.bytes_processed == bytes_processed,
            pages_processed == 0 ==> r.success_permille == 1000 && r.average_ms_per_page == 0,
            pages_processed > 0 ==> r.success_permille == (pages_processed - pages_failed) * 1000
                / (pages_processed as int),
            pages_processed > 0 ==> r.average_ms_per_page == (duration_ms as int) / (pages_processed as int),
    {
        let (success_permille, average_ms_per_page) = if pages_processed == 0 {
            (1000u32, 0u64)
        } else {
            let ok = (pages_processed - pages_failed) as u128;
            let permille = ok * 1000 / (pages_processed as u128);
            assert(permille <= 1000) by (nonlinear_arith)
                requires
                    ok <= pages_processed,
                    pages_processed > 0,
                    permille == ok * 1000 / (pages_processed as int),
            ;
            (permille as u32, duration_ms / (pages_processed as u64))
        };
        JobStatistics {
            job_id,
            duration_ms,
            pages_processed,
            bytes_processed,
            success_permille,
            average_ms_per_page,
        }
    }
}

} // verus!
