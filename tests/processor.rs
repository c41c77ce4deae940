use boomaga::error::Error;
use boomaga::job::{FileType, JobId, JobStatistics, JobStatus, PrintJobRequest, PrintOptions};
use boomaga::processor::{JobOutcome, JobProcessor};
use boomaga::queue::JobQueue;

fn request(id: u128) -> PrintJobRequest {
    PrintJobRequest {
        job_id: JobId(id),
        file_path: String::new(),
        file_type: FileType::Pdf,
        printer_name: None,
        options: PrintOptions::default(),
    }
}

fn processor(queue_size: usize, workers: usize) -> JobProcessor {
    JobProcessor::new(JobQueue::new(queue_size).unwrap(), 10, workers).unwrap()
}

#[test]
fn zero_limits_fail_construction() {
    assert!(matches!(
        JobProcessor::new(JobQueue::new(2).unwrap(), 0, 1),
        Err(Error::InvalidConfiguration(_))
    ));
    assert!(matches!(
        JobProcessor::new(JobQueue::new(2).unwrap(), 1, 0),
        Err(Error::InvalidConfiguration(_))
    ));
}

#[test]
fn scenario_job_runs_to_completion() {
    let mut p = processor(10, 2);
    p.add_job(request(1)).unwrap();
    assert_eq!(p.get_status(JobId(1)), Some(JobStatus::Queued));
    let job = p.start_next().unwrap();
    assert_eq!(job.job_id, JobId(1));
    assert_eq!(p.get_status(JobId(1)), Some(JobStatus::Processing));
    let stats = JobStatistics::new(JobId(1), 400, 4, 0, 1000);
    assert_eq!(p.finish_job(JobId(1), JobOutcome::Completed(stats)).unwrap(), JobStatus::Completed);
    assert_eq!(p.get_status(JobId(1)), Some(JobStatus::Completed));
    assert_eq!(p.get_statistics(JobId(1)), Some(stats));
    assert_eq!(p.active_jobs(), 0);
}

#[test]
fn cancelling_a_completed_job_twice() {
    let mut p = processor(10, 1);
    p.add_job(request(5)).unwrap();
    p.start_next().unwrap();
    p.finish_job(JobId(5), JobOutcome::Completed(JobStatistics::new(JobId(5), 10, 1, 0, 10))).unwrap();
    assert_eq!(p.cancel_job(JobId(5)).unwrap(), JobStatus::Completed);
    assert_eq!(p.cancel_job(JobId(5)).unwrap(), JobStatus::Completed);
    assert_eq!(p.get_status(JobId(5)), Some(JobStatus::Completed));
}

#[test]
fn workers_bound_processing_jobs() {
    let mut p = processor(10, 2);
    for id in 1..=5u128 {
        p.add_job(request(id)).unwrap();
    }
    assert!(p.start_next().is_some());
    assert!(p.start_next().is_some());
    assert!(p.start_next().is_none());
    assert_eq!(p.active_jobs(), 2);
    let mut finished = 0;
    while finished < 5 {
        let processing: Vec<JobId> = p
            .get_all_jobs()
            .into_iter()
            .filter(|(_, s)| *s == JobStatus::Processing)
            .map(|(id, _)| id)
            .collect();
        assert!(processing.len() <= 2);
        let id = processing[0];
        p.finish_job(id, JobOutcome::Completed(JobStatistics::new(id, 1, 1, 0, 1))).unwrap();
        finished += 1;
        p.start_next();
    }
    assert!(p.get_all_jobs().iter().all(|(_, s)| s.is_terminal()));
}

#[test]
fn timed_out_job_fails_and_frees_its_worker() {
    let mut p = processor(10, 1);
    p.add_job(request(1)).unwrap();
    p.add_job(request(2)).unwrap();
    p.start_next().unwrap();
    assert!(p.start_next().is_none());
    assert_eq!(p.finish_job(JobId(1), JobOutcome::TimedOut).unwrap(), JobStatus::Failed);
    assert!(matches!(p.last_error(JobId(1)), Some(Error::Timeout(_))));
    assert_eq!(p.start_next().unwrap().job_id, JobId(2));
}

#[test]
fn pipeline_failure_is_recorded() {
    let mut p = processor(10, 1);
    p.add_job(request(1)).unwrap();
    p.start_next().unwrap();
    let status = p.finish_job(JobId(1), JobOutcome::Failed(Error::Render("bad page".to_string()))).unwrap();
    assert_eq!(status, JobStatus::Failed);
    assert!(matches!(p.last_error(JobId(1)), Some(Error::Render(_))));
}

#[test]
fn cancelling_queued_and_processing_jobs() {
    let mut p = processor(10, 1);
    p.add_job(request(1)).unwrap();
    p.add_job(request(2)).unwrap();
    p.start_next().unwrap();
    assert_eq!(p.cancel_job(JobId(2)).unwrap(), JobStatus::Cancelled);
    assert_eq!(p.queue_size(), 0);
    assert_eq!(p.cancel_job(JobId(1)).unwrap(), JobStatus::Processing);
    let stats = JobStatistics::new(JobId(1), 1, 1, 0, 1);
    assert_eq!(p.finish_job(JobId(1), JobOutcome::Completed(stats)).unwrap(), JobStatus::Cancelled);
    assert_eq!(p.get_status(JobId(1)), Some(JobStatus::Cancelled));
}

#[test]
fn unknown_jobs_are_not_found() {
    let mut p = processor(10, 1);
    assert!(matches!(p.cancel_job(JobId(42)), Err(Error::NotFound(_))));
    assert!(matches!(p.finish_job(JobId(42), JobOutcome::TimedOut), Err(Error::NotFound(_))));
    assert_eq!(p.get_status(JobId(42)), None);
}

#[test]
fn admission_errors_leave_no_record() {
    let mut p = processor(1, 1);
    let mut bad = request(1);
    bad.options.copies = 0;
    assert!(matches!(p.add_job(bad), Err(Error::InvalidOptions(_))));
    let mut reversed = request(2);
    reversed.options.page_range = Some((5, 2));
    assert!(matches!(p.add_job(reversed), Err(Error::InvalidOptions(_))));
    assert!(p.get_all_jobs().is_empty());
    p.add_job(request(3)).unwrap();
    assert!(matches!(p.add_job(request(3)), Err(Error::Validation(_))));
    assert!(matches!(p.add_job(request(4)), Err(Error::QueueFull)));
    assert_eq!(p.get_all_jobs(), vec![(JobId(3), JobStatus::Queued)]);
}

#[test]
fn finishing_a_job_that_is_not_processing() {
    let mut p = processor(10, 1);
    p.add_job(request(1)).unwrap();
    assert!(matches!(p.finish_job(JobId(1), JobOutcome::TimedOut), Err(Error::Job(_))));
    assert_eq!(p.get_status(JobId(1)), Some(JobStatus::Queued));
}

#[test]
fn documents_grow_to_the_limit() {
    let mut p = processor(10, 1);
    p.add_job(request(1)).unwrap();
    p.append_document(JobId(1), vec![1, 2, 3], 5).unwrap();
    assert!(matches!(p.append_document(JobId(1), vec![4, 5, 6], 5), Err(Error::DocumentTooLarge)));
    p.append_document(JobId(1), vec![4, 5], 5).unwrap();
    assert_eq!(p.document_len(JobId(1)), Some(5));
    p.close_document(JobId(1)).unwrap();
    assert!(matches!(p.append_document(JobId(1), vec![], 5), Err(Error::Job(_))));
    assert!(matches!(p.close_document(JobId(9)), Err(Error::NotFound(_))));
}

#[test]
fn statistics_figures() {
    let s = JobStatistics::new(JobId(1), 1000, 4, 1, 2048);
    assert_eq!(s.success_permille, 750);
    assert_eq!(s.average_ms_per_page, 250);
    let empty = JobStatistics::new(JobId(2), 30, 0, 0, 0);
    assert_eq!(empty.success_permille, 1000);
    assert_eq!(empty.average_ms_per_page, 0);
}

#[test]
fn unfinished_jobs_bound_admission() {
    let mut p = JobProcessor::new(JobQueue::new(10).unwrap(), 2, 1).unwrap();
    p.add_job(request(1)).unwrap();
    p.add_job(request(2)).unwrap();
    assert_eq!(p.unfinished_jobs(), 2);
    assert!(matches!(p.add_job(request(3)), Err(Error::TooManyJobs)));
    p.cancel_job(JobId(2)).unwrap();
    assert_eq!(p.unfinished_jobs(), 1);
    p.add_job(request(3)).unwrap();
    assert_eq!(p.get_all_jobs().len(), 3);
}

#[test]
fn held_jobs_wait_until_released() {
    let mut p = processor(2, 1);
    p.add_job(request(1)).unwrap();
    p.add_job(request(2)).unwrap();
    p.hold_job(JobId(1)).unwrap();
    assert_eq!(p.get_status(JobId(1)), Some(JobStatus::Held));
    assert_eq!(p.queue_size(), 1);
    assert_eq!(p.cancel_job(JobId(1)).unwrap(), JobStatus::Held);
    assert_eq!(p.start_next().unwrap().job_id, JobId(2));
    assert!(matches!(p.hold_job(JobId(2)), Err(Error::Job(_))));
    assert!(matches!(p.release_job(JobId(2)), Err(Error::Job(_))));
    p.release_job(JobId(1)).unwrap();
    assert_eq!(p.get_status(JobId(1)), Some(JobStatus::Queued));
    assert_eq!(p.queue_size(), 1);
    assert!(matches!(p.hold_job(JobId(7)), Err(Error::NotFound(_))));
}

#[test]
fn release_into_a_full_queue_fails() {
    let mut p = processor(1, 1);
    p.add_job(request(1)).unwrap();
    p.hold_job(JobId(1)).unwrap();
    p.add_job(request(2)).unwrap();
    assert!(matches!(p.release_job(JobId(1)), Err(Error::QueueFull)));
    assert_eq!(p.get_status(JobId(1)), Some(JobStatus::Held));
}
