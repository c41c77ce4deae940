use boomaga::error::Error;
use boomaga::job::{FileType, JobId, PrintJobRequest, PrintOptions};
use boomaga::queue::JobQueue;

fn request(id: u128) -> PrintJobRequest {
    PrintJobRequest {
        job_id: JobId(id),
        file_path: String::new(),
        file_type: FileType::Pdf,
        printer_name: None,
        options: PrintOptions::default(),
    }
}

#[test]
fn scenario_queue_of_two() {
    let mut queue = JobQueue::new(2).unwrap();
    assert!(queue.push(request(1)).is_ok());
    assert!(queue.push(request(2)).is_ok());
    assert_eq!(queue.size(), 2);
    assert!(matches!(queue.push(request(3)), Err(Error::QueueFull)));
    let first = queue.pop().unwrap();
    assert_eq!(first.job_id, JobId(1));
    assert!(queue.push(request(3)).is_ok());
    assert_eq!(queue.size(), 2);
}

#[test]
fn capacity_refuses_then_admits_after_pop() {
    let mut queue = JobQueue::new(3).unwrap();
    for id in 0..3u128 {
        assert!(queue.push(request(id)).is_ok());
    }
    assert!(queue.is_full());
    assert!(matches!(queue.push(request(9)), Err(Error::QueueFull)));
    assert!(queue.pop().is_some());
    assert!(!queue.is_full());
    assert!(queue.push(request(9)).is_ok());
}

#[test]
fn pop_is_first_in_first_out() {
    let mut queue = JobQueue::new(5).unwrap();
    for id in [7u128, 3, 5] {
        queue.push(request(id)).unwrap();
    }
    assert_eq!(queue.pop().unwrap().job_id, JobId(7));
    assert_eq!(queue.pop().unwrap().job_id, JobId(3));
    assert_eq!(queue.pop().unwrap().job_id, JobId(5));
    assert!(queue.pop().is_none());
    assert!(queue.is_empty());
}

#[test]
fn zero_capacity_is_rejected() {
    assert!(matches!(JobQueue::new(0), Err(Error::InvalidConfiguration(_))));
}

#[test]
fn remove_and_clear() {
    let mut queue = JobQueue::new(4).unwrap();
    for id in 1..=3u128 {
        queue.push(request(id)).unwrap();
    }
    assert_eq!(queue.remove_job(JobId(2)).unwrap().job_id, JobId(2));
    assert!(queue.remove_job(JobId(2)).is_none());
    assert_eq!(queue.size(), 2);
    assert_eq!(queue.pop().unwrap().job_id, JobId(1));
    queue.clear();
    assert!(queue.is_empty());
    assert!(queue.pop().is_none());
}

#[test]
fn statistics_track_peak() {
    let mut queue = JobQueue::new(4).unwrap();
    queue.push(request(1)).unwrap();
    queue.push(request(2)).unwrap();
    queue.pop().unwrap();
    let stats = queue.get_statistics();
    assert_eq!(stats.current_size, 1);
    assert_eq!(stats.max_size, 4);
    assert_eq!(stats.total_pushed, 2);
    assert_eq!(stats.total_popped, 1);
    assert_eq!(stats.peak_size, 2);
    assert_eq!(queue.max_size(), 4);
}
