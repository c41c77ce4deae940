use boomaga::document::Color;
use boomaga::error::{Error, ErrorSeverity};
use boomaga::job::{JobPriority, JobStatus, Orientation, PagesPerSheet, PrintOptions};
use boomaga::layout::PageRotationCalculator;
use boomaga::message::{Response, ResponseType, UnixSocketTransport};
use boomaga::settings::{Keybindings, PerformanceSettings, RenderQuality, UISettings, WindowSettings};
use boomaga::toolbar::{Toolbar, ToolbarItem};

#[test]
fn test_page_rotation() {
    let mut calculator = PageRotationCalculator::new(Orientation::Landscape);
    calculator.set_current(Orientation::Portrait);

    assert_eq!(calculator.required_rotation(), 90);
}

#[test]
fn rotations_between_orientations() {
    let mut calculator = PageRotationCalculator::new(Orientation::Portrait);
    calculator.set_current(Orientation::Landscape);
    assert_eq!(calculator.required_rotation(), 270);
    calculator.set_current(Orientation::UpsideDownLandscape);
    assert_eq!(calculator.required_rotation(), 90);
    assert_eq!(calculator.quarter_turns(), 1);
    calculator.set_current(Orientation::Portrait);
    assert_eq!(calculator.required_rotation(), 0);
}

#[test]
fn orientation_turns() {
    assert_eq!(Orientation::Portrait.rotate_90(), Orientation::Landscape);
    assert_eq!(Orientation::UpsideDownLandscape.rotate_90(), Orientation::Portrait);
    assert!(Orientation::UpsideDownLandscape.is_landscape());
    assert!(!Orientation::UpsideDownPortrait.is_landscape());
}

#[test]
fn lifecycle_transitions() {
    assert!(JobStatus::Queued.can_transition_to(JobStatus::Processing));
    assert!(JobStatus::Processing.can_transition_to(JobStatus::Completed));
    assert!(JobStatus::Held.can_transition_to(JobStatus::Queued));
    assert!(!JobStatus::Queued.can_transition_to(JobStatus::Completed));
    assert!(!JobStatus::Processing.can_transition_to(JobStatus::Held));
    assert!(!JobStatus::Completed.can_transition_to(JobStatus::Queued));
    assert!(JobStatus::Aborted.is_terminal());
    assert!(!JobStatus::Held.is_terminal());
    assert_eq!(JobStatus::Cancelled.as_str(), "Cancelled");
}

#[test]
fn options_and_pages_per_sheet() {
    let options = PrintOptions::default();
    assert_eq!(options.copies, 1);
    assert!(options.validate().is_ok());
    assert!(!options.is_booklet());
    assert_eq!(PagesPerSheet::from_count(6), Some(PagesPerSheet::Six));
    assert_eq!(PagesPerSheet::from_count(3), None);
    assert_eq!(PagesPerSheet::Eight.count(), 8);
    assert!(JobPriority::Urgent > JobPriority::Low);
    assert_eq!(JobPriority::High.level(), 2);
}

#[test]
fn error_classification() {
    assert!(Error::Timeout("t".to_string()).is_transient());
    assert!(Error::QueueFull.is_transient());
    assert!(!Error::Validation("v".to_string()).is_transient());
    assert!(Error::InvalidOptions("o".to_string()).is_user_error());
    assert!(!Error::Render("r".to_string()).is_user_error());
    assert_eq!(Error::Permission("p".to_string()).severity(), ErrorSeverity::High);
    assert_eq!(Error::Ipp("i".to_string()).severity(), ErrorSeverity::Medium);
    assert_eq!(Error::Pdf("x".to_string()).severity(), ErrorSeverity::Low);
}

#[test]
fn named_colors() {
    assert_eq!(Color::rgb(1, 2, 3), Color { r: 1, g: 2, b: 3, a: 255 });
    assert_eq!(Color::rgba(1, 2, 3, 4).a, 4);
    assert_eq!(Color::black(), Color::default());
    assert_eq!(Color::white(), Color::rgb(255, 255, 255));
    assert_eq!(Color::red(), Color::rgb(255, 0, 0));
    assert_eq!(Color::green(), Color::rgb(0, 255, 0));
    assert_eq!(Color::blue(), Color::rgb(0, 0, 255));
}

#[test]
fn responses() {
    let ok = Response::success(3, vec![("k".to_string(), "v".to_string())]);
    assert!(ok.success);
    assert_eq!(ok.response_type, ResponseType::Success);
    let err = Response::error(4, "boom".to_string());
    assert!(!err.success);
    assert_eq!(err.error.as_deref(), Some("boom"));
    assert!(err.data.is_empty());
    let transport = UnixSocketTransport::new("/tmp/x.sock".to_string());
    assert_eq!(transport.socket_path(), "/tmp/x.sock");
}

#[test]
fn toolbar_follows_document_and_job() {
    let mut toolbar = Toolbar::new();
    assert!(!toolbar.items()[3].is_enabled());
    toolbar.update_state(true, Some("Processing".to_string()));
    assert!(toolbar.items()[3].is_enabled());
    assert!(toolbar.items()[4].is_enabled());
    toolbar.update_state(false, None);
    assert!(!toolbar.items()[3].is_enabled());
    assert!(!toolbar.items()[4].is_enabled());
    assert!(matches!(&toolbar.items()[0], ToolbarItem::Navigation { label, enabled: true } if label == "Previous"));
}

#[test]
fn settings_defaults() {
    assert_eq!(WindowSettings::default().size, Some((1200, 800)));
    assert!(UISettings::default().show_toolbar);
    assert!(!UISettings::default().dark_mode);
    let perf = PerformanceSettings::default();
    assert_eq!(perf.thumbnail_size, 120);
    assert_eq!(perf.render_quality, RenderQuality::High);
    let keys = Keybindings::default();
    assert_eq!(keys.navigation.next_page, "Ctrl+Right");
    assert_eq!(keys.print.fit_page, "Ctrl+P");
}
