use boomaga::config::{BackendConfig, ConfigManager};
use boomaga::error::Error;

#[test]
fn test_config_manager_creation() {
    let config = ConfigManager::new().unwrap();
    assert!(std::path::Path::new(config.backend_config_path()).exists() || true);
    assert!(std::path::Path::new(config.preview_config_path()).exists() || true);
}

#[test]
fn test_default_backend_config() {
    let config = BackendConfig::default();
    assert_eq!(config.max_concurrent_jobs, 4);
    assert_eq!(config.worker_threads, 2);
}

#[test]
fn default_backend_config_validates() {
    let config = BackendConfig::default();
    assert!(config.validate().is_ok());
    assert_eq!(config.ipp_port, 631);
    assert_eq!(config.max_job_size, 100 * 1024 * 1024);
}

#[test]
fn zero_limits_are_rejected() {
    let config = BackendConfig::default();
    let mut zero_workers = config.clone();
    zero_workers.worker_threads = 0;
    assert!(matches!(zero_workers.validate(), Err(Error::InvalidConfiguration(_))));
    let mut zero_queue = config.clone();
    zero_queue.job_queue_size = 0;
    assert!(matches!(zero_queue.validate(), Err(Error::InvalidConfiguration(_))));
    let no_port = config.clone().with_port(0);
    assert!(matches!(no_port.validate(), Err(Error::InvalidConfiguration(_))));
    let mut no_timeout = config.clone();
    no_timeout.job_timeout = 0;
    assert!(matches!(no_timeout.validate(), Err(Error::InvalidConfiguration(_))));
    assert!(config.clone().with_port(8631).validate().is_ok());
}

#[test]
fn builders_change_one_field() {
    let config = BackendConfig::default()
        .with_debug(true)
        .with_verbose(true)
        .with_ipc_socket("/run/boomaga.sock".to_string())
        .with_port(9100);
    assert!(config.debug);
    assert!(config.verbose);
    assert_eq!(config.ipc_socket_path, "/run/boomaga.sock");
    assert_eq!(config.ipp_port, 9100);
    assert_eq!(config.worker_threads, 2);
}

#[test]
fn processor_from_config() {
    let config = BackendConfig::default();
    let processor = config.build_processor().unwrap();
    assert_eq!(processor.worker_threads(), 2);
    assert_eq!(processor.max_concurrent(), 4);
    assert_eq!(processor.queue_size(), 0);
    let mut bad = BackendConfig::default();
    bad.max_concurrent_jobs = 0;
    assert!(bad.build_processor().is_err());
}

#[test]
fn config_paths_under_directories() {
    let manager = ConfigManager::from_dirs(&"/home/u/.config".to_string(), &"/home/u/.local/state".to_string());
    assert_eq!(manager.backend_config_path(), "/home/u/.config/boomaga/backend.toml");
    assert_eq!(manager.preview_config_path(), "/home/u/.config/boomaga/preview.toml");
    assert_eq!(manager.settings_path(), "/home/u/.local/state/boomaga/settings.json");
}
