//! Configuration of the backend service and where configuration files live.
//! Loading and saving the files is left to the program around the library.

use vstd::prelude::*;
use crate::error::Error;
use crate::processor::JobProcessor;
use crate::queue::JobQueue;

verus! {

/// Configuration of the backend service. Timeouts are in seconds, sizes in
/// bytes.
#[derive(Debug, Clone)]
pub struct BackendConfig {
    pub ipp_port: u16,
    pub ipc_socket_path: String,
    pub dbus_service_name: String,
    pub max_concurrent_jobs: usize,
    pub worker_threads: usize,
    pub job_queue_size: usize,
    pub queue_timeout: u64,
    pub debug: bool,
    pub verbose: bool,
    pub dns_sd: bool,
    pub dns_sd_service_type: String,
    pub job_timeout: u64,
    pub max_job_size: u64,
}

impl BackendConfig {
    /// Every limit, the port included, is positive.
    pub open spec fn spec_valid(&self) -> bool {
        &&& self.max_concurrent_jobs > 0
        &&& self.worker_threads > 0
        &&& self.job_queue_size > 0
        &&& self.ipp_port > 0
        &&& self.max_job_size > 0
        &&& self.queue_timeout > 0
        &&& self.job_timeout > 0
    }

    /// Checks the configuration before the service starts; fails with
    /// `InvalidConfiguration` on a zero limit or port.
    pub fn validate(&self) -> (r: Result<(), Error>)
        ensures
            r is Ok <==> self.spec_valid(),
            r matches Err(e) ==> e is InvalidConfiguration,
    {
        if self.max_concurrent_jobs == 0 {
            return Err(Error::InvalidConfiguration(String::from_str("max concurrent jobs must be greater than 0")));
        }
        if self.worker_threads == 0 {
            return Err(Error::InvalidConfiguration(String::from_str("worker threads must be greater than 0")));
        }
        if self.job_queue_size == 0 {
            return Err(Error::InvalidConfiguration(String::from_str("job queue size must be greater than 0")));
        }
        if self.ipp_port == 0 {
            return Err(Error::InvalidConfiguration(String::from_str("IPP port must be between 1 and 65535")));
        }
        if self.max_job_size == 0 {
            return Err(Error::InvalidConfiguration(String::from_str("max job size must be greater than 0")));
        }
        if self.queue_timeout == 0 {
            return Err(Error::InvalidConfiguration(String::from_str("queue timeout must be greater than 0")));
        }
        if self.job_timeout == 0 {
            return Err(Error::InvalidConfiguration(String::from_str("job timeout must be greater than 0")));
        }
        Ok(())
    }

    /// The configuration with debug logging turned on or off.
    pub fn with_debug(self, enabled: bool) -> (r: BackendConfig)
        ensures
            r == (BackendConfig { debug: enabled, ..self }),
    {
        let mut c = self;
        c.debug = enabled;
        c
    }

    /// The configuration with verbose logging turned on or off.
    pub fn with_verbose(self, enabled: bool) -> (r: BackendConfig)
        ensures
            r == (BackendConfig { verbose: enabled, ..self }),
    {
        let mut c = self;
        c.verbose = enabled;
        c
    }

    /// The configuration with another local socket path.
    pub fn with_ipc_socket(self, path: String) -> (r: BackendConfig)
        ensures
            r == (BackendConfig { ipc_socket_path: path, ..self }),
    {
        let mut c = self;
        c.ipc_socket_path = path;
        c
    }

    /// The configuration with another port.
    pub fn with_port(self, port: u16) -> (r: BackendConfig)
        ensures
            r == (BackendConfig { ipp_port: port, ..self }),
    {
        let mut c = self;
        c.ipp_port = port;
        c
    }

    /// A job processor over an empty queue, with this configuration's
    /// limits. Fails with `InvalidConfiguration` where the configuration
    /// does not validate.
    pub fn build_processor(&self) -> (r: Result<JobProcessor, Error>)
        ensures
            r is Ok <==> self.spec_valid(),
            r matches Err(e) ==> e is InvalidConfiguration,
            r matches Ok(p) ==> {
                &&& p.wf()
                &&& p.queue_capacity() == self.job_queue_size
                &&& p.spec_worker_threads() == self.worker_threads
                &&& p.spec_max_concurrent() == self.max_concurrent_jobs
                &&& p.entries().len() == 0
                &&& p.pending().len() == 0
            },
    {
        match self.validate() {
            Ok(()) => {},
            Err(e) => {
                return Err(e);
            },
        }
        let queue = match JobQueue::new(self.job_queue_size) {
            Ok(q) => q,
            Err(e) => {
                return Err(e);
            },
        };
        JobProcessor::new(queue, self.max_concurrent_jobs, self.worker_threads)
    }
}

impl Default for BackendConfig {
    fn default() -> (r: BackendConfig)
        ensures
            r.ipp_port == 631,
            r.ipc_socket_path@ == "/tmp/boomaga-ipp.sock"@,
            r.dbus_service_name@ == "org.boomaga.IPP"@,
            r.max_concurrent_jobs == 4,
            r.worker_threads == 2,
            r.job_queue_size == 100,
            r.queue_timeout == 30,
            !r.debug,
            !r.verbose,
            r.dns_sd,
            r.dns_sd_service_type@ == "ipp"@,
            r.job_timeout == 300,
            r.max_job_size == 100 * 1024 * 1024,
    {
        BackendConfig {
            ipp_port: 631,
            ipc_socket_path: String::from_str("/tmp/boomaga-ipp.sock"),
            dbus_service_name: String::from_str("org.boomaga.IPP"),
            max_concurrent_jobs: 4,
            worker_threads: 2,
            job_queue_size: 100,
            queue_timeout: 30,
            debug: false,
            verbose: false,
            dns_sd: true,
            dns_sd_service_type: String::from_str("ipp"),
            job_timeout: 300,
            max_job_size: 100 * 1024 * 1024,
        }
    }
}

/// `dir` and `name` joined with a slash.
pub open spec fn join_path(dir: Seq<char>, name: Seq<char>) -> Seq<char> {
    dir + "/"@ + name
}

/// Where the configuration files are.
pub struct ConfigManager {
    backend_config_path: String,
    preview_config_path: String,
    settings_path: String,
}

/// Relies on `directories::BaseDirs`: the user's configuration directory,
/// state directory (where the platform has one) and local data directory,
/// if a home directory can be found. They depend on the environment, so
/// nothing is promised of them.
#[verifier::external_body]
fn user_dirs() -> (r: Option<(String, Option<String>, String)>) {
    let d = directories::BaseDirs::new()?;
    let state = match d.state_dir() {
        Some(s) => Some(s.to_string_lossy().into_owned()),
        None => None,
    };
    Some((d.config_dir().to_string_lossy().into_owned(), state, d.data_local_dir().to_string_lossy().into_owned()))
}

fn joined(dir: &String, name: &str) -> (r: String)
    ensures
        r@ == join_path(dir@, name@),
{
    let with_slash = dir.clone().concat("/");
    with_slash.concat(name)
}

impl ConfigManager {
    pub closed spec fn spec_backend_config_path(&self) -> Seq<char> {
        self.backend_config_path@
    }

    pub closed spec fn spec_preview_config_path(&self) -> Seq<char> {
        self.preview_config_path@
    }

    pub closed spec fn spec_settings_path(&self) -> Seq<char> {
        self.settings_path@
    }

    /// The files under `config_dir` and `state_dir`: the two configuration
    /// files in `<config_dir>/boomaga`, the settings in `<state_dir>/boomaga`.
    pub fn from_dirs(config_dir: &String, state_dir: &String) -> (r: ConfigManager)
        ensures
            r.spec_backend_config_path() == join_path(join_path(config_dir@, "boomaga"@), "backend.toml"@),
            r.spec_preview_config_path() == join_path(join_path(config_dir@, "boomaga"@), "preview.toml"@),
            r.spec_settings_path() == join_path(join_path(state_dir@, "boomaga"@), "settings.json"@),
    {
        let config = joined(config_dir, "boomaga");
        let state = joined(state_dir, "boomaga");
        ConfigManager {
            backend_config_path: joined(&config, "backend.toml"),
            preview_config_path: joined(&config, "preview.toml"),
            settings_path: joined(&state, "settings.json"),
        }
    }

    /// The files under the user's own directories; the settings go to the
    /// local data directory where the platform has no state directory.
    /// Fails with a configuration error where no home directory is found.
    pub fn new() -> (r: Result<ConfigManager, Error>)
        ensures
            r matches Err(e) ==> e is Config,
            r matches Ok(m) ==> exists|c: Seq<char>, s: Seq<char>| {
                &&& m.spec_backend_config_path() == join_path(join_path(c, "boomaga"@), "backend.toml"@)
                &&& m.spec_preview_config_path() == join_path(join_path(c, "boomaga"@), "preview.toml"@)
                &&& m.spec_settings_path() == join_path(join_path(s, "boomaga"@), "settings.json"@)
            },
    {
        match user_dirs() {
            Some((config, state, data)) => {
                let state_dir = match state {
                    Some(s) => s,
                    None => data,
                };
                Ok(ConfigManager::from_dirs(&config, &state_dir))
            },
            None => Err(Error::Config(String::from_str("could not determine user directories"))),
        }
    }

    /// The backend configuration file.
    pub fn backend_config_path(&self) -> (r: &String)
        ensures
            r@ == self.spec_backend_config_path(),
    {
        &self.backend_config_path
    }

    /// The preview configuration file.
    pub fn preview_config_path(&self) -> (r: &String)
        ensures
            r@ == self.spec_preview_config_path(),
    {
        &self.preview_config_path
    }

    /// The user settings file.
    pub fn settings_path(&self) -> (r: &String)
        ensures
            r@ == self.spec_settings_path(),
    {
        &self.settings_path
    }
}

} // verus!
