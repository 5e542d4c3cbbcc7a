use vstd::prelude::*;

use crate::balance_event_emitter_job::{number_option, spec_number_option, text_option};

verus! {

/// Where the server listens, how it logs and how many workers it runs.
#[derive(Debug, Clone)]
pub struct ServerConfig {
    pub host: String,
    pub port: u16,
    pub log_config_path: String,
    pub worker_size: usize,
}

/// The port that an option stands for: its number where the text is a
/// number that a port can be, 8080 otherwise.
pub open spec fn spec_port_option(text: Option<String>) -> u16 {
    if spec_number_option(text, 8080) <= u16::MAX {
        spec_number_option(text, 8080) as u16
    } else {
        8080
    }
}

/// The number of workers that an option stands for: its number where
/// the text is one, the number of processors otherwise, and never more
/// than the number of processors.
pub open spec fn spec_worker_option(text: Option<String>, cpu_size: usize) -> usize {
    if spec_number_option(text, cpu_size as u64) <= cpu_size {
        spec_number_option(text, cpu_size as u64) as usize
    } else {
        cpu_size
    }
}

impl ServerConfig {
    /// The settings from the texts of the options that are set and the
    /// number of processors, with the defaults for the others and for
    /// numbers that do not parse or do not fit.
    pub fn from_values(
        port: Option<String>,
        host: Option<String>,
        log_config_path: Option<String>,
        worker_size: Option<String>,
        cpu_size: usize,
    ) -> (r: Self)
        ensures
            r.port == spec_port_option(port),
            r.host@ == (match host {
                Some(t) => t@,
                None => "0.0.0.0"@,
            }),
            r.log_config_path@ == (match log_config_path {
                Some(t) => t@,
                None => "log4rs.yaml"@,
            }),
            r.worker_size == spec_worker_option(worker_size, cpu_size),
    {
        let port_number = number_option(&port, 8080);
        let port = if port_number <= 65535 {
            port_number as u16
        } else {
            8080
        };
        let wanted = number_option(&worker_size, cpu_size as u64);
        let worker_size = if wanted <= cpu_size as u64 {
            wanted as usize
        } else {
            cpu_size
        };
        ServerConfig {
            host: text_option(host, "0.0.0.0"),
            port,
            log_config_path: text_option(log_config_path, "log4rs.yaml"),
            worker_size,
        }
    }
}

} // verus!
