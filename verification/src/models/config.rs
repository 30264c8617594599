//! The configuration of the server, and the defaults of what it leaves
//! open.

use vstd::prelude::*;

verus! {

/// The largest object that is taken where the configuration names no
/// bound: one gibibyte.
pub const DEFAULT_MAX_OBJECT_SIZE: usize = 1_073_741_824;

/// The connections that the pool holds at most where the configuration
/// names no number.
pub const DEFAULT_DB_POOL_MAX_SIZE: u32 = 8;

/// The idle connections that the pool keeps where the configuration names
/// no number.
pub const DEFAULT_DB_POOL_MIN_IDLE: u32 = 2;

/// The seconds that a request waits for a connection where the
/// configuration names no number.
pub const DEFAULT_DB_POOL_TIMEOUT_SECONDS: u64 = 30;

/// The configuration of the server.
#[derive(Debug)]
pub struct AppConfig {
    pub database_path: String,
    /// The buckets that may be used.
    pub buckets: Vec<String>,
    pub port: u16,
    pub bind_address: String,
    pub log_path: String,
    pub log_level: String,
    pub max_workers: Option<usize>,
    /// The largest object that is taken, in bytes.
    pub max_object_size: Option<usize>,
    pub db_pool_max_size: Option<u32>,
    pub db_pool_min_idle: Option<u32>,
    pub db_pool_timeout_seconds: Option<u64>,
}

/// Calls `num_cpus::get`, the number of processors that this process may
/// use. It depends on the machine, so nothing is said of it.
#[verifier::external_body]
pub(crate) fn available_cpus() -> usize {
    num_cpus::get()
}

impl AppConfig {
    /// The number of workers: the configured one, or `detected` where none
    /// is configured.
    pub fn max_workers_or(&self, detected: usize) -> (n: usize)
        ensures
            n == match self.max_workers {
                Some(m) => m,
                None => detected,
            },
    {
        match self.max_workers {
            Some(m) => m,
            None => detected,
        }
    }

    /// The number of workers: the configured one, or the number of
    /// processors of the machine where none is configured.
    pub fn get_max_workers(&self) -> (n: usize)
        ensures
            self.max_workers matches Some(m) ==> n == m,
    {
        match self.max_workers {
            Some(m) => m,
            None => self.max_workers_or(available_cpus()),
        }
    }

    /// The largest object that is taken, in bytes.
    pub fn get_max_object_size(&self) -> (n: usize)
        ensures
            n == match self.max_object_size {
                Some(m) => m,
                None => DEFAULT_MAX_OBJECT_SIZE,
            },
    {
        match self.max_object_size {
            Some(m) => m,
            None => DEFAULT_MAX_OBJECT_SIZE,
        }
    }

    /// The connections that the pool holds at most.
    pub fn get_db_pool_max_size(&self) -> (n: u32)
        ensures
            n == match self.db_pool_max_size {
                Some(m) => m,
                None => DEFAULT_DB_POOL_MAX_SIZE,
            },
    {
        match self.db_pool_max_size {
            Some(m) => m,
            None => DEFAULT_DB_POOL_MAX_SIZE,
        }
    }

    /// The idle connections that the pool keeps.
    pub fn get_db_pool_min_idle(&self) -> (n: u32)
        ensures
            n == match self.db_pool_min_idle {
                Some(m) => m,
                None => DEFAULT_DB_POOL_MIN_IDLE,
            },
    {
        match self.db_pool_min_idle {
            Some(m) => m,
            None => DEFAULT_DB_POOL_MIN_IDLE,
        }
    }

    /// The seconds that a request waits for a connection.
    pub fn get_db_pool_timeout_seconds(&self) -> (n: u64)
        ensures
            n == match self.db_pool_timeout_seconds {
                Some(m) => m,
                None => DEFAULT_DB_POOL_TIMEOUT_SECONDS,
            },
    {
        match self.db_pool_timeout_seconds {
            Some(m) => m,
            None => DEFAULT_DB_POOL_TIMEOUT_SECONDS,
        }
    }
}

} // verus!
