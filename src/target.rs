use vstd::prelude::*;

verus! {

/// Default first port of the range.
pub const DEFAULT_START_PORT: u16 = 1;

/// Default last port of the range.
pub const DEFAULT_END_PORT: u16 = 1000;

/// Default number of probes that may run at once.
pub const DEFAULT_THREADS: u16 = 100;

/// Default per-port connect timeout, in milliseconds.
pub const DEFAULT_TIMEOUT_MILLIS: u64 = 1000;

/// An IPv4 or IPv6 address, held as its octets or segments.
#[derive(Clone, Copy, Debug, PartialEq, Eq)]
pub enum IpAddress {
    V4([u8; 4]),
    V6([u16; 8]),
}

/// The scan configuration as given on the command line, not yet checked.
#[derive(Clone, Debug)]
pub struct Arguments {
    pub address: IpAddress,
    pub start_port: u16,
    pub end_port: u16,
    pub threads: u16,
    pub output: String,
    pub timeout: u64,
}

/// Why a configuration was rejected before any scanning.
#[derive(Clone, Copy, Debug, PartialEq, Eq, Structural)]
pub enum ConfigError {
    /// Port 0 cannot be scanned.
    ZeroStartPort,
    /// The first port lies above the last one.
    InvertedRange,
    /// At least one probe must be allowed to run.
    ZeroConcurrency,
    /// A connect timeout of zero milliseconds.
    ZeroTimeout,
}

/// A validated scan: an address, an inclusive port range and the limits.
#[derive(Clone, Copy, Debug)]
pub struct ScanTarget {
    pub address: IpAddress,
    pub start: u16,
    pub end: u16,
    pub timeout_millis: u64,
    pub concurrency_limit: u16,
}

impl ScanTarget {
    /// `1 <= start <= end`, at least one permit, a positive timeout.
    pub open spec fn wf(&self) -> bool {
        &&& 1 <= self.start
        &&& self.start <= self.end
        &&& self.concurrency_limit >= 1
        &&& self.timeout_millis > 0
    }

    /// The number of ports in the range.
    pub open spec fn total(&self) -> nat {
        (self.end - self.start + 1) as nat
    }

    /// The port at offset `i` of the range.
    pub open spec fn port_at(&self, i: int) -> u16 {
        (self.start + i) as u16
    }

    /// The error, if any, that the given limits are rejected with; checked
    /// in the order start port, range, concurrency, timeout.
    pub open spec fn config_error(start: u16, end: u16, concurrency: u16, timeout: u64) -> Option<
        ConfigError,
    > {
        if start == 0 {
            Some(ConfigError::ZeroStartPort)
        } else if start > end {
            Some(ConfigError::InvertedRange)
        } else if concurrency == 0 {
            Some(ConfigError::ZeroConcurrency)
        } else if timeout == 0 {
            Some(ConfigError::ZeroTimeout)
        } else {
            None
        }
    }

    /// Builds a target from its parts, rejecting any invalid limit.
    pub fn new(
        address: IpAddress,
        start: u16,
        end: u16,
        timeout_millis: u64,
        concurrency_limit: u16,
    ) -> (r: Result<ScanTarget, ConfigError>)
        ensures
            Self::config_error(start, end, concurrency_limit, timeout_millis) matches Some(e) ==> r
                == Err::<ScanTarget, ConfigError>(e),
            Self::config_error(start, end, concurrency_limit, timeout_millis) is None ==> (r matches Ok(
                t,
            ) && t.wf() && t.address == address && t.start == start && t.end == end
                && t.timeout_millis == timeout_millis && t.concurrency_limit == concurrency_limit),
    {
        if start == 0 {
            Err(ConfigError::ZeroStartPort)
        } else if start > end {
            Err(ConfigError::InvertedRange)
        } else if concurrency_limit == 0 {
            Err(ConfigError::ZeroConcurrency)
        } else if timeout_millis == 0 {
            Err(ConfigError::ZeroTimeout)
        } else {
            Ok(ScanTarget { address, start, end, timeout_millis, concurrency_limit })
        }
    }

    /// How many ports the scan probes: `end - start + 1`.
    pub fn port_count(&self) -> (r: usize)
        requires
            self.wf(),
        ensures
            r == self.total(),
    {
        (self.end - self.start) as usize + 1
    }
}

impl Arguments {
    /// The arguments with every option at its default and the given address.
    pub fn with_address(address: IpAddress) -> (r: Arguments)
        ensures
            r.address == address,
            r.start_port == DEFAULT_START_PORT,
            r.end_port == DEFAULT_END_PORT,
            r.threads == DEFAULT_THREADS,
            r.output@ == "result.txt"@,
            r.timeout == DEFAULT_TIMEOUT_MILLIS,
    {
        Arguments {
            address,
            start_port: DEFAULT_START_PORT,
            end_port: DEFAULT_END_PORT,
            threads: DEFAULT_THREADS,
            output: String::from_str("result.txt"),
            timeout: DEFAULT_TIMEOUT_MILLIS,
        }
    }

    /// Checks the arguments and turns them into a scan target.
    pub fn to_target(&self) -> (r: Result<ScanTarget, ConfigError>)
        ensures
            ScanTarget::config_error(self.start_port, self.end_port, self.threads, self.timeout) matches Some(e)
                ==> r == Err::<ScanTarget, ConfigError>(e),
            ScanTarget::config_error(self.start_port, self.end_port, self.threads, self.timeout) is None
                ==> (r matches Ok(t) && t.wf() && t.address == self.address && t.start == self.start_port
                && t.end == self.end_port && t.timeout_millis == self.timeout && t.concurrency_limit
                == self.threads),
    {
        ScanTarget::new(self.address, self.start_port, self.end_port, self.timeout, self.threads)
    }
}

} // verus!
