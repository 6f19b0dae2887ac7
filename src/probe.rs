use vstd::prelude::*;

verus! {

/// How one connection attempt ended, as the caller that made it saw it.
#[derive(Clone, Debug, PartialEq, Eq)]
pub enum ConnectResult {
    /// The connection was established before the timeout.
    Connected,
    /// The peer actively refused the connection.
    Refused,
    /// Another I/O failure came before the timeout; the text says which.
    Failed(String),
    /// The timeout elapsed first.
    Elapsed,
}

/// The class of a probe's outcome, without its port.
#[derive(Clone, Copy, Debug, PartialEq, Eq, Structural)]
pub enum Verdict {
    Open,
    Closed,
    TimedOut,
    Failed,
}

/// The classified result of probing one port.
#[derive(Clone, Debug, PartialEq, Eq)]
pub enum ProbeOutcome {
    Open(u16),
    Closed(u16),
    TimedOut(u16),
    Error(u16, String),
}

/// The class that a connection attempt's result falls in.
pub open spec fn verdict_of(c: ConnectResult) -> Verdict {
    match c {
        ConnectResult::Connected => Verdict::Open,
        ConnectResult::Refused => Verdict::Closed,
        ConnectResult::Failed(_) => Verdict::Failed,
        ConnectResult::Elapsed => Verdict::TimedOut,
    }
}

impl ProbeOutcome {
    /// The port the outcome is for.
    pub open spec fn port_spec(&self) -> u16 {
        match self {
            ProbeOutcome::Open(p) => *p,
            ProbeOutcome::Closed(p) => *p,
            ProbeOutcome::TimedOut(p) => *p,
            ProbeOutcome::Error(p, _) => *p,
        }
    }

    /// The outcome's class.
    pub open spec fn verdict_spec(&self) -> Verdict {
        match self {
            ProbeOutcome::Open(_) => Verdict::Open,
            ProbeOutcome::Closed(_) => Verdict::Closed,
            ProbeOutcome::TimedOut(_) => Verdict::TimedOut,
            ProbeOutcome::Error(_, _) => Verdict::Failed,
        }
    }

    /// Classifies the result of a connection attempt to `port`: an
    /// established connection is open, an active refusal closed, an elapsed
    /// timeout timed out, and any other failure an error carrying its cause.
    pub fn classify(port: u16, result: ConnectResult) -> (r: ProbeOutcome)
        ensures
            r.port_spec() == port,
            r.verdict_spec() == verdict_of(result),
            result matches ConnectResult::Failed(cause) ==> r == ProbeOutcome::Error(port, cause),
    {
        match result {
            ConnectResult::Connected => ProbeOutcome::Open(port),
            ConnectResult::Refused => ProbeOutcome::Closed(port),
            ConnectResult::Failed(cause) => ProbeOutcome::Error(port, cause),
            ConnectResult::Elapsed => ProbeOutcome::TimedOut(port),
        }
    }

    /// The port the outcome is for.
    pub fn port(&self) -> (r: u16)
        ensures
            r == self.port_spec(),
    {
        match self {
            ProbeOutcome::Open(p) => *p,
            ProbeOutcome::Closed(p) => *p,
            ProbeOutcome::TimedOut(p) => *p,
            ProbeOutcome::Error(p, _) => *p,
        }
    }

    /// The outcome's class.
    pub fn verdict(&self) -> (r: Verdict)
        ensures
            r == self.verdict_spec(),
    {
        match self {
            ProbeOutcome::Open(_) => Verdict::Open,
            ProbeOutcome::Closed(_) => Verdict::Closed,
            ProbeOutcome::TimedOut(_) => Verdict::TimedOut,
            ProbeOutcome::Error(_, _) => Verdict::Failed,
        }
    }

    /// Whether the port accepted a connection.
    pub fn is_open(&self) -> (r: bool)
        ensures
            r == (self.verdict_spec() == Verdict::Open),
    {
        matches!(self, ProbeOutcome::Open(_))
    }
}

} // verus!
