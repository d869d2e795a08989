use vstd::prelude::*;

verus! {

/// The lifecycle status that a connector reports.
#[derive(Clone, Debug)]
pub enum ConnectorStatus {
    Running,
    Stopped,
    Suspended,
    Error(String),
}

impl ConnectorStatus {
    /// The numeric code of the status: what `as_u8` returns.
    pub open spec fn code(&self) -> u8 {
        match self {
            ConnectorStatus::Running => 0,
            ConnectorStatus::Stopped => 1,
            ConnectorStatus::Suspended => 2,
            ConnectorStatus::Error(_) => 3,
        }
    }

    /// Encodes the status as one byte: running 0, stopped 1, suspended 2,
    /// error 3 (whatever its message).
    pub fn as_u8(&self) -> (code: u8)
        ensures
            code == self.code(),
    {
        match self {
            ConnectorStatus::Running => 0,
            ConnectorStatus::Stopped => 1,
            ConnectorStatus::Suspended => 2,
            ConnectorStatus::Error(_) => 3,
        }
    }
}

} // verus!
