use vstd::prelude::*;

verus! {

/// The closed set of outcomes that an entity operation can report.
#[derive(Debug, Clone, Copy, PartialEq, Eq, Structural)]
pub enum ReturnCodes {
    Success,
    Error,
    Unsupported,
    BadParameter,
    PreconditionNotMet,
    OutOfResources,
    NotEnabled,
    ImmutablePolicy,
    InconsistentPolicy,
    AlreadyDeleted,
    Timeout,
    NoData,
    IllegalOperation,
    NotAllowedBySecurity,
    XRetCodeBase,
    XRetCode,
    InProgress,
    TryAgain,
    Interrupted,
    NotAllowed,
    HostNotFound,
    NoNetwork,
    NoConnection,
    NotEnoughSpace,
    OutOfRange,
    ResultTooLarge,
}

/// Largest magnitude of a return code that has a meaning.
pub const MAX_RETURN_CODE: i32 = 24;

/// A return code is known when its magnitude has a meaning.
pub open spec fn code_known(value: int) -> bool {
    -24 <= value <= 24
}

/// The outcome that the code of magnitude `m` stands for.
pub open spec fn kind_of_magnitude(m: int) -> ReturnCodes {
    if m == 0 {
        ReturnCodes::Success
    } else if m == 1 {
        ReturnCodes::Error
    } else if m == 2 {
        ReturnCodes::Unsupported
    } else if m == 3 {
        ReturnCodes::BadParameter
    } else if m == 4 {
        ReturnCodes::PreconditionNotMet
    } else if m == 5 {
        ReturnCodes::OutOfResources
    } else if m == 6 {
        ReturnCodes::NotEnabled
    } else if m == 7 {
        ReturnCodes::ImmutablePolicy
    } else if m == 8 {
        ReturnCodes::AlreadyDeleted
    } else if m == 9 {
        ReturnCodes::Timeout
    } else if m == 10 {
        ReturnCodes::NoData
    } else if m == 11 {
        ReturnCodes::IllegalOperation
    } else if m == 12 {
        ReturnCodes::NotAllowedBySecurity
    } else if m == 13 {
        ReturnCodes::XRetCodeBase
    } else if m == 14 {
        ReturnCodes::XRetCode
    } else if m == 15 {
        ReturnCodes::InProgress
    } else if m == 16 {
        ReturnCodes::TryAgain
    } else if m == 17 {
        ReturnCodes::Interrupted
    } else if m == 18 {
        ReturnCodes::NotAllowed
    } else if m == 19 {
        ReturnCodes::HostNotFound
    } else if m == 20 {
        ReturnCodes::NoNetwork
    } else if m == 21 {
        ReturnCodes::NoConnection
    } else if m == 22 {
        ReturnCodes::NotEnoughSpace
    } else if m == 23 {
        ReturnCodes::OutOfRange
    } else {
        ReturnCodes::ResultTooLarge
    }
}

/// The magnitude that stands for an outcome; `InconsistentPolicy` has none of
/// its own and is reported as a plain error.
pub open spec fn magnitude_of(r: ReturnCodes) -> int {
    match r {
        ReturnCodes::Success => 0,
        ReturnCodes::Error => 1,
        ReturnCodes::Unsupported => 2,
        ReturnCodes::BadParameter => 3,
        ReturnCodes::PreconditionNotMet => 4,
        ReturnCodes::OutOfResources => 5,
        ReturnCodes::NotEnabled => 6,
        ReturnCodes::ImmutablePolicy => 7,
        ReturnCodes::InconsistentPolicy => 1,
        ReturnCodes::AlreadyDeleted => 8,
        ReturnCodes::Timeout => 9,
        ReturnCodes::NoData => 10,
        ReturnCodes::IllegalOperation => 11,
        ReturnCodes::NotAllowedBySecurity => 12,
        ReturnCodes::XRetCodeBase => 13,
        ReturnCodes::XRetCode => 14,
        ReturnCodes::InProgress => 15,
        ReturnCodes::TryAgain => 16,
        ReturnCodes::Interrupted => 17,
        ReturnCodes::NotAllowed => 18,
        ReturnCodes::HostNotFound => 19,
        ReturnCodes::NoNetwork => 20,
        ReturnCodes::NoConnection => 21,
        ReturnCodes::NotEnoughSpace => 22,
        ReturnCodes::OutOfRange => 23,
        ReturnCodes::ResultTooLarge => 24,
    }
}

pub open spec fn abs_int(v: int) -> int {
    if v < 0 {
        -v
    } else {
        v
    }
}

impl ReturnCodes {
    /// Maps a transport return code to its outcome by its magnitude: the sign
    /// of the code does not matter. A code of unknown magnitude is a
    /// programming error and is not admitted.
    pub fn from_code(value: i32) -> (r: ReturnCodes)
        requires
            code_known(value as int),
        ensures
            r == kind_of_magnitude(abs_int(value as int)),
    {
        let m: i32 = if value < 0 {
            -value
        } else {
            value
        };
        match m {
            0 => ReturnCodes::Success,
            1 => ReturnCodes::Error,
            2 => ReturnCodes::Unsupported,
            3 => ReturnCodes::BadParameter,
            4 => ReturnCodes::PreconditionNotMet,
            5 => ReturnCodes::OutOfResources,
            6 => ReturnCodes::NotEnabled,
            7 => ReturnCodes::ImmutablePolicy,
            8 => ReturnCodes::AlreadyDeleted,
            9 => ReturnCodes::Timeout,
            10 => ReturnCodes::NoData,
            11 => ReturnCodes::IllegalOperation,
            12 => ReturnCodes::NotAllowedBySecurity,
            13 => ReturnCodes::XRetCodeBase,
            14 => ReturnCodes::XRetCode,
            15 => ReturnCodes::InProgress,
            16 => ReturnCodes::TryAgain,
            17 => ReturnCodes::Interrupted,
            18 => ReturnCodes::NotAllowed,
            19 => ReturnCodes::HostNotFound,
            20 => ReturnCodes::NoNetwork,
            21 => ReturnCodes::NoConnection,
            22 => ReturnCodes::NotEnoughSpace,
            23 => ReturnCodes::OutOfRange,
            _ => ReturnCodes::ResultTooLarge,
        }
    }

    /// The negative code that the transport reports for this outcome (zero for
    /// `Success`).
    pub fn code(&self) -> (r: i32)
        ensures
            r == -magnitude_of(*self),
    {
        match self {
            ReturnCodes::Success => 0,
            ReturnCodes::Error => -1,
            ReturnCodes::Unsupported => -2,
            ReturnCodes::BadParameter => -3,
            ReturnCodes::PreconditionNotMet => -4,
            ReturnCodes::OutOfResources => -5,
            ReturnCodes::NotEnabled => -6,
            ReturnCodes::ImmutablePolicy => -7,
            ReturnCodes::InconsistentPolicy => -1,
            ReturnCodes::AlreadyDeleted => -8,
            ReturnCodes::Timeout => -9,
            ReturnCodes::NoData => -10,
            ReturnCodes::IllegalOperation => -11,
            ReturnCodes::NotAllowedBySecurity => -12,
            ReturnCodes::XRetCodeBase => -13,
            ReturnCodes::XRetCode => -14,
            ReturnCodes::InProgress => -15,
            ReturnCodes::TryAgain => -16,
            ReturnCodes::Interrupted => -17,
            ReturnCodes::NotAllowed => -18,
            ReturnCodes::HostNotFound => -19,
            ReturnCodes::NoNetwork => -20,
            ReturnCodes::NoConnection => -21,
            ReturnCodes::NotEnoughSpace => -22,
            ReturnCodes::OutOfRange => -23,
            ReturnCodes::ResultTooLarge => -24,
        }
    }
}

} // verus!

verus! {

/// Why the parent of an entity could not be given.
#[derive(Debug, Clone, Copy, PartialEq, Eq, Structural)]
pub enum ParentError {
    /// Called with a participant, which has no parent.
    NIL,
    /// An internal error has occurred.
    InternalError,
    /// The operation is invoked on an inappropriate object.
    IllegalOperation,
    /// The entity has already been deleted.
    AlreadyDeleted,
}

/// Why the participant of an entity could not be given.
#[derive(Debug, Clone, Copy, PartialEq, Eq, Structural)]
pub enum EntityParticipantError {
    /// An internal error has occurred.
    InternalError,
    /// The operation is invoked on an inappropriate object.
    IllegalOperation,
    /// The entity has already been deleted.
    AlreadyDeleted,
}

/// Extended return codes, reported beyond the classic ones.
#[derive(Debug, Clone, Copy, PartialEq, Eq, Structural)]
pub enum XReturnCode {
    InProgress,
    TryAgain,
    Interrupted,
    NotAllowed,
    HostNotFound,
    NoNetwork,
    NoConnection,
    NotEnoughSpace,
    OutOfRange,
}

/// Anything that stands for one entity of a participant's tree.
pub trait Entity {
    spec fn entity_id(&self) -> int;

    /// The handle of the entity.
    fn handle(&self) -> (r: i32)
        ensures
            r as int == self.entity_id(),
    ;
}

/// A listener on entity events.
pub trait Listener {}

/// Something with a 16-byte network identifier.
pub trait Guid {
    fn guid(&self) -> [u8; 16];
}


/// Severity of a log message.
#[derive(Debug, Clone, Copy, PartialEq, Eq, Structural)]
pub enum LogLevel {
    Error,
    Warn,
    Info,
    Debug,
    Trace,
}

/// The severity that a numeric log level stands for: 1 (fatal) and 2 are
/// errors, 3 warnings, 4 information, 5 debugging, anything else tracing.
pub open spec fn log_level_of(level: int) -> LogLevel {
    if level == 1 || level == 2 {
        LogLevel::Error
    } else if level == 3 {
        LogLevel::Warn
    } else if level == 4 {
        LogLevel::Info
    } else if level == 5 {
        LogLevel::Debug
    } else {
        LogLevel::Trace
    }
}

/// Maps a numeric log level to its severity.
pub fn convert_log_level(level: i32) -> (r: LogLevel)
    ensures
        r == log_level_of(level as int),
{
    match level {
        1 | 2 => LogLevel::Error,
        3 => LogLevel::Warn,
        4 => LogLevel::Info,
        5 => LogLevel::Debug,
        _ => LogLevel::Trace,
    }
}

} // verus!
