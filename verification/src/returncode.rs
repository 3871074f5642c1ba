//! Result codes returned by drivers and capsules.

use vstd::prelude::*;

verus! {

/// The outcome of an operation: success, or the reason for a failure.
#[allow(non_camel_case_types)]
#[derive(Copy, Clone, Debug, PartialEq, Eq, Structural)]
pub enum ReturnCode {
    SuccessWithValue { value: usize },
    SUCCESS,
    FAIL,
    EBUSY,
    EALREADY,
    EOFF,
    ERESERVE,
    EINVAL,
    ESIZE,
    ECANCEL,
    ENOMEM,
    ENOSUPPORT,
    ENODEVICE,
    EUNINSTALLED,
    ENOACK,
}

/// The number a system call returns to a process for `rc`: the value, as a
/// signed word, for a success with a value, zero for success, and for each
/// failure a negative number counted down in the order of the variants.
pub open spec fn rc_value(rc: ReturnCode) -> isize {
    match rc {
        ReturnCode::SuccessWithValue { value } => value as isize,
        ReturnCode::SUCCESS => 0,
        ReturnCode::FAIL => (-1) as isize,
        ReturnCode::EBUSY => (-2) as isize,
        ReturnCode::EALREADY => (-3) as isize,
        ReturnCode::EOFF => (-4) as isize,
        ReturnCode::ERESERVE => (-5) as isize,
        ReturnCode::EINVAL => (-6) as isize,
        ReturnCode::ESIZE => (-7) as isize,
        ReturnCode::ECANCEL => (-8) as isize,
        ReturnCode::ENOMEM => (-9) as isize,
        ReturnCode::ENOSUPPORT => (-10) as isize,
        ReturnCode::ENODEVICE => (-11) as isize,
        ReturnCode::EUNINSTALLED => (-12) as isize,
        ReturnCode::ENOACK => (-13) as isize,
    }
}

impl ReturnCode {
    /// The number a system call returns to a process for this code.
    pub fn to_isize(self) -> (r: isize)
        ensures
            r == rc_value(self),
    {
        match self {
            ReturnCode::SuccessWithValue { value } => value as isize,
            ReturnCode::SUCCESS => 0,
            ReturnCode::FAIL => -1,
            ReturnCode::EBUSY => -2,
            ReturnCode::EALREADY => -3,
            ReturnCode::EOFF => -4,
            ReturnCode::ERESERVE => -5,
            ReturnCode::EINVAL => -6,
            ReturnCode::ESIZE => -7,
            ReturnCode::ECANCEL => -8,
            ReturnCode::ENOMEM => -9,
            ReturnCode::ENOSUPPORT => -10,
            ReturnCode::ENODEVICE => -11,
            ReturnCode::EUNINSTALLED => -12,
            ReturnCode::ENOACK => -13,
        }
    }
}

} // verus!
