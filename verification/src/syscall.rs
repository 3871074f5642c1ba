//! The system calls a process can make.

use vstd::prelude::*;

verus! {

/// The system calls, by the number of the `svc` instruction that makes them.
#[allow(non_camel_case_types)]
#[derive(Copy, Clone, Debug, PartialEq, Eq, Structural)]
pub enum Syscall {
    YIELD,
    SUBSCRIBE,
    COMMAND,
    ALLOW,
    MEMOP,
}

/// The system call an `svc` number names: 0 to 4 in the order of the
/// variants, none for any other number.
pub open spec fn syscall_of(num: u8) -> Option<Syscall> {
    if num == 0 {
        Some(Syscall::YIELD)
    } else if num == 1 {
        Some(Syscall::SUBSCRIBE)
    } else if num == 2 {
        Some(Syscall::COMMAND)
    } else if num == 3 {
        Some(Syscall::ALLOW)
    } else if num == 4 {
        Some(Syscall::MEMOP)
    } else {
        None
    }
}

} // verus!
