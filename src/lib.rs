//! Debugger detection for Linux processes, built on the rule that a thread may
//! ask to be traced successfully only once: a failing first request means a
//! tracer is already attached, and a second success means someone tampered
//! with the kernel's answer.
//!
//! The library holds the decisions of the protocol: interpreting the kernel's
//! answer, the per-thread state machine, the pseudo-random generator and the
//! checksum that guards the repeated check. Issuing the system calls and ending
//! the process are left to the caller, who hands each raw result in and acts on
//! the verdict that comes back.

pub mod checksum;
pub mod error;
pub mod multi;
pub mod protocol;
pub mod rand;
pub mod state;

pub use crate::checksum::{checksum, fold_in, SRSIZE};
pub use crate::error::{DebugOffErr, DebugOffErrType};
pub use crate::rand::Rand;
pub use crate::multi::{iterations_for, Action, MultiCheck, Round, ROUNDS};
pub use crate::state::{ptraceme, ptraceme_or_die, Aa, PtraceState, Verdict};
