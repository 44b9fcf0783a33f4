use vstd::prelude::*;

verus! {

/// Errors returned through a domain proxy.
#[derive(Debug, Clone, Copy, PartialEq, Eq, Structural)]
pub enum AlienError {
    /// The callee faulted during a recoverable call.
    DomainCrash,
    /// An error code returned by the domain itself.
    Errno(i32),
}

pub type AlienResult<T> = Result<T, AlienError>;

} // verus!
