//! The handler record of a `try` block.

use vstd::prelude::*;

verus! {

/// Handler of a `try` block: the guarded instructions `start_ip..end_ip`
/// and where control goes when one of them throws.
#[derive(Debug)]
pub struct ExceptionHandler {
    /// First instruction of the guarded block.
    pub start_ip: usize,
    /// First instruction past the guarded block.
    pub end_ip: usize,
    /// First instruction of the handler.
    pub handler_ip: usize,
    /// Name bound to the exception, if any.
    pub exception_var: Option<String>,
    /// Whether a finally block follows.
    pub has_finally: bool,
    /// First instruction of the finally block.
    pub finally_ip: Option<usize>,
}

impl ExceptionHandler {
    /// Whether the guarded block covers instruction `ip`.
    pub open spec fn covers(&self, ip: usize) -> bool {
        self.start_ip <= ip && ip < self.end_ip
    }

    /// A copy of the handler.
    pub fn duplicate(&self) -> (h: Self)
        ensures
            h == *self,
    {
        let exception_var = match &self.exception_var {
            Some(v) => Some(v.clone()),
            None => None,
        };
        ExceptionHandler {
            start_ip: self.start_ip,
            end_ip: self.end_ip,
            handler_ip: self.handler_ip,
            exception_var,
            has_finally: self.has_finally,
            finally_ip: self.finally_ip,
        }
    }
}

} // verus!
