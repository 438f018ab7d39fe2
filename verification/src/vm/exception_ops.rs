//! try / catch / finally: the stack of exception handlers.

use vstd::prelude::*;
use crate::error::TsError;
use super::exception::ExceptionHandler;

verus! {

/// The index of the first handler in `handlers` that covers `ip`, or the
/// number of handlers when none does.
pub open spec fn first_covering(handlers: Seq<ExceptionHandler>, ip: usize) -> int
    decreases handlers.len(),
{
    if handlers.len() == 0 {
        0
    } else if handlers[0].covers(ip) {
        0
    } else {
        1 + first_covering(handlers.drop_first(), ip)
    }
}

/// Exception operations of the virtual machine.
pub struct ExceptionOperations;

impl ExceptionOperations {
    /// Enters a `try` block at `current_ip` whose handler starts at
    /// `handler_ip`: pushes a handler guarding `current_ip..handler_ip`.
    pub fn try_start(
        current_ip: usize,
        handler_ip: usize,
        finally_ip: Option<usize>,
        exception_var: Option<String>,
        exception_handlers: &mut Vec<ExceptionHandler>,
    ) -> (r: Result<(), TsError>)
        ensures
            r is Ok,
            final(exception_handlers)@ == old(exception_handlers)@.push(ExceptionHandler {
                start_ip: current_ip,
                end_ip: handler_ip,
                handler_ip,
                exception_var,
                has_finally: finally_ip is Some,
                finally_ip,
            }),
    {
        let handler = ExceptionHandler {
            start_ip: current_ip,
            end_ip: handler_ip,
            handler_ip,
            exception_var,
            has_finally: finally_ip.is_some(),
            finally_ip,
        };
        exception_handlers.push(handler);
        Ok(())
    }

    /// Leaves the innermost `try` block: pops its handler, if any.
    pub fn try_end(exception_handlers: &mut Vec<ExceptionHandler>) -> (r: Result<(), TsError>)
        ensures
            r is Ok,
            final(exception_handlers)@ == (if old(exception_handlers)@.len() > 0 {
                old(exception_handlers)@.drop_last()
            } else {
                old(exception_handlers)@
            }),
    {
        exception_handlers.pop();
        Ok(())
    }

    /// The first handler, in table order, whose guarded block covers `ip`.
    pub fn find_exception_handler(ip: usize, exception_handlers: &[ExceptionHandler]) -> (r: Option<ExceptionHandler>)
        ensures
            ({
                let i = first_covering(exception_handlers@, ip);
                if i < exception_handlers@.len() {
                    r == Some(exception_handlers@[i])
                } else {
                    r is None
                }
            }),
    {
        let mut k: usize = 0;
        assert(exception_handlers@.skip(0) =~= exception_handlers@);
        while k < exception_handlers.len()
            invariant
                k <= exception_handlers@.len(),
                first_covering(exception_handlers@, ip) == k + first_covering(exception_handlers@.skip(k as int), ip),
            decreases exception_handlers@.len() - k,
        {
            let handler = &exception_handlers[k];
            if handler.start_ip <= ip && ip < handler.end_ip {
                assert(exception_handlers@.skip(k as int)[0] == *handler);
                return Some(handler.duplicate());
            }
            assert(exception_handlers@.skip(k as int).drop_first() =~= exception_handlers@.skip(k + 1));
            k = k + 1;
        }
        assert(exception_handlers@.skip(k as int).len() == 0);
        None
    }
}

/// Leaving a `try` block right after entering it restores the handler
/// table: `try_end` undoes `try_start`.
pub proof fn lemma_try_end_undoes_try_start(
    before: Seq<ExceptionHandler>,
    after_start: Seq<ExceptionHandler>,
    after_end: Seq<ExceptionHandler>,
    handler: ExceptionHandler,
)
    requires
        after_start == before.push(handler),
        after_end == (if after_start.len() > 0 { after_start.drop_last() } else { after_start }),
    ensures
        after_end == before,
{
    assert(before.push(handler).drop_last() =~= before);
}

} // verus!
