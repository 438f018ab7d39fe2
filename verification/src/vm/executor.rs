//! Instruction-pointer arithmetic of the interpreter loop.

use vstd::prelude::*;

verus! {

/// Instruction executor.
pub struct InstructionExecutor;

impl InstructionExecutor {
    /// The target of a jump by `offset` from `current_ip`, computed in
    /// `i32` and converted back to an instruction index.
    pub fn jump(offset: i32, current_ip: usize) -> (target: usize)
        requires
            i32::MIN <= (current_ip as i32) + offset <= i32::MAX,
        ensures
            target == ((current_ip as i32) + offset) as i32 as usize,
            current_ip <= i32::MAX && current_ip + offset >= 0 ==> target == current_ip + offset,
    {
        (current_ip as i32 + offset as i32) as usize
    }
}

} // verus!
