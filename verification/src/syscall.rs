//! The syscall registry: host-provided builtins.
//!
//! A two-table design. The name-to-id half is consulted only at compile
//! time, to bake a call site's function name into the `SysCall`
//! instruction; it is built here. The id-to-effect half is consulted
//! only at run time: the interpreter dispatches on these ids.
//! Registration is fixed at startup; the compiled language has no way
//! to add entries.

use vstd::prelude::*;

use crate::compile::table_view;
use crate::instr::LiteralInteger;

verus! {

/// Writes a value's display form to the output, no trailing newline.
pub const SYSCALL_PRINT: LiteralInteger = 0;

/// Writes a value's display form to the output with a trailing newline.
pub const SYSCALL_PRINTLN: LiteralInteger = 1;

/// Writes the element count of the array in the register above its
/// argument register into the argument register, as a number.
pub const SYSCALL_LEN: LiteralInteger = 2;

/// Builds the name-to-id half of the syscall registry: the three
/// builtins `Print`, `Println` and `Len`, with the ids above.
pub fn register_syscalls() -> (table: Vec<(String, LiteralInteger)>)
    ensures
        table_view(table@) == seq![
            ("Print"@, SYSCALL_PRINT),
            ("Println"@, SYSCALL_PRINTLN),
            ("Len"@, SYSCALL_LEN),
        ],
{
    let mut table: Vec<(String, LiteralInteger)> = Vec::new();
    table.push(("Print".to_owned(), SYSCALL_PRINT));
    table.push(("Println".to_owned(), SYSCALL_PRINTLN));
    table.push(("Len".to_owned(), SYSCALL_LEN));
    proof {
        assert(table_view(table@) =~= seq![
            ("Print"@, SYSCALL_PRINT),
            ("Println"@, SYSCALL_PRINTLN),
            ("Len"@, SYSCALL_LEN),
        ]);
    }
    table
}

} // verus!
