use vstd::prelude::*;

use super::TargetOs;
use crate::text::{append_decimal, decimal};

verus! {

/// Writes the assembly of the stubs for LoongArch64. Each line of assembly
/// ends with a newline.
pub struct LoongArch64StubGenerator {
    pub(crate) target_os: TargetOs,
}

impl View for LoongArch64StubGenerator {
    type V = TargetOs;

    /// The operating system the stubs are generated for.
    closed spec fn view(&self) -> TargetOs {
        self.target_os
    }
}

/// The stub of the function whose address sits at `index` in the symbol table
/// `symtab_base`: it jumps through the table entry (eight bytes per entry).
pub open spec fn fn_stub_text(symtab_base: Seq<char>, index: nat) -> Seq<char> {
    "    la.global $r12, "@ + symtab_base + "\n"@ + "    addu16i.d $r12, $r12, "@ + decimal(
        index * 8,
    ) + "\n"@ + "    jirl $r0, $r12, 0\n"@
}

/// The jump of an unresolved function to the binder, with the function's index
/// in `$a0`.
pub open spec fn jmp_binder_text(index: nat, binder: Seq<char>) -> Seq<char> {
    "    li.d $a0, "@ + decimal(index) + "\n"@ + "    b "@ + binder + "\n"@
}

/// The number of registers the binder saves around the call of the resolver.
pub open spec fn saved_count() -> nat {
    18
}

/// The register that the binder saves in its slot number `i` (the return
/// address, then the argument registers, then the temporaries).
pub open spec fn saved_register(i: int) -> Seq<char> {
    if i == 0 {
        "$ra"@
    } else 
    if i == 1 {
        "$a0"@
    } else 
    if i == 2 {
        "$a1"@
    } else 
    if i == 3 {
        "$a2"@
    } else 
    if i == 4 {
        "$a3"@
    } else 
    if i == 5 {
        "$a4"@
    } else 
    if i == 6 {
        "$a5"@
    } else 
    if i == 7 {
        "$a6"@
    } else 
    if i == 8 {
        "$a7"@
    } else 
    if i == 9 {
        "$t0"@
    } else 
    if i == 10 {
        "$t1"@
    } else 
    if i == 11 {
        "$t2"@
    } else 
    if i == 12 {
        "$t3"@
    } else 
    if i == 13 {
        "$t4"@
    } else 
    if i == 14 {
        "$t5"@
    } else 
    if i == 15 {
        "$t6"@
    } else 
    if i == 16 {
        "$t7"@
    } else 
{
        "$t8"@
    }
}

/// The stack offset of slot number `i` in the binder's frame of 144 bytes:
/// eight bytes per slot, from the top of the frame down.
pub open spec fn saved_offset(i: int) -> nat {
    (136 - 8 * i) as nat
}

/// The line that saves the register of slot `i` to its stack slot.
pub open spec fn save_line(i: int) -> Seq<char> {
    "    st.d "@ + saved_register(i) + ", $sp, "@ + decimal(saved_offset(i)) + "\n"@
}

/// The line that restores the register of slot `i` from its stack slot.
pub open spec fn restore_line(i: int) -> Seq<char> {
    "    ld.d "@ + saved_register(i) + ", $sp, "@ + decimal(saved_offset(i)) + "\n"@
}

/// The save lines of the first `n` slots, in slot order.
pub open spec fn save_lines(n: nat) -> Seq<char>
    decreases n,
{
    if n == 0 {
        Seq::empty()
    } else {
        save_lines((n - 1) as nat) + save_line(n - 1)
    }
}

/// The restore lines of the last `n` slots, from the last slot backwards.
pub open spec fn restore_lines(n: nat) -> Seq<char>
    decreases n,
{
    if n == 0 {
        Seq::empty()
    } else {
        restore_lines((n - 1) as nat) + restore_line(saved_count() - n)
    }
}

/// The lines of the binder before the call of the resolver: open the frame,
/// save the return address and the argument and temporary registers, and
/// pass the address to resolve.
pub open spec fn binder_prologue() -> Seq<char> {
    "    .cfi_startproc\n"@ + "    addi.d $sp, $sp, -144\n"@ + save_lines(saved_count())
        + "    move $a0, $r21\n"@
}

/// The lines of the binder after the call of the resolver: keep the resolved
/// address, restore the registers in the opposite order, close the frame and
/// jump to the address.
pub open spec fn binder_epilogue() -> Seq<char> {
    "    move $r21, $a0\n"@ + restore_lines(saved_count()) + "    addi.d $sp, $sp, 144\n"@
        + "    jirl $r0, $r21, 0\n"@ + "    .cfi_endproc\n"@
}

/// The binder: it saves the registers, calls `resolver` with the address in
/// `$r21`, restores the registers and jumps to the resolved address.
pub open spec fn binder_stub_text(resolver: Seq<char>) -> Seq<char> {
    binder_prologue() + "    bl "@ + resolver + "\n"@ + binder_epilogue()
}

/// The register of slot `i` and its stack offset.
fn saved_slot(i: usize) -> (res: (&'static str, usize))
    requires
        i < saved_count(),
    ensures
        res.0@ == saved_register(i as int),
        res.1 == saved_offset(i as int),
{
    match i {
        0 => ("$ra", 136),
        1 => ("$a0", 128),
        2 => ("$a1", 120),
        3 => ("$a2", 112),
        4 => ("$a3", 104),
        5 => ("$a4", 96),
        6 => ("$a5", 88),
        7 => ("$a6", 80),
        8 => ("$a7", 72),
        9 => ("$t0", 64),
        10 => ("$t1", 56),
        11 => ("$t2", 48),
        12 => ("$t3", 40),
        13 => ("$t4", 32),
        14 => ("$t5", 24),
        15 => ("$t6", 16),
        16 => ("$t7", 8),
        _ => ("$t8", 0),
    }
}

/// Appends the line that saves (`load` false) or restores (`load` true) slot `i`.
fn append_slot_line(text: &mut String, i: usize, load: bool)
    requires
        i < saved_count(),
    ensures
        final(text)@ == old(text)@ + if load {
            restore_line(i as int)
        } else {
            save_line(i as int)
        },
{
    let (register, offset) = saved_slot(i);
    if load {
        text.append("    ld.d ");
    } else {
        text.append("    st.d ");
    }
    text.append(register);
    text.append(", $sp, ");
    append_decimal(text, offset);
    text.append("\n");
}

fn append_binder_prologue(text: &mut String)
    ensures
        final(text)@ == old(text)@ + binder_prologue(),
{
    text.append("    .cfi_startproc\n");
    text.append("    addi.d $sp, $sp, -144\n");
    let ghost start = text@;
    let mut i: usize = 0;
    while i < 18
        invariant
            i <= saved_count(),
            text@ == start + save_lines(i as nat),
        decreases 18 - i,
    {
        append_slot_line(text, i, false);
        i = i + 1;
    }
    text.append("    move $a0, $r21\n");
}

fn append_binder_epilogue(text: &mut String)
    ensures
        final(text)@ == old(text)@ + binder_epilogue(),
{
    text.append("    move $r21, $a0\n");
    let ghost start = text@;
    let mut n: usize = 0;
    while n < 18
        invariant
            n <= saved_count(),
            text@ == start + restore_lines(n as nat),
        decreases 18 - n,
    {
        append_slot_line(text, 17 - n, true);
        n = n + 1;
    }
    text.append("    addi.d $sp, $sp, 144\n");
    text.append("    jirl $r0, $r21, 0\n");
    text.append("    .cfi_endproc\n");
}

impl LoongArch64StubGenerator {
    /// A generator of stubs for `target_os`.
    pub fn new(target_os: TargetOs) -> (res: LoongArch64StubGenerator)
        ensures
            res@ == target_os,
    {
        LoongArch64StubGenerator { target_os }
    }

    /// The operating system the stubs are generated for.
    pub fn target_os(&self) -> (res: TargetOs)
        ensures
            res == self@,
    {
        self.target_os
    }

    /// Appends to `text` the stub of the function whose address sits at
    /// `index` in the symbol table `symtab_base`.
    pub fn write_fn_stub(&self, text: &mut String, symtab_base: &str, index: usize)
        requires
            index * 8 <= usize::MAX,
        ensures
            final(text)@ == old(text)@ + fn_stub_text(symtab_base@, index as nat),
    {
        text.append("    la.global $r12, ");
        text.append(symtab_base);
        text.append("\n");
        text.append("    addu16i.d $r12, $r12, ");
        append_decimal(text, index * 8);
        text.append("\n");
        text.append("    jirl $r0, $r12, 0\n");
    }

    /// Appends to `text` the jump of the function at `index` to `binder`.
    pub fn write_jmp_binder(&self, text: &mut String, index: usize, binder: &str)
        ensures
            final(text)@ == old(text)@ + jmp_binder_text(index as nat, binder@),
    {
        text.append("    li.d $a0, ");
        append_decimal(text, index);
        text.append("\n");
        text.append("    b ");
        text.append(binder);
        text.append("\n");
    }

    /// Appends to `text` the binder that calls `resolver`.
    pub fn write_binder_stub(&self, text: &mut String, resolver: &str)
        ensures
            final(text)@ == old(text)@ + binder_stub_text(resolver@),
    {
        append_binder_prologue(text);
        text.append("    bl ");
        text.append(resolver);
        text.append("\n");
        append_binder_epilogue(text);
    }
}

} // verus!
