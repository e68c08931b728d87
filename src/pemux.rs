use vstd::prelude::*;

verus! {

/// Privilege level of user code.
pub const DPL_USER: u64 = 3;
/// Segment of user code.
pub const SEG_UCODE: u64 = 3;
/// Segment of user data.
pub const SEG_UDATA: u64 = 4;
/// The interrupt-enable flag.
pub const RFLAGS_IF: usize = 0x200;
/// What the start code finds in the accumulator when the stack pointer was set for it.
pub const SP_SET_MARK: usize = 0xDEAD_BEEF;
/// Register that holds the frame pointer.
pub const REG_RBP: usize = 8;
/// Register that holds the accumulator.
pub const REG_RAX: usize = 14;

/// The name of exception vector `vec`.
pub open spec fn vec_name_of(vec: usize) -> Seq<char> {
    if vec == 0x00 {
        "Divide by zero"@
    } else if vec == 0x01 {
        "Single step"@
    } else if vec == 0x02 {
        "Non maskable"@
    } else if vec == 0x03 {
        "Breakpoint"@
    } else if vec == 0x04 {
        "Overflow"@
    } else if vec == 0x05 {
        "Bounds check"@
    } else if vec == 0x06 {
        "Invalid opcode"@
    } else if vec == 0x07 {
        "Co-proc. n/a"@
    } else if vec == 0x08 {
        "Double fault"@
    } else if vec == 0x09 {
        "Co-proc seg. overrun"@
    } else if vec == 0x0A {
        "Invalid TSS"@
    } else if vec == 0x0B {
        "Segment not present"@
    } else if vec == 0x0C {
        "Stack exception"@
    } else if vec == 0x0D {
        "Gen. prot. fault"@
    } else if vec == 0x0E {
        "Page fault"@
    } else if vec == 0x10 {
        "Co-processor error"@
    } else {
        "<unknown>"@
    }
}

/// Returns the name of exception vector `vec`.
pub fn vec_name(vec: usize) -> (r: &'static str)
    ensures
        r@ == vec_name_of(vec),
{
    if vec == 0x00 {
        "Divide by zero"
    } else if vec == 0x01 {
        "Single step"
    } else if vec == 0x02 {
        "Non maskable"
    } else if vec == 0x03 {
        "Breakpoint"
    } else if vec == 0x04 {
        "Overflow"
    } else if vec == 0x05 {
        "Bounds check"
    } else if vec == 0x06 {
        "Invalid opcode"
    } else if vec == 0x07 {
        "Co-proc. n/a"
    } else if vec == 0x08 {
        "Double fault"
    } else if vec == 0x09 {
        "Co-proc seg. overrun"
    } else if vec == 0x0A {
        "Invalid TSS"
    } else if vec == 0x0B {
        "Segment not present"
    } else if vec == 0x0C {
        "Stack exception"
    } else if vec == 0x0D {
        "Gen. prot. fault"
    } else if vec == 0x0E {
        "Page fault"
    } else if vec == 0x10 {
        "Co-processor error"
    } else {
        "<unknown>"
    }
}

/// The registers that an interrupt saved.
pub struct State {
    /// General purpose registers.
    pub r: [usize; 15],
    /// Interrupt number.
    pub irq: usize,
    /// Error code of an exception.
    pub error: usize,
    pub rip: usize,
    pub cs: usize,
    pub rflags: usize,
    pub rsp: usize,
    pub ss: usize,
}

impl State {
    /// Whether the interrupt arrived while user code ran.
    pub open spec fn spec_came_from_user(&self) -> bool {
        (self.cs & (DPL_USER as usize)) == DPL_USER as usize
    }

    /// Returns whether the interrupt arrived while user code ran.
    pub fn came_from_user(&self) -> (r: bool)
        ensures
            r == self.spec_came_from_user(),
    {
        (self.cs & DPL_USER as usize) == DPL_USER as usize
    }

    /// Returns whether the interrupt arrived while the multiplexer itself ran.
    pub fn nested(&self) -> (r: bool)
        ensures
            r == !self.spec_came_from_user(),
    {
        !self.came_from_user()
    }

    /// Prepares the registers to start user code at `entry` with stack pointer `sp`, with
    /// interrupts enabled.
    pub fn init(&mut self, entry: usize, sp: usize)
        ensures
            final(self).rip == entry,
            final(self).rsp == sp,
            final(self).r@ == old(self).r@.update(REG_RBP as int, 0).update(REG_RAX as int, SP_SET_MARK),
            final(self).rflags == RFLAGS_IF,
            final(self).cs == ((SEG_UCODE << 3) | DPL_USER) as usize,
            final(self).ss == ((SEG_UDATA << 3) | DPL_USER) as usize,
            final(self).irq == old(self).irq,
            final(self).error == old(self).error,
    {
        self.rip = entry;
        self.rsp = sp;
        self.r[REG_RBP] = 0;
        self.r[REG_RAX] = SP_SET_MARK;
        self.rflags = RFLAGS_IF;
        self.cs = ((SEG_UCODE << 3) | DPL_USER) as usize;
        self.ss = ((SEG_UDATA << 3) | DPL_USER) as usize;
    }
}

} // verus!
