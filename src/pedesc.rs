use vstd::prelude::*;
use vstd::string::StringSliceAdditionalSpecFns;

verus! {

/// The type of a processing element, in the low three bits of a descriptor.
pub type PEType = u64;
pub const COMP_IMEM: u64 = 0;
pub const COMP_EMEM: u64 = 1;
pub const MEM: u64 = 2;

/// The instruction set of a processing element, in bits 3 to 6 of a descriptor.
pub type PEISA = u64;
pub const ISA_NONE: u64 = 0;
pub const ISA_X86: u64 = 1;
pub const ISA_ARM: u64 = 2;
pub const ISA_RISCV: u64 = 3;
pub const ISA_ACCEL_INDIR: u64 = 4;
pub const ISA_ACCEL_COPY: u64 = 5;
pub const ISA_ACCEL_ROT13: u64 = 6;
pub const ISA_IDE_DEV: u64 = 7;
pub const ISA_NIC_DEV: u64 = 8;
pub const ISA_SERIAL_DEV: u64 = 9;

/// Attributes of a processing element, in bits 7 to 9 of a descriptor.
pub type PEAttr = u64;
pub const ATTR_BOOM: u64 = 1;
pub const ATTR_ROCKET: u64 = 2;
pub const ATTR_NIC: u64 = 4;

/// Memory layout of a tile.
pub const MEM_OFFSET: usize = 0;
pub const RBUF_STD_ADDR: usize = 0xD000_0000;
pub const RBUF_STD_SIZE: usize = 0x1000;
pub const RBUF_SIZE: usize = 0x1_0000;
pub const RBUF_SIZE_SPM: usize = 0xE000;
pub const PEMUX_RBUF_SIZE: usize = 0x400;
pub const STACK_SIZE: usize = 0x1_0000;
/// The receive buffers at the end of a scratchpad memory.
pub const SPM_RBUFS: usize = PEMUX_RBUF_SIZE + RBUF_SIZE_SPM + RBUF_STD_SIZE;

/// The byte that separates properties.
pub const PROP_SEP: u8 = 43;

pub open spec fn desc_val(ty: u64, isa: u64, memsize: u64) -> u64 {
    ty | (isa << 3) | memsize
}

pub open spec fn desc_val_attr(ty: u64, isa: u64, memsize: u64, attr: u64) -> u64 {
    ty | (isa << 3) | (attr << 7) | memsize
}

pub open spec fn type_of(v: u64) -> u64 {
    v & 0x7
}

pub open spec fn isa_of(v: u64) -> u64 {
    (v >> 3) & 0xF
}

pub open spec fn attr_of(v: u64) -> u64 {
    (v >> 7) & 0x7
}

pub open spec fn bytes_of(s: Seq<char>) -> Seq<u8> {
    Seq::new(s.len(), |i: int| s[i] as u8)
}

/// The descriptor after the property named `tok`; an unknown name changes nothing.
pub open spec fn apply_prop(v: u64, tok: Seq<u8>) -> u64 {
    if tok == bytes_of(seq!['i', 'm', 'e', 'm']) {
        desc_val(COMP_IMEM, isa_of(v), 0)
    } else if tok == bytes_of(seq!['e', 'm', 'e', 'm']) || tok == bytes_of(seq!['v', 'm']) {
        desc_val(COMP_EMEM, isa_of(v), 0)
    } else if tok == bytes_of(seq!['a', 'r', 'm']) {
        desc_val(type_of(v), ISA_ARM, 0)
    } else if tok == bytes_of(seq!['x', '8', '6']) {
        desc_val(type_of(v), ISA_X86, 0)
    } else if tok == bytes_of(seq!['r', 'i', 's', 'c', 'v']) {
        desc_val(type_of(v), ISA_RISCV, 0)
    } else if tok == bytes_of(seq!['r', 'o', 'c', 'k', 'e', 't']) {
        desc_val_attr(type_of(v), isa_of(v), 0, attr_of(v) | ATTR_ROCKET)
    } else if tok == bytes_of(seq!['b', 'o', 'o', 'm']) {
        desc_val_attr(type_of(v), isa_of(v), 0, attr_of(v) | ATTR_BOOM)
    } else if tok == bytes_of(seq!['n', 'i', 'c']) {
        desc_val_attr(type_of(v), isa_of(v), 0, attr_of(v) | ATTR_NIC)
    } else if tok == bytes_of(seq!['i', 'n', 'd', 'i', 'r']) {
        desc_val(COMP_IMEM, ISA_ACCEL_INDIR, 0)
    } else if tok == bytes_of(seq!['c', 'o', 'p', 'y']) {
        desc_val(COMP_IMEM, ISA_ACCEL_COPY, 0)
    } else if tok == bytes_of(seq!['r', 'o', 't', '1', '3']) {
        desc_val(COMP_IMEM, ISA_ACCEL_ROT13, 0)
    } else if tok == bytes_of(seq!['i', 'd', 'e', 'd', 'e', 'v']) {
        desc_val(COMP_IMEM, ISA_IDE_DEV, 0)
    } else if tok == bytes_of(seq!['n', 'i', 'c', 'd', 'e', 'v']) {
        desc_val(COMP_IMEM, ISA_NIC_DEV, 0)
    } else {
        v
    }
}

/// The descriptor after the properties in `b` from position `i` on, where the current
/// property started at `start`.
pub open spec fn apply_props(v: u64, b: Seq<u8>, start: int, i: int) -> u64
    decreases b.len() - i,
{
    if i >= b.len() {
        apply_prop(v, b.subrange(start, b.len() as int))
    } else if b[i] == PROP_SEP {
        apply_props(apply_prop(v, b.subrange(start, i)), b, i + 1, i + 1)
    } else {
        apply_props(v, b, start, i + 1)
    }
}

/// Describes a processing element: its type, instruction set, attributes and the size of
/// its internal memory, packed into one word.
#[derive(Clone, Copy, Debug, PartialEq, Eq, Structural)]
pub struct PEDesc {
    pub val: u64,
}

/// Whether bytes `start .. end` of `b` spell `w`.
fn token_is(b: &[u8], start: usize, end: usize, w: &Vec<u8>) -> (r: bool)
    requires
        start <= end <= b@.len(),
    ensures
        r == (b@.subrange(start as int, end as int) == w@),
{
    if end - start != w.len() {
        assert(b@.subrange(start as int, end as int).len() != w@.len());
        return false;
    }
    let mut k: usize = 0;
    while k < w.len()
        invariant
            start <= end <= b@.len(),
            end - start == w.len(),
            k <= w.len(),
            forall|j: int| 0 <= j < k ==> b@[start + j] == w@[j],
        decreases w.len() - k,
    {
        if b[start + k] != w[k] {
            assert(b@.subrange(start as int, end as int)[k as int] != w@[k as int]);
            return false;
        }
        k = k + 1;
    }
    assert(b@.subrange(start as int, end as int) =~= w@);
    true
}

impl PEDesc {
    /// Creates a descriptor from type, instruction set and memory size.
    pub fn new(ty: PEType, isa: PEISA, memsize: usize) -> (r: PEDesc)
        ensures
            r.val == desc_val(ty, isa, memsize as u64),
    {
        PEDesc::new_from(ty | (isa << 3) | memsize as u64)
    }

    /// Creates a descriptor from type, instruction set, memory size and attributes.
    pub fn new_with_attr(ty: PEType, isa: PEISA, memsize: usize, attr: PEAttr) -> (r: PEDesc)
        ensures
            r.val == desc_val_attr(ty, isa, memsize as u64, attr),
    {
        PEDesc::new_from(ty | (isa << 3) | (attr << 7) | memsize as u64)
    }

    /// Creates a descriptor from its raw value.
    pub fn new_from(val: u64) -> (r: PEDesc)
        ensures
            r.val == val,
    {
        PEDesc { val }
    }

    /// Returns the raw value.
    pub fn value(self) -> (r: u64)
        ensures
            r == self.val,
    {
        self.val
    }

    pub fn pe_type(self) -> (r: PEType)
        ensures
            r == type_of(self.val),
    {
        self.val & 0x7
    }

    pub fn isa(self) -> (r: PEISA)
        ensures
            r == isa_of(self.val),
    {
        (self.val >> 3) & 0xF
    }

    pub fn attr(self) -> (r: PEAttr)
        ensures
            r == attr_of(self.val),
    {
        (self.val >> 7) & 0x7
    }

    pub open spec fn spec_mem_size(self) -> usize {
        (self.val & !0xFFFu64) as usize
    }

    /// Returns the size of the internal memory (0 if there is none).
    pub fn mem_size(self) -> (r: usize)
        ensures
            r == self.spec_mem_size(),
    {
        #[verifier::truncate] ((self.val & !0xFFFu64) as usize)
    }

    /// Returns whether the element runs software.
    pub fn is_programmable(self) -> (r: bool)
        ensures
            r == (isa_of(self.val) == ISA_X86 || isa_of(self.val) == ISA_ARM || isa_of(self.val) == ISA_RISCV),
    {
        let isa = self.isa();
        isa == ISA_X86 || isa == ISA_ARM || isa == ISA_RISCV
    }

    /// Returns whether the element is a device.
    pub fn is_device(self) -> (r: bool)
        ensures
            r == (isa_of(self.val) == ISA_NIC_DEV || isa_of(self.val) == ISA_IDE_DEV || isa_of(self.val) == ISA_SERIAL_DEV),
    {
        let isa = self.isa();
        isa == ISA_NIC_DEV || isa == ISA_IDE_DEV || isa == ISA_SERIAL_DEV
    }

    /// Returns whether activities can run on the element.
    pub fn supports_vpes(self) -> (r: bool)
        ensures
            r == (type_of(self.val) != MEM),
    {
        self.pe_type() != MEM
    }

    /// Returns whether the element can run a multiplexer.
    pub fn supports_pemux(self) -> (r: bool)
        ensures
            r == (type_of(self.val) != MEM && !(isa_of(self.val) == ISA_NIC_DEV
                || isa_of(self.val) == ISA_IDE_DEV || isa_of(self.val) == ISA_SERIAL_DEV)),
    {
        self.supports_vpes() && !self.is_device()
    }

    /// Returns whether the element has internal memory.
    pub fn has_mem(self) -> (r: bool)
        ensures
            r == (type_of(self.val) == COMP_IMEM || type_of(self.val) == MEM),
    {
        self.pe_type() == COMP_IMEM || self.pe_type() == MEM
    }

    /// Returns whether the element has a cache.
    pub fn has_cache(self) -> (r: bool)
        ensures
            r == (type_of(self.val) == COMP_EMEM),
    {
        self.pe_type() == COMP_EMEM
    }

    /// Returns whether the element has virtual memory.
    pub fn has_virtmem(self) -> (r: bool)
        ensures
            r == (type_of(self.val) == COMP_EMEM),
    {
        self.has_cache()
    }

    /// Derives a descriptor from this one by applying the properties in `props`, separated
    /// by `+`: `imem`, `emem` or `vm` set the type, `arm`, `x86` or `riscv` the instruction set,
    /// `rocket`, `boom` or `nic` add an attribute, and `indir`, `copy`, `rot13`, `idedev` or
    /// `nicdev` make it that accelerator or device.  Other names are ignored.
    pub fn with_properties(&self, props: &str) -> (r: PEDesc)
        ensures
            r.val == apply_props(self.val, props.spec_bytes(), 0, 0),
    {
        let b = props.as_bytes();
        let mut res = *self;
        let mut start: usize = 0;
        let mut i: usize = 0;
        while i < b.len()
            invariant
                start <= i <= b@.len(),
                b@ == props.spec_bytes(),
                apply_props(res.val, b@, start as int, i as int) == apply_props(self.val, b@, 0, 0),
            decreases b@.len() - i,
        {
            if b[i] == PROP_SEP {
                res = res.apply(b, start, i);
                start = i + 1;
            }
            i = i + 1;
        }
        res.apply(b, start, i)
    }

    fn apply(self, b: &[u8], start: usize, end: usize) -> (r: PEDesc)
        requires
            start <= end <= b@.len(),
        ensures
            r.val == apply_prop(self.val, b@.subrange(start as int, end as int)),
    {
        let imem: Vec<u8> = vec![105, 109, 101, 109];
        let emem: Vec<u8> = vec![101, 109, 101, 109];
        let vm: Vec<u8> = vec![118, 109];
        let arm: Vec<u8> = vec![97, 114, 109];
        let x86: Vec<u8> = vec![120, 56, 54];
        let riscv: Vec<u8> = vec![114, 105, 115, 99, 118];
        let rocket: Vec<u8> = vec![114, 111, 99, 107, 101, 116];
        let boom: Vec<u8> = vec![98, 111, 111, 109];
        let nic: Vec<u8> = vec![110, 105, 99];
        let indir: Vec<u8> = vec![105, 110, 100, 105, 114];
        let copy: Vec<u8> = vec![99, 111, 112, 121];
        let rot13: Vec<u8> = vec![114, 111, 116, 49, 51];
        let idedev: Vec<u8> = vec![105, 100, 101, 100, 101, 118];
        let nicdev: Vec<u8> = vec![110, 105, 99, 100, 101, 118];
        proof {
            assert(imem@ =~= bytes_of(seq!['i', 'm', 'e', 'm']));
            assert(emem@ =~= bytes_of(seq!['e', 'm', 'e', 'm']));
            assert(vm@ =~= bytes_of(seq!['v', 'm']));
            assert(arm@ =~= bytes_of(seq!['a', 'r', 'm']));
            assert(x86@ =~= bytes_of(seq!['x', '8', '6']));
            assert(riscv@ =~= bytes_of(seq!['r', 'i', 's', 'c', 'v']));
            assert(rocket@ =~= bytes_of(seq!['r', 'o', 'c', 'k', 'e', 't']));
            assert(boom@ =~= bytes_of(seq!['b', 'o', 'o', 'm']));
            assert(nic@ =~= bytes_of(seq!['n', 'i', 'c']));
            assert(indir@ =~= bytes_of(seq!['i', 'n', 'd', 'i', 'r']));
            assert(copy@ =~= bytes_of(seq!['c', 'o', 'p', 'y']));
            assert(rot13@ =~= bytes_of(seq!['r', 'o', 't', '1', '3']));
            assert(idedev@ =~= bytes_of(seq!['i', 'd', 'e', 'd', 'e', 'v']));
            assert(nicdev@ =~= bytes_of(seq!['n', 'i', 'c', 'd', 'e', 'v']));
        }
        if token_is(b, start, end, &imem) {
            PEDesc::new(COMP_IMEM, self.isa(), 0)
        } else if token_is(b, start, end, &emem) || token_is(b, start, end, &vm) {
            PEDesc::new(COMP_EMEM, self.isa(), 0)
        } else if token_is(b, start, end, &arm) {
            PEDesc::new(self.pe_type(), ISA_ARM, 0)
        } else if token_is(b, start, end, &x86) {
            PEDesc::new(self.pe_type(), ISA_X86, 0)
        } else if token_is(b, start, end, &riscv) {
            PEDesc::new(self.pe_type(), ISA_RISCV, 0)
        } else if token_is(b, start, end, &rocket) {
            PEDesc::new_with_attr(self.pe_type(), self.isa(), 0, self.attr() | ATTR_ROCKET)
        } else if token_is(b, start, end, &boom) {
            PEDesc::new_with_attr(self.pe_type(), self.isa(), 0, self.attr() | ATTR_BOOM)
        } else if token_is(b, start, end, &nic) {
            PEDesc::new_with_attr(self.pe_type(), self.isa(), 0, self.attr() | ATTR_NIC)
        } else if token_is(b, start, end, &indir) {
            PEDesc::new(COMP_IMEM, ISA_ACCEL_INDIR, 0)
        } else if token_is(b, start, end, &copy) {
            PEDesc::new(COMP_IMEM, ISA_ACCEL_COPY, 0)
        } else if token_is(b, start, end, &rot13) {
            PEDesc::new(COMP_IMEM, ISA_ACCEL_ROT13, 0)
        } else if token_is(b, start, end, &idedev) {
            PEDesc::new(COMP_IMEM, ISA_IDE_DEV, 0)
        } else if token_is(b, start, end, &nicdev) {
            PEDesc::new(COMP_IMEM, ISA_NIC_DEV, 0)
        } else {
            self
        }
    }

    /// Whether the element's memory holds its receive buffers and stack.
    pub open spec fn has_layout(self) -> bool {
        type_of(self.val) == COMP_EMEM || self.spec_mem_size() >= SPM_RBUFS + STACK_SIZE
    }

    pub open spec fn spec_rbuf_base(self) -> usize {
        if type_of(self.val) == COMP_EMEM {
            RBUF_STD_ADDR
        } else {
            (MEM_OFFSET + self.spec_mem_size() - SPM_RBUFS) as usize
        }
    }

    /// The start of the receive buffers: a fixed address with virtual memory, else the end
    /// of the internal memory.
    fn rbuf_base(self) -> (r: usize)
        requires
            self.has_layout(),
        ensures
            r == self.spec_rbuf_base(),
    {
        if self.has_virtmem() {
            RBUF_STD_ADDR
        } else {
            MEM_OFFSET + self.mem_size() - SPM_RBUFS
        }
    }

    /// Returns address and size of the standard receive buffers.
    pub fn rbuf_std_space(self) -> (r: (usize, usize))
        requires
            self.has_layout(),
        ensures
            r == (self.spec_rbuf_base(), RBUF_STD_SIZE),
    {
        (self.rbuf_base(), RBUF_STD_SIZE)
    }

    /// Returns address and size of the other receive buffers, which follow the standard ones.
    pub fn rbuf_space(self) -> (r: (usize, usize))
        requires
            self.has_layout(),
        ensures
            r == ((self.spec_rbuf_base() + RBUF_STD_SIZE) as usize,
                if type_of(self.val) == COMP_EMEM { RBUF_SIZE } else { RBUF_SIZE_SPM }),
    {
        let size = if self.has_virtmem() { RBUF_SIZE } else { RBUF_SIZE_SPM };
        (self.rbuf_base() + RBUF_STD_SIZE, size)
    }

    /// Returns the highest address of the stack, right below the receive buffers.
    pub fn stack_top(self) -> (r: usize)
        requires
            self.has_layout(),
        ensures
            r == self.spec_rbuf_base(),
    {
        let (addr, size) = self.stack_space();
        addr + size
    }

    /// Returns address and size of the stack.
    pub fn stack_space(self) -> (r: (usize, usize))
        requires
            self.has_layout(),
        ensures
            r == ((self.spec_rbuf_base() - STACK_SIZE) as usize, STACK_SIZE),
    {
        (self.rbuf_base() - STACK_SIZE, STACK_SIZE)
    }
}

} // verus!
