//! The machine's state: the registers of a core, and the memories that the
//! cores and the screen share (RAM, the hard drive with one dirty flag per
//! megabyte, the CD drive).
use vstd::prelude::*;

verus! {

/// Bytes of RAM.
pub const RAM_SIZE: usize = 0x80_0000;
/// Bytes of the hard drive.
pub const DRIVE_SIZE: usize = 0x640_0000;
/// Bytes of one drive file, the unit of the dirty flags.
pub const DRIVE_CHUNK: usize = 0x10_0000;
/// Number of drive files (and dirty flags).
pub const DRIVE_FILES: usize = 100;
/// Bytes of the CD drive.
pub const CD_SIZE: usize = 0x100_0000;
/// Where a boot image is loaded, and where the first core starts.
pub const BOOT_ADDRESS: u64 = 0xFF;
/// Where the first core's stack starts.
pub const STACK_ADDRESS: u64 = 0x70_0000;

/// The registers of one core: `ax bx ay by` and the results `ar br cr dr`
/// are 32 bits wide, `cx dx cy dy` are 16 bits wide; `ptr` is the base of the
/// running code, `pc` the offset of the next instruction from it, and
/// `stck_ptr` the address of the next free stack word.
#[derive(PartialEq, Eq, Debug, Clone, Copy, Structural)]
pub struct Registers {
    pub ax: u32,
    pub bx: u32,
    pub cx: u16,
    pub dx: u16,
    pub ay: u32,
    pub by: u32,
    pub cy: u16,
    pub dy: u16,
    pub ar: u32,
    pub br: u32,
    pub cr: u32,
    pub dr: u32,
    pub ptr: u64,
    pub stck_ptr: u64,
    pub pc: u64,
}

/// The registers with every value zero.
pub open spec fn zero_registers() -> Registers {
    Registers {
        ax: 0,
        bx: 0,
        cx: 0,
        dx: 0,
        ay: 0,
        by: 0,
        cy: 0,
        dy: 0,
        ar: 0,
        br: 0,
        cr: 0,
        dr: 0,
        ptr: 0,
        stck_ptr: 0,
        pc: 0,
    }
}

impl Registers {
    /// All registers zero.
    pub fn new() -> (r: Registers)
        ensures
            r == zero_registers(),
    {
        Registers {
            ax: 0,
            bx: 0,
            cx: 0,
            dx: 0,
            ay: 0,
            by: 0,
            cy: 0,
            dy: 0,
            ar: 0,
            br: 0,
            cr: 0,
            dr: 0,
            ptr: 0,
            stck_ptr: 0,
            pc: 0,
        }
    }

    /// The registers of a core that starts running code at `ptr` with its
    /// stack at `stck_ptr`: zero, but for those two.
    pub fn starting_at(ptr: u64, stck_ptr: u64) -> (r: Registers)
        ensures
            r == (Registers { ptr, stck_ptr, ..zero_registers() }),
    {
        let mut r = Registers::new();
        r.ptr = ptr;
        r.stck_ptr = stck_ptr;
        r
    }
}

/// The memories that every core and the screen share.
pub struct Memory {
    pub ram: Vec<u8>,
    pub drive: Vec<u8>,
    pub drive_flags: Vec<bool>,
    pub cd: Vec<u8>,
}

/// The contents of the shared memories.
#[verifier::ext_equal]
pub struct MemoryState {
    pub ram: Seq<u8>,
    pub drive: Seq<u8>,
    pub flags: Seq<bool>,
    pub cd: Seq<u8>,
}

impl View for Memory {
    type V = MemoryState;

    open spec fn view(&self) -> MemoryState {
        MemoryState { ram: self.ram@, drive: self.drive@, flags: self.drive_flags@, cd: self.cd@ }
    }
}

/// Memories small enough that every address computation stays in range.
pub open spec fn memory_wf(m: MemoryState) -> bool {
    &&& m.ram.len() <= 0x100_0000_0000
    &&& m.drive.len() <= 0x100_0000_0000
    &&& m.cd.len() <= 0x100_0000_0000
}

/// Registers and memories on which a step keeps every address in range:
/// code base, offset and stack address are below 2^41.
pub open spec fn core_wf(r: Registers, m: MemoryState) -> bool {
    &&& memory_wf(m)
    &&& r.pc <= 0x200_0000_0000
    &&& r.ptr <= 0x200_0000_0000
    &&& r.stck_ptr <= 0x200_0000_0000
}

/// Zeroed memories of the machine's sizes.
pub open spec fn empty_memory() -> MemoryState {
    MemoryState {
        ram: Seq::new(RAM_SIZE as nat, |i: int| 0u8),
        drive: Seq::new(DRIVE_SIZE as nat, |i: int| 0u8),
        flags: Seq::new(DRIVE_FILES as nat, |i: int| false),
        cd: Seq::new(CD_SIZE as nat, |i: int| 0u8),
    }
}

impl Memory {
    /// Zeroed memories of the machine's sizes, no drive file dirty.
    pub fn new() -> (m: Memory)
        ensures
            m@ == empty_memory(),
    {
        let m = Memory {
            ram: vec![0u8; RAM_SIZE],
            drive: vec![0u8; DRIVE_SIZE],
            drive_flags: vec![false; DRIVE_FILES],
            cd: vec![0u8; CD_SIZE],
        };
        assert(m@.ram =~= empty_memory().ram);
        assert(m@.drive =~= empty_memory().drive);
        assert(m@.flags =~= empty_memory().flags);
        assert(m@.cd =~= empty_memory().cd);
        m
    }
}

/// `m` with `data` written from `addr` on; bytes that would fall past the end
/// are dropped.
pub open spec fn write_clipped(m: Seq<u8>, addr: int, data: Seq<u8>) -> Seq<u8> {
    Seq::new(m.len(), |i: int| if addr <= i < addr + data.len() { data[i - addr] } else { m[i] })
}

/// Writes `data` into `m` from `addr` on, byte by byte, stopping at the end of
/// `m`; tells whether every byte fitted.
pub fn write_bytes(m: &mut Vec<u8>, addr: u64, data: &[u8]) -> (fits: bool)
    requires
        addr <= 0x200_0000_0000,
        data@.len() <= 8,
    ensures
        final(m)@ == write_clipped(old(m)@, addr as int, data@),
        fits == (addr + data@.len() <= old(m)@.len()),
{
    let ghost orig = m@;
    let mut k: usize = 0;
    while k < data.len()
        invariant
            k <= data@.len(),
            data@.len() <= 8,
            addr <= 0x200_0000_0000,
            orig == old(m)@,
            m@.len() == orig.len(),
            k == 0 || addr + k <= orig.len(),
            m@ == write_clipped(orig, addr as int, data@.take(k as int)),
        decreases data@.len() - k,
    {
        if addr + (k as u64) >= m.len() as u64 {
            assert(write_clipped(orig, addr as int, data@.take(k as int)) =~= write_clipped(
                orig,
                addr as int,
                data@,
            ));
            return false;
        }
        m.set((addr + k as u64) as usize, data[k]);
        k = k + 1;
        assert(m@ =~= write_clipped(orig, addr as int, data@.take(k as int)));
    }
    assert(data@.take(k as int) =~= data@);
    if k == 0 {
        return addr <= m.len() as u64;
    }
    true
}

} // verus!
