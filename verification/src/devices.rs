//! What the machine does around its cores: loading the boot image, the CD
//! and the drive files into memory, passing the keyboard, mouse and window
//! size to programs through the first bytes of RAM, and clearing the drive's
//! dirty flags.
use vstd::prelude::*;
use crate::machine::{
    Memory, MemoryState, Registers, empty_memory, write_clipped, zero_registers, core_wf,
    RAM_SIZE, DRIVE_SIZE, DRIVE_CHUNK, DRIVE_FILES, CD_SIZE, BOOT_ADDRESS, STACK_ADDRESS,
};
use crate::cpu::code;

verus! {

/// Where a boot image starts in RAM (and where the first core starts).
pub const BOOT_OFFSET: usize = 0xFF;
/// Where the name stamped on the drive starts.
pub const DRIVE_NAME_OFFSET: usize = 0x7FFF;

/// The name stamped on the drive at every start: "Calculator" in ASCII.
pub open spec fn drive_name() -> Seq<u8> {
    seq![0x43u8, 0x61u8, 0x6cu8, 0x63u8, 0x75u8, 0x6cu8, 0x61u8, 0x74u8, 0x6fu8, 0x72u8]
}

/// Copies `data` into `m` from `at` on.
pub fn copy_into(m: &mut Vec<u8>, at: usize, data: &Vec<u8>)
    requires
        at + data@.len() <= old(m)@.len(),
    ensures
        final(m)@ == write_clipped(old(m)@, at as int, data@),
{
    let ghost orig = m@;
    let mut k: usize = 0;
    while k < data.len()
        invariant
            k <= data@.len(),
            at + data@.len() <= orig.len(),
            orig == old(m)@,
            m@.len() == orig.len(),
            m@ == write_clipped(orig, at as int, data@.take(k as int)),
        decreases data@.len() - k,
    {
        let n = m.len();
        assert(at + k < n);
        m.set(at + k, data[k]);
        k = k + 1;
        assert(m@ =~= write_clipped(orig, at as int, data@.take(k as int)));
    }
    assert(data@.take(k as int) =~= data@);
}

/// The contents of the drive files that were found, by file number.
pub open spec fn file_views(files: Seq<Option<Vec<u8>>>) -> Seq<Option<Seq<u8>>> {
    Seq::new(
        files.len(),
        |i: int|
            match files[i] {
                Some(f) => Some(f@),
                None => None,
            },
    )
}

/// The drive `d` after file `i` of `files` was copied to `i` megabytes, for
/// every file found, in order.
pub open spec fn loaded_drive(d: Seq<u8>, files: Seq<Option<Seq<u8>>>) -> Seq<u8>
    decreases files.len(),
{
    if files.len() == 0 {
        d
    } else {
        let before = loaded_drive(d, files.drop_last());
        match files.last() {
            Some(f) => write_clipped(before, (files.len() - 1) * DRIVE_CHUNK, f),
            None => before,
        }
    }
}

/// At most one file per drive file number, each fitting in the drive from
/// its start on.
pub open spec fn files_fit(files: Seq<Option<Seq<u8>>>) -> bool {
    &&& files.len() <= DRIVE_FILES
    &&& forall|i: int|
        0 <= i < files.len() ==> (#[trigger] files[i] matches Some(f) ==> i * DRIVE_CHUNK + f.len()
            <= DRIVE_SIZE)
}

/// The memories at start: the boot image in RAM from `0xFF` on, the CD image
/// at the start of the CD, the drive files in the drive, then the drive's
/// name; no drive file dirty.
pub open spec fn boot_state(program: Seq<u8>, cd: Seq<u8>, files: Seq<Option<Seq<u8>>>) -> MemoryState {
    let e = empty_memory();
    MemoryState {
        ram: write_clipped(e.ram, BOOT_OFFSET as int, program),
        drive: write_clipped(loaded_drive(e.drive, files), DRIVE_NAME_OFFSET as int, drive_name()),
        flags: e.flags,
        cd: write_clipped(e.cd, 0, cd),
    }
}

proof fn lemma_loaded_len(d: Seq<u8>, files: Seq<Option<Seq<u8>>>)
    ensures
        loaded_drive(d, files).len() == d.len(),
    decreases files.len(),
{
    if files.len() > 0 {
        lemma_loaded_len(d, files.drop_last());
    }
}

impl Memory {
    /// The memories at start, from the boot image, the CD image and the drive
    /// files found (by number).
    pub fn boot(program: &Vec<u8>, cd: &Vec<u8>, files: &Vec<Option<Vec<u8>>>) -> (m: Memory)
        requires
            BOOT_OFFSET + program@.len() <= RAM_SIZE,
            cd@.len() <= CD_SIZE,
            files_fit(file_views(files@)),
        ensures
            m@ == boot_state(program@, cd@, file_views(files@)),
    {
        let mut m = Memory::new();
        copy_into(&mut m.ram, BOOT_OFFSET, program);
        copy_into(&mut m.cd, 0, cd);
        let mut i: usize = 0;
        let ghost fv = file_views(files@);
        while i < files.len()
            invariant
                i <= files@.len(),
                fv == file_views(files@),
                files_fit(fv),
                m.ram@ == write_clipped(empty_memory().ram, BOOT_OFFSET as int, program@),
                m.cd@ == write_clipped(empty_memory().cd, 0, cd@),
                m.drive_flags@ == empty_memory().flags,
                m.drive@ == loaded_drive(empty_memory().drive, fv.take(i as int)),
            decreases files@.len() - i,
        {
            proof {
                lemma_loaded_len(empty_memory().drive, fv.take(i as int));
                assert(fv.take(i + 1).drop_last() =~= fv.take(i as int));
            }
            match &files[i] {
                Some(f) => {
                    assert(fv[i as int] == Some(f@));
                    copy_into(&mut m.drive, i * DRIVE_CHUNK, f);
                },
                None => {},
            }
            i = i + 1;
        }
        assert(fv.take(i as int) =~= fv);
        proof {
            lemma_loaded_len(empty_memory().drive, fv);
        }
        let name: Vec<u8> = vec![0x43, 0x61, 0x6c, 0x63, 0x75, 0x6c, 0x61, 0x74, 0x6f, 0x72];
        assert(name@ =~= drive_name());
        copy_into(&mut m.drive, DRIVE_NAME_OFFSET, &name);
        m
    }
}


/// The key code that a frame passes to programs: a typed character (its
/// code point cut to 8 bits), else the first of the arrow keys up, down,
/// left, right and the left and right mouse buttons that went down (codes
/// `0x80` to `0x85`), else none.
pub open spec fn key_code_of(
    typed: Option<char>,
    up: bool,
    down: bool,
    left: bool,
    right: bool,
    mouse_left: bool,
    mouse_right: bool,
) -> Option<u8> {
    match typed {
        Some(c) => Some((c as u32) as u8),
        None => if up {
            Some(0x80u8)
        } else if down {
            Some(0x81u8)
        } else if left {
            Some(0x82u8)
        } else if right {
            Some(0x83u8)
        } else if mouse_left {
            Some(0x84u8)
        } else if mouse_right {
            Some(0x85u8)
        } else {
            None
        },
    }
}

/// See `key_code_of`.
pub fn key_code(
    typed: Option<char>,
    up: bool,
    down: bool,
    left: bool,
    right: bool,
    mouse_left: bool,
    mouse_right: bool,
) -> (k: Option<u8>)
    ensures
        k == key_code_of(typed, up, down, left, right, mouse_left, mouse_right),
{
    match typed {
        Some(c) => Some((c as u32) as u8),
        None => if up {
            Some(0x80)
        } else if down {
            Some(0x81)
        } else if left {
            Some(0x82)
        } else if right {
            Some(0x83)
        } else if mouse_left {
            Some(0x84)
        } else if mouse_right {
            Some(0x85)
        } else {
            None
        },
    }
}

/// RAM after a frame's input: the window width at 2-3, the height at 4-5, the
/// key code (if any; else the old byte stays) at 6, the mouse position at 7-8
/// and 9-10, all big-endian.
pub open spec fn input_ram(ram: Seq<u8>, width: u16, height: u16, key: Option<u8>, mouse_x: u16, mouse_y: u16) -> Seq<u8> {
    let k = match key {
        Some(k) => k,
        None => ram[6],
    };
    ram.update(2, (width >> 8u16) as u8).update(3, width as u8).update(4, (height >> 8u16) as u8).update(
        5,
        height as u8,
    ).update(6, k).update(7, (mouse_x >> 8u16) as u8).update(8, mouse_x as u8).update(
        9,
        (mouse_y >> 8u16) as u8,
    ).update(10, mouse_y as u8)
}

/// Passes a frame's window size, key and mouse position to programs.
pub fn write_input(mem: &mut Memory, width: u16, height: u16, key: Option<u8>, mouse_x: u16, mouse_y: u16)
    requires
        old(mem)@.ram.len() > 10,
    ensures
        final(mem)@ == (MemoryState {
            ram: input_ram(old(mem)@.ram, width, height, key, mouse_x, mouse_y),
            ..old(mem)@
        }),
{
    mem.ram.set(2, (width >> 8) as u8);
    mem.ram.set(3, width as u8);
    mem.ram.set(4, (height >> 8) as u8);
    mem.ram.set(5, height as u8);
    match key {
        Some(k) => mem.ram.set(6, k),
        None => {},
    }
    mem.ram.set(7, (mouse_x >> 8) as u8);
    mem.ram.set(8, mouse_x as u8);
    mem.ram.set(9, (mouse_y >> 8) as u8);
    mem.ram.set(10, mouse_y as u8);
    assert(mem@.ram =~= input_ram(old(mem)@.ram, width, height, key, mouse_x, mouse_y));
}

/// Whether a program has halted the machine: RAM byte 0 is 1.
pub fn halted(mem: &Memory) -> (h: bool)
    ensures
        h == (mem@.ram.len() > 0 && mem@.ram[0] == 1),
{
    mem.ram.len() > 0 && mem.ram[0] == 1
}

/// The numbers of the flags of `flags` that are set, in increasing order.
pub open spec fn set_flags(flags: Seq<bool>) -> Seq<usize>
    decreases flags.len(),
{
    if flags.len() == 0 {
        Seq::empty()
    } else if flags.last() {
        set_flags(flags.drop_last()).push((flags.len() - 1) as usize)
    } else {
        set_flags(flags.drop_last())
    }
}

/// Clears every dirty flag of the drive and gives the numbers of the drive
/// files that were dirty, in increasing order.
pub fn take_dirty_files(mem: &mut Memory) -> (dirty: Vec<usize>)
    ensures
        dirty@ == set_flags(old(mem)@.flags),
        final(mem)@ == (MemoryState {
            flags: Seq::new(old(mem)@.flags.len(), |i: int| false),
            ..old(mem)@
        }),
{
    let ghost orig = mem.drive_flags@;
    let mut dirty: Vec<usize> = Vec::new();
    let mut f: usize = 0;
    while f < mem.drive_flags.len()
        invariant
            f <= orig.len(),
            mem.drive_flags@.len() == orig.len(),
            mem.ram@ == old(mem)@.ram,
            mem.drive@ == old(mem)@.drive,
            mem.cd@ == old(mem)@.cd,
            orig == old(mem)@.flags,
            forall|i: int| 0 <= i < f ==> !#[trigger] mem.drive_flags@[i],
            forall|i: int| f <= i < orig.len() ==> #[trigger] mem.drive_flags@[i] == orig[i],
            dirty@ == set_flags(orig.take(f as int)),
        decreases orig.len() - f,
    {
        assert(orig.take(f + 1).drop_last() =~= orig.take(f as int));
        if mem.drive_flags[f] {
            mem.drive_flags.set(f, false);
            dirty.push(f);
        }
        f = f + 1;
    }
    assert(orig.take(f as int) =~= orig);
    assert(mem.drive_flags@ =~= Seq::new(orig.len(), |i: int| false));
    dirty
}


/// A booted machine is ready to run: the first core, started at the boot
/// address with its stack at the stack address, is well formed, and the code
/// it runs is the boot image, byte for byte.
pub proof fn law_boot_runs_image(program: Seq<u8>, cd: Seq<u8>, files: Seq<Option<Seq<u8>>>, k: int)
    requires
        BOOT_OFFSET + program.len() <= RAM_SIZE,
        0 <= k < program.len(),
    ensures
        core_wf(
            Registers { ptr: BOOT_ADDRESS, stck_ptr: STACK_ADDRESS, ..zero_registers() },
            boot_state(program, cd, files),
        ),
        code(
            Registers { ptr: BOOT_ADDRESS, stck_ptr: STACK_ADDRESS, ..zero_registers() },
            boot_state(program, cd, files),
            k,
        ) == Some(program[k]),
{
    lemma_loaded_len(empty_memory().drive, files);
}


/// Taking the dirty files undoes the marks: right after it, no flag is set,
/// so taking them again gives no file.
pub proof fn law_taken_flags_are_clear(n: nat)
    ensures
        set_flags(Seq::new(n, |i: int| false)) == Seq::<usize>::empty(),
    decreases n,
{
    if n > 0 {
        let s = Seq::new(n, |i: int| false);
        assert(s.drop_last() =~= Seq::new((n - 1) as nat, |i: int| false));
        law_taken_flags_are_clear((n - 1) as nat);
    }
}


/// The input bytes hold the window size, key and mouse position as
/// big-endian 16-bit numbers: width at 2-3, height at 4-5, the key code at 6
/// (kept when there is none), mouse x at 7-8 and y at 9-10; every other RAM
/// byte is kept.
pub proof fn law_input_bytes(ram: Seq<u8>, width: u16, height: u16, key: Option<u8>, mouse_x: u16, mouse_y: u16)
    requires
        ram.len() > 10,
    ensures
        ({
            let s = input_ram(ram, width, height, key, mouse_x, mouse_y);
            &&& s.len() == ram.len()
            &&& s[2] * 0x100 + s[3] == width
            &&& s[4] * 0x100 + s[5] == height
            &&& s[6] == match key {
                Some(k) => k,
                None => ram[6],
            }
            &&& s[7] * 0x100 + s[8] == mouse_x
            &&& s[9] * 0x100 + s[10] == mouse_y
            &&& forall|i: int| 0 <= i < ram.len() && !(2 <= i <= 10) ==> #[trigger] s[i] == ram[i]
        }),
{
    assert(((width >> 8u16) as u8) * 0x100 + (width as u8) == width) by (bit_vector);
    assert(((height >> 8u16) as u8) * 0x100 + (height as u8) == height) by (bit_vector);
    assert(((mouse_x >> 8u16) as u8) * 0x100 + (mouse_x as u8) == mouse_x) by (bit_vector);
    assert(((mouse_y >> 8u16) as u8) * 0x100 + (mouse_y as u8) == mouse_y) by (bit_vector);
}


/// The key codes: a typed character gives its code point cut to 8 bits
/// whatever else is pressed; without one, the arrow keys up, down, left,
/// right give 0x80, 0x81, 0x82, 0x83 and the left and right mouse buttons
/// 0x84 and 0x85, the first of them in that order winning; nothing pressed
/// gives no code.
pub proof fn law_key_codes(
    typed: Option<char>,
    up: bool,
    down: bool,
    left: bool,
    right: bool,
    mouse_left: bool,
    mouse_right: bool,
)
    ensures
        ({
            let k = key_code_of(typed, up, down, left, right, mouse_left, mouse_right);
            &&& typed matches Some(c) ==> k == Some(((c as u32) % 0x100) as u8)
            &&& typed is None && up ==> k == Some(0x80u8)
            &&& typed is None && !up && down ==> k == Some(0x81u8)
            &&& typed is None && !up && !down && left ==> k == Some(0x82u8)
            &&& typed is None && !up && !down && !left && right ==> k == Some(0x83u8)
            &&& typed is None && !up && !down && !left && !right && mouse_left ==> k == Some(0x84u8)
            &&& typed is None && !up && !down && !left && !right && !mouse_left && mouse_right ==> k
                == Some(0x85u8)
            &&& typed is None && !up && !down && !left && !right && !mouse_left && !mouse_right ==> k
                is None
        }),
{
    if let Some(c) = typed {
        let v = c as u32;
        assert((v as u8) == ((v % 0x100) as u8)) by (bit_vector);
    }
}

} // verus!
