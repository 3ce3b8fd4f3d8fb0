use vstd::prelude::*;
use crate::memory::{GuestMemory, MemoryError, in_bounds, written};

verus! {

/// Program header type of a loadable segment.
pub const PT_LOAD: u32 = 1;

/// The fields of an ELF program header that loading reads.
#[derive(Debug, Clone, Copy, PartialEq, Eq, Structural)]
pub struct ProgramHeader {
    pub p_type: u32,
    pub p_offset: u64,
    pub p_filesz: u64,
    pub p_memsz: u64,
    pub p_paddr: u64,
}

/// What loading needs of a parsed ELF file.
pub struct ElfImage {
    /// The file is an ELF64 file.
    pub is_64: bool,
    /// Entry point address (`e_entry`).
    pub entry: u64,
    /// Program headers, in file order.
    pub program_headers: Vec<ProgramHeader>,
}

/// Errors of ELF loading.
#[derive(Debug, Clone, Copy, PartialEq, Eq, Structural)]
pub enum ElfError {
    /// The bytes are not an ELF file that the parser accepts.
    Parse,
    /// The file is not an ELF64 file.
    Not64Bit,
    /// A loadable segment reaches past the end of the file.
    SegmentOutOfFile,
    /// Copying a segment into guest memory failed.
    Memory(MemoryError),
}

/// What `goblin::elf::Elf::parse` makes of `bytes`: `None` when it fails,
/// else whether the file is 64-bit, its entry point and its program headers.
pub uninterp spec fn goblin_elf_parse(bytes: Seq<u8>) -> Option<(bool, u64, Seq<ProgramHeader>)>;

/// Calls `goblin::elf::Elf::parse` and keeps `is_64`, `entry` and the
/// program headers' type, offset, file size, memory size and physical
/// address. Its result is named by `goblin_elf_parse`; nothing more is
/// stated of the parser.
#[verifier::external_body]
fn parse_elf(bytes: &[u8]) -> (image: Option<ElfImage>)
    ensures
        match image {
            Some(img) => goblin_elf_parse(bytes@) == Some((img.is_64, img.entry, img.program_headers@)),
            None => goblin_elf_parse(bytes@) is None,
        },
{
    match goblin::elf::Elf::parse(bytes) {
        Ok(elf) => Some(ElfImage {
            is_64: elf.is_64,
            entry: elf.entry,
            program_headers: elf.program_headers.iter().map(|ph| ProgramHeader {
                p_type: ph.p_type,
                p_offset: ph.p_offset,
                p_filesz: ph.p_filesz,
                p_memsz: ph.p_memsz,
                p_paddr: ph.p_paddr,
            }).collect(),
        }),
        Err(_) => None,
    }
}

/// Guest memory and outcome after loading one program header into `mem`:
/// a `PT_LOAD` segment's file bytes are copied to its physical address and
/// the rest of its memory size is zeroed; other headers are skipped.
pub open spec fn load_segment(mem: Seq<u8>, file: Seq<u8>, ph: ProgramHeader) -> (Seq<u8>, Result<(), ElfError>) {
    if ph.p_type != PT_LOAD {
        (mem, Ok(()))
    } else if ph.p_offset + ph.p_filesz > file.len() {
        (mem, Err(ElfError::SegmentOutOfFile))
    } else if !in_bounds(mem.len() as int, ph.p_paddr as int, ph.p_filesz as int) {
        (mem, Err(ElfError::Memory(MemoryError::WriteOutOfBounds)))
    } else {
        let m1 = written(mem, ph.p_paddr as int,
            file.subrange(ph.p_offset as int, ph.p_offset + ph.p_filesz));
        if ph.p_memsz <= ph.p_filesz {
            (m1, Ok(()))
        } else if !in_bounds(m1.len() as int, ph.p_paddr + ph.p_filesz, ph.p_memsz - ph.p_filesz) {
            (m1, Err(ElfError::Memory(MemoryError::WriteOutOfBounds)))
        } else {
            (written(m1, ph.p_paddr + ph.p_filesz,
                Seq::new((ph.p_memsz - ph.p_filesz) as nat, |i: int| 0u8)), Ok(()))
        }
    }
}

/// Guest memory and outcome after loading the first `n` program headers in
/// order, stopping at the first failure.
pub open spec fn load_segments(mem: Seq<u8>, file: Seq<u8>, phs: Seq<ProgramHeader>, n: nat) -> (Seq<u8>, Result<(), ElfError>)
    decreases n,
{
    if n == 0 {
        (mem, Ok(()))
    } else {
        let (m, r) = load_segments(mem, file, phs, (n - 1) as nat);
        if r is Err {
            (m, r)
        } else {
            load_segment(m, file, phs[n - 1])
        }
    }
}

/// Once loading has failed, loading further headers changes nothing.
proof fn lemma_load_segments_stops(mem: Seq<u8>, file: Seq<u8>, phs: Seq<ProgramHeader>, k: nat, k2: nat)
    requires
        k <= k2,
        load_segments(mem, file, phs, k).1 is Err,
    ensures
        load_segments(mem, file, phs, k2) == load_segments(mem, file, phs, k),
    decreases k2 - k,
{
    if k2 > k {
        lemma_load_segments_stops(mem, file, phs, k, (k2 - 1) as nat);
    }
}

/// Loads the `PT_LOAD` segments of a parsed ELF file into guest memory and
/// returns the entry point. Fails on a 32-bit file, a segment that reaches
/// past the end of `elf_bytes`, or a segment that does not fit in guest
/// memory; segments before the failing one stay loaded.
pub fn load_elf_image(image: &ElfImage, elf_bytes: &[u8], guest_memory: &mut GuestMemory) -> (r: Result<u64, ElfError>)
    requires
        old(guest_memory).wf(),
    ensures
        final(guest_memory).wf(),
        final(guest_memory).spec_gpa() == old(guest_memory).spec_gpa(),
        !image.is_64 ==> r == Err::<u64, ElfError>(ElfError::Not64Bit) && final(guest_memory)@ == old(guest_memory)@,
        image.is_64 ==> ({
            let (m, res) = load_segments(old(guest_memory)@, elf_bytes@, image.program_headers@,
                image.program_headers@.len());
            &&& final(guest_memory)@ == m
            &&& res is Ok ==> r == Ok::<u64, ElfError>(image.entry)
            &&& res matches Err(e) ==> r == Err::<u64, ElfError>(e)
        }),
{
    if !image.is_64 {
        return Err(ElfError::Not64Bit);
    }
    let ghost old_mem = guest_memory@;
    let ghost phs = image.program_headers@;
    let byte_len = elf_bytes.len();
    let file_len = byte_len as u64;
    let n = image.program_headers.len();
    let mut i: usize = 0;
    while i < n
        invariant
            guest_memory.wf(),
            guest_memory.spec_gpa() == old(guest_memory).spec_gpa(),
            n == phs.len(),
            phs == image.program_headers@,
            old_mem == old(guest_memory)@,
            file_len == elf_bytes@.len(),
            file_len == byte_len,
            image.is_64,
            i <= n,
            load_segments(old_mem, elf_bytes@, phs, i as nat) == (guest_memory@, Ok::<(), ElfError>(())),
        decreases n - i,
    {
        let ph = image.program_headers[i];
        let ghost before = guest_memory@;
        assert(load_segments(old_mem, elf_bytes@, phs, (i + 1) as nat) == load_segment(before, elf_bytes@, ph));
        if ph.p_type == PT_LOAD {
            if ph.p_offset > file_len || ph.p_filesz > file_len - ph.p_offset {
                proof { lemma_load_segments_stops(old_mem, elf_bytes@, phs, (i + 1) as nat, n as nat); }
                return Err(ElfError::SegmentOutOfFile);
            }
            let start = ph.p_offset as usize;
            let end = start + ph.p_filesz as usize;
            let segment = &elf_bytes[start..end];
            assert(segment@ == elf_bytes@.subrange(ph.p_offset as int, ph.p_offset + ph.p_filesz));
            match guest_memory.write_bytes(ph.p_paddr, segment) {
                Ok(()) => {},
                Err(e) => {
                    proof { lemma_load_segments_stops(old_mem, elf_bytes@, phs, (i + 1) as nat, n as nat); }
                return Err(ElfError::Memory(e));
                },
            }
            if ph.p_memsz > ph.p_filesz {
                // The size bounds the end of the copied bytes, so the sum below fits.
                let _size = guest_memory.size();
                match guest_memory.zero_fill(ph.p_paddr + ph.p_filesz, ph.p_memsz - ph.p_filesz) {
                    Ok(()) => {},
                    Err(e) => {
                        proof { lemma_load_segments_stops(old_mem, elf_bytes@, phs, (i + 1) as nat, n as nat); }
                return Err(ElfError::Memory(e));
                    },
                }
            }
        }
        i += 1;
    }
    Ok(image.entry)
}

/// Parses `elf_bytes` as an ELF64 binary and loads its `PT_LOAD` segments
/// into guest memory, returning the entry point (`e_entry`).
pub fn load_elf(elf_bytes: &[u8], guest_memory: &mut GuestMemory) -> (r: Result<u64, ElfError>)
    requires
        old(guest_memory).wf(),
    ensures
        final(guest_memory).wf(),
        final(guest_memory).spec_gpa() == old(guest_memory).spec_gpa(),
        goblin_elf_parse(elf_bytes@) is None ==> r == Err::<u64, ElfError>(ElfError::Parse)
            && final(guest_memory)@ == old(guest_memory)@,
        goblin_elf_parse(elf_bytes@) matches Some((is_64, entry, phs)) ==> {
            &&& !is_64 ==> r == Err::<u64, ElfError>(ElfError::Not64Bit) && final(guest_memory)@ == old(guest_memory)@
            &&& is_64 ==> ({
                let (m, res) = load_segments(old(guest_memory)@, elf_bytes@, phs, phs.len());
                &&& final(guest_memory)@ == m
                &&& res is Ok ==> r == Ok::<u64, ElfError>(entry)
                &&& res matches Err(e) ==> r == Err::<u64, ElfError>(e)
            })
        },
{
    match parse_elf(elf_bytes) {
        Some(image) => load_elf_image(&image, elf_bytes, guest_memory),
        None => Err(ElfError::Parse),
    }
}

/// End of the guest memory a loadable segment occupies: its file bytes and
/// its zero-filled rest.
pub open spec fn segment_end(ph: ProgramHeader) -> int {
    if ph.p_memsz <= ph.p_filesz { ph.p_paddr + ph.p_filesz } else { ph.p_paddr + ph.p_memsz }
}

/// The guest memory ranges of two segments do not meet.
pub open spec fn segments_apart(a: ProgramHeader, b: ProgramHeader) -> bool {
    segment_end(a) <= b.p_paddr || segment_end(b) <= a.p_paddr
}

/// `mem` holds segment `ph` of `file`: the `p_filesz` bytes at `p_paddr` are
/// the file's bytes from `p_offset` on, and the bytes from there up to
/// `p_memsz` are zero.
pub open spec fn holds_segment(mem: Seq<u8>, file: Seq<u8>, ph: ProgramHeader) -> bool {
    &&& segment_end(ph) <= mem.len()
    &&& ph.p_offset + ph.p_filesz <= file.len()
    &&& forall|i: int| 0 <= i < ph.p_filesz ==> #[trigger] mem[ph.p_paddr + i] == file[ph.p_offset + i]
    &&& forall|i: int| ph.p_filesz <= i < ph.p_memsz ==> #[trigger] mem[ph.p_paddr + i] == 0u8
}

/// Loading one header keeps the memory's length; a successful load of a
/// `PT_LOAD` segment leaves memory holding the segment and every byte outside
/// it as it was, and any other header changes nothing.
proof fn lemma_load_segment(mem: Seq<u8>, file: Seq<u8>, ph: ProgramHeader)
    ensures
        load_segment(mem, file, ph).0.len() == mem.len(),
        load_segment(mem, file, ph).1 is Ok && ph.p_type == PT_LOAD ==> {
            &&& holds_segment(load_segment(mem, file, ph).0, file, ph)
            &&& forall|k: int| 0 <= k < mem.len() && !(ph.p_paddr <= k < segment_end(ph))
                ==> #[trigger] load_segment(mem, file, ph).0[k] == mem[k]
        },
        ph.p_type != PT_LOAD ==> load_segment(mem, file, ph).0 == mem,
{
    if ph.p_type == PT_LOAD && load_segment(mem, file, ph).1 is Ok {
        let m = load_segment(mem, file, ph).0;
        let data = file.subrange(ph.p_offset as int, ph.p_offset + ph.p_filesz);
        let m1 = written(mem, ph.p_paddr as int, data);
        assert forall|i: int| 0 <= i < ph.p_filesz implies #[trigger] m[ph.p_paddr + i] == file[ph.p_offset + i] by {
            assert(m1[ph.p_paddr + i] == data[i]);
        }
    }
}

/// After all program headers load successfully, guest memory holds every
/// `PT_LOAD` segment (file bytes, then zeros up to its memory size, also when
/// it has no file bytes at all), provided no later segment overlaps it.
pub proof fn loaded_segments_hold_their_bytes(mem: Seq<u8>, file: Seq<u8>, phs: Seq<ProgramHeader>, n: nat, k: int)
    requires
        n <= phs.len(),
        load_segments(mem, file, phs, n).1 is Ok,
        0 <= k < n,
        phs[k].p_type == PT_LOAD,
        forall|j: int| k < j < n && phs[j].p_type == PT_LOAD ==> segments_apart(phs[k], #[trigger] phs[j]),
    ensures
        holds_segment(load_segments(mem, file, phs, n).0, file, phs[k]),
    decreases n,
{
    let prev = load_segments(mem, file, phs, (n - 1) as nat);
    if prev.1 is Err {
        assert(load_segments(mem, file, phs, n) == prev);
    }
    lemma_load_segment(prev.0, file, phs[n - 1]);
    if k < n - 1 {
        loaded_segments_hold_their_bytes(mem, file, phs, (n - 1) as nat, k);
        let ph = phs[k];
        let m = load_segments(mem, file, phs, n).0;
        assert forall|i: int| 0 <= i < ph.p_filesz implies #[trigger] m[ph.p_paddr + i] == file[ph.p_offset + i] by {
            assert(prev.0[ph.p_paddr + i] == file[ph.p_offset + i]);
        }
        assert forall|i: int| ph.p_filesz <= i < ph.p_memsz implies #[trigger] m[ph.p_paddr + i] == 0u8 by {
            assert(prev.0[ph.p_paddr + i] == 0u8);
        }
    }
}

} // verus!
