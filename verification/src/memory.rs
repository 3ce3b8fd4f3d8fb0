use vstd::prelude::*;
use vstd::bytes::{spec_u64_to_le_bytes, u64_to_le_bytes, spec_u64_from_le_bytes, lemma_auto_spec_u64_to_from_le_bytes};

verus! {

/// `len` bytes starting at `offset` lie inside a memory of `mem_len` bytes.
pub open spec fn in_bounds(mem_len: int, offset: int, len: int) -> bool {
    0 <= offset && 0 <= len && offset + len <= mem_len
}

/// `mem` with `data` written at `offset`.
pub open spec fn written(mem: Seq<u8>, offset: int, data: Seq<u8>) -> Seq<u8> {
    mem.subrange(0, offset) + data + mem.subrange(offset + data.len(), mem.len() as int)
}

/// The `len` bytes of `mem` at `offset`.
pub open spec fn bytes_at(mem: Seq<u8>, offset: int, len: int) -> Seq<u8> {
    mem.subrange(offset, offset + len)
}

/// Errors of guest memory accesses.
#[derive(Debug, Clone, Copy, PartialEq, Eq, Structural)]
pub enum MemoryError {
    /// A read reaches past the end of guest memory.
    ReadOutOfBounds,
    /// A write reaches past the end of guest memory.
    WriteOutOfBounds,
    /// The host buffer cannot hold the requested guest memory.
    HostBufferTooSmall,
}

/// Errors of page table construction.
#[derive(Debug, Clone, Copy, PartialEq, Eq, Structural)]
pub enum PagingError {
    /// Guest memory does not reach past the last paging table.
    MemoryTooSmall,
    /// The physical address of a paging table does not fit in 64 bits.
    AddressOverflow,
}

/// Guest physical memory: `size` bytes of a host buffer, starting at
/// `host_offset` (so that the region can be page aligned on the host), seen
/// by the guest at physical address `gpa`. Offsets passed to the accessors
/// are relative to the start of guest memory.
pub struct GuestMemory {
    host: Vec<u8>,
    host_offset: usize,
    gpa: u64,
    size: u64,
}

impl View for GuestMemory {
    type V = Seq<u8>;

    closed spec fn view(&self) -> Seq<u8> {
        self.host@.subrange(self.host_offset as int, self.host_offset + self.size)
    }
}

/// Offset in guest memory of the PML4 table built by `setup_identity_paging`.
pub const PML4_OFFSET: u64 = 0x10000;
/// Offset in guest memory of the page directory pointer table.
pub const PDPT_OFFSET: u64 = 0x11000;
/// Offset in guest memory of the page directory.
pub const PD_OFFSET: u64 = 0x12000;
/// Offset in guest memory of the page table mapping the first 2 MiB.
pub const PT_OFFSET: u64 = 0x13000;
/// Number of entries in one paging table.
pub const PT_ENTRIES: u64 = 512;
/// Bytes of one paging table.
pub const TABLE_SIZE: u64 = 0x1000;

/// Entry pointing at the paging table at `offset` of guest memory that
/// starts at physical address `base`: present and writable.
pub open spec fn table_entry(base: u64, offset: u64) -> u64 {
    ((base + offset) as u64) | 3
}

/// Page table entry `i` of the identity map: page `i`, present and writable.
pub open spec fn pt_entry(i: int) -> u64 {
    ((i * 0x1000) as u64) | 3
}

/// Byte `k` of guest memory at physical address `base` after the paging
/// tables have been written over `old`, with the first `n` page table
/// entries in place.
pub open spec fn paging_byte(old: Seq<u8>, base: u64, n: int, k: int) -> u8 {
    if PML4_OFFSET <= k < PML4_OFFSET + 8 {
        spec_u64_to_le_bytes(table_entry(base, PDPT_OFFSET))[k - PML4_OFFSET]
    } else if PDPT_OFFSET <= k < PDPT_OFFSET + 8 {
        spec_u64_to_le_bytes(table_entry(base, PD_OFFSET))[k - PDPT_OFFSET]
    } else if PD_OFFSET <= k < PD_OFFSET + 8 {
        spec_u64_to_le_bytes(table_entry(base, PT_OFFSET))[k - PD_OFFSET]
    } else if PT_OFFSET <= k < PT_OFFSET + 8 * n {
        spec_u64_to_le_bytes(pt_entry((k - PT_OFFSET) / 8))[(k - PT_OFFSET) % 8]
    } else {
        old[k]
    }
}

/// Guest memory at physical address `base` after identity paging of the
/// first 2 MiB has been set up over `old`.
pub open spec fn identity_paged(old: Seq<u8>, base: u64, n: int) -> Seq<u8> {
    Seq::new(old.len(), |k: int| paging_byte(old, base, n, k))
}

/// The little-endian `u64` stored at `offset` of `mem`.
pub open spec fn u64_at(mem: Seq<u8>, offset: int) -> u64 {
    spec_u64_from_le_bytes(bytes_at(mem, offset, 8))
}

/// Bits of a paging entry (or of CR3) that hold the physical address of a
/// 4 KiB frame.
pub const FRAME_MASK: u64 = 0x000f_ffff_ffff_f000;

/// The frame a paging entry points at.
pub open spec fn frame(entry: u64) -> u64 {
    entry & FRAME_MASK
}

/// Entry `index` of the paging table at physical address `table`, read from
/// guest memory `mem` that starts at physical address `base`; `None` when
/// the entry lies outside guest memory or is not present.
pub open spec fn walk_entry(mem: Seq<u8>, base: u64, table: u64, index: u64) -> Option<u64> {
    let offset = table - base + 8 * index;
    if base <= table && in_bounds(mem.len() as int, offset, 8) && u64_at(mem, offset) & 1 == 1 {
        Some(u64_at(mem, offset))
    } else {
        None
    }
}

/// The physical address that virtual address `va` translates to through the
/// 4-level paging tables rooted at `cr3`, with 4 KiB pages, in guest memory
/// `mem` at physical address `base`; `None` where the walk meets an entry
/// that is not present or lies outside guest memory.
pub open spec fn translate(mem: Seq<u8>, base: u64, cr3: u64, va: u64) -> Option<u64> {
    match walk_entry(mem, base, frame(cr3), (va >> 39u64) & 0x1ff) {
        None => None,
        Some(pml4e) => match walk_entry(mem, base, frame(pml4e), (va >> 30u64) & 0x1ff) {
            None => None,
            Some(pdpte) => match walk_entry(mem, base, frame(pdpte), (va >> 21u64) & 0x1ff) {
                None => None,
                Some(pde) => match walk_entry(mem, base, frame(pde), (va >> 12u64) & 0x1ff) {
                    None => None,
                    Some(pte) => Some(frame(pte) | (va & 0xfff)),
                },
            },
        },
    }
}

impl GuestMemory {
    pub closed spec fn wf(&self) -> bool {
        self.host_offset + self.size <= self.host@.len()
    }

    /// Guest memory of `size` bytes at guest physical address `gpa`, held in
    /// `host` from `host_offset` on.
    pub fn new(gpa: u64, size: u64, host: Vec<u8>, host_offset: usize) -> (r: Result<Self, MemoryError>)
        ensures
            r is Ok <==> host_offset + size <= host@.len(),
            r matches Ok(mem) ==> mem.wf() && mem@ == host@.subrange(host_offset as int, host_offset + size)
                && mem.spec_gpa() == gpa && mem@.len() == size,
            r matches Err(e) ==> e == MemoryError::HostBufferTooSmall,
    {
        let len = host.len();
        if host_offset > len || size > (len - host_offset) as u64 {
            return Err(MemoryError::HostBufferTooSmall);
        }
        Ok(GuestMemory { host, host_offset, gpa, size })
    }

    pub closed spec fn spec_gpa(&self) -> u64 {
        self.gpa
    }

    /// Guest physical address of the first byte.
    pub fn gpa(&self) -> (gpa: u64)
        ensures
            gpa == self.spec_gpa(),
    {
        self.gpa
    }

    /// Size of guest memory in bytes.
    pub fn size(&self) -> (size: u64)
        requires
            self.wf(),
        ensures
            size == self@.len(),
    {
        self.size
    }

    /// Copies the bytes at `offset` into `buf`; fails, leaving `buf` as it
    /// was, when they reach past the end of guest memory.
    pub fn read_bytes(&self, offset: u64, buf: &mut [u8]) -> (r: Result<(), MemoryError>)
        requires
            self.wf(),
        ensures
            r is Ok <==> in_bounds(self@.len() as int, offset as int, old(buf)@.len() as int),
            r is Ok ==> final(buf)@ == bytes_at(self@, offset as int, old(buf)@.len() as int),
            r matches Err(e) ==> e == MemoryError::ReadOutOfBounds && final(buf)@ == old(buf)@,
    {
        let len = buf.len();
        if offset > self.size || len as u64 > self.size - offset {
            return Err(MemoryError::ReadOutOfBounds);
        }
        let host_len = self.host.len();
        assert(self.host_offset + offset + len <= host_len);
        let start = self.host_offset + offset as usize;
        let ghost mem = self@;
        let mut i: usize = 0;
        while i < len
            invariant
                self.wf(),
                mem == self@,
                len == buf@.len(),
                start == self.host_offset + offset,
                offset + len <= self.size,
                start + len <= host_len,
                self.host@.len() == host_len,
                i <= len,
                forall|j: int| 0 <= j < i ==> buf@[j] == mem[offset + j],
            decreases len - i,
        {
            buf[i] = self.host[start + i];
            i += 1;
        }
        assert(buf@ =~= bytes_at(mem, offset as int, len as int));
        Ok(())
    }

    /// Copies `data` into guest memory at `offset`; fails, changing nothing,
    /// when it would reach past the end of guest memory.
    pub fn write_bytes(&mut self, offset: u64, data: &[u8]) -> (r: Result<(), MemoryError>)
        requires
            old(self).wf(),
        ensures
            final(self).wf(),
            final(self).spec_gpa() == old(self).spec_gpa(),
            final(self)@.len() == old(self)@.len(),
            r is Ok <==> in_bounds(old(self)@.len() as int, offset as int, data@.len() as int),
            r is Ok ==> final(self)@ == written(old(self)@, offset as int, data@),
            r matches Err(e) ==> e == MemoryError::WriteOutOfBounds && final(self)@ == old(self)@,
    {
        let len = data.len();
        if offset > self.size || len as u64 > self.size - offset {
            return Err(MemoryError::WriteOutOfBounds);
        }
        let host_len = self.host.len();
        assert(self.host_offset + offset + len <= host_len);
        let start = self.host_offset + offset as usize;
        let ghost old_mem = self@;
        let ghost old_host = self.host@;
        let mut i: usize = 0;
        while i < len
            invariant
                self.wf(),
                self.host@.len() == old_host.len(),
                self.host_offset == old(self).host_offset,
                self.size == old(self).size,
                self.gpa == old(self).gpa,
                old_mem == old_host.subrange(self.host_offset as int, self.host_offset + self.size),
                len == data@.len(),
                start == self.host_offset + offset,
                offset + len <= self.size,
                start + len <= host_len,
                self.host@.len() == host_len,
                i <= len,
                forall|j: int| 0 <= j < self.host@.len() ==> {
                    if start <= j < start + i {
                        #[trigger] self.host@[j] == data@[j - start]
                    } else {
                        self.host@[j] == old_host[j]
                    }
                },
            decreases len - i,
        {
            self.host[start + i] = data[i];
            i += 1;
        }
        assert(self@ =~= written(old_mem, offset as int, data@));
        Ok(())
    }

    /// Writes `len` zero bytes at `offset`; fails, changing nothing, when they
    /// would reach past the end of guest memory.
    pub fn zero_fill(&mut self, offset: u64, len: u64) -> (r: Result<(), MemoryError>)
        requires
            old(self).wf(),
        ensures
            final(self).wf(),
            final(self).spec_gpa() == old(self).spec_gpa(),
            final(self)@.len() == old(self)@.len(),
            r is Ok <==> in_bounds(old(self)@.len() as int, offset as int, len as int),
            r is Ok ==> final(self)@ == written(old(self)@, offset as int, Seq::new(len as nat, |i: int| 0u8)),
            r matches Err(e) ==> e == MemoryError::WriteOutOfBounds && final(self)@ == old(self)@,
    {
        if offset > self.size || len > self.size - offset {
            return Err(MemoryError::WriteOutOfBounds);
        }
        let host_len = self.host.len();
        assert(self.host_offset + offset + len <= host_len);
        let start = self.host_offset + offset as usize;
        let n = len as usize;
        let ghost old_mem = self@;
        let ghost old_host = self.host@;
        let mut i: usize = 0;
        while i < n
            invariant
                self.wf(),
                self.host@.len() == old_host.len(),
                self.host_offset == old(self).host_offset,
                self.size == old(self).size,
                self.gpa == old(self).gpa,
                old_mem == old_host.subrange(self.host_offset as int, self.host_offset + self.size),
                n == len,
                start == self.host_offset + offset,
                offset + len <= self.size,
                start + len <= host_len,
                self.host@.len() == host_len,
                i <= n,
                forall|j: int| 0 <= j < self.host@.len() ==> {
                    if start <= j < start + i {
                        #[trigger] self.host@[j] == 0u8
                    } else {
                        self.host@[j] == old_host[j]
                    }
                },
            decreases n - i,
        {
            self.host[start + i] = 0u8;
            i += 1;
        }
        assert(self@ =~= written(old_mem, offset as int, Seq::new(len as nat, |i: int| 0u8)));
        Ok(())
    }

    /// Builds 4-level identity paging for the first 2 MiB in the tables at
    /// offsets `PML4_OFFSET` to `PT_OFFSET` of guest memory: PML4[0] -> PDPT,
    /// PDPT[0] -> PD, PD[0] -> PT, each pointing at the next table's physical
    /// address, and PT[i] maps page `i`, all present and writable. Returns the
    /// physical address of the PML4 table. Fails, changing nothing, when guest
    /// memory cannot hold the tables or their physical addresses overflow.
    pub fn setup_identity_paging(&mut self) -> (r: Result<u64, PagingError>)
        requires
            old(self).wf(),
        ensures
            final(self).wf(),
            final(self).spec_gpa() == old(self).spec_gpa(),
            r is Ok <==> old(self)@.len() >= PT_OFFSET + TABLE_SIZE
                && old(self).spec_gpa() + PT_OFFSET + TABLE_SIZE <= u64::MAX,
            r == Err::<u64, PagingError>(PagingError::MemoryTooSmall)
                <==> old(self)@.len() < PT_OFFSET + TABLE_SIZE,
            r == Err::<u64, PagingError>(PagingError::AddressOverflow)
                <==> old(self)@.len() >= PT_OFFSET + TABLE_SIZE
                && old(self).spec_gpa() + PT_OFFSET + TABLE_SIZE > u64::MAX,
            r matches Ok(pml4) ==> pml4 == old(self).spec_gpa() + PML4_OFFSET
                && final(self)@ == identity_paged(old(self)@, old(self).spec_gpa(), PT_ENTRIES as int),
            r is Err ==> final(self)@ == old(self)@,
    {
        if self.size < PT_OFFSET + TABLE_SIZE {
            return Err(PagingError::MemoryTooSmall);
        }
        if self.gpa > u64::MAX - (PT_OFFSET + TABLE_SIZE) {
            return Err(PagingError::AddressOverflow);
        }
        let base = self.gpa;
        let ghost old_mem = self@;
        let e = u64_to_le_bytes((base + PDPT_OFFSET) | 3);
        let _ = self.write_bytes(PML4_OFFSET, e.as_slice());
        let e = u64_to_le_bytes((base + PD_OFFSET) | 3);
        let _ = self.write_bytes(PDPT_OFFSET, e.as_slice());
        let e = u64_to_le_bytes((base + PT_OFFSET) | 3);
        let _ = self.write_bytes(PD_OFFSET, e.as_slice());
        assert(self@ =~= identity_paged(old_mem, base, 0));
        let mut i: u64 = 0;
        while i < PT_ENTRIES
            invariant
                self.wf(),
                self.spec_gpa() == base,
                old_mem.len() >= PT_OFFSET + TABLE_SIZE,
                i <= PT_ENTRIES,
                self@ == identity_paged(old_mem, base, i as int),
            decreases PT_ENTRIES - i,
        {
            let entry = (i * 0x1000) | 3;
            let e = u64_to_le_bytes(entry);
            let _ = self.write_bytes(PT_OFFSET + i * 8, e.as_slice());
            assert(self@ =~= identity_paged(old_mem, base, i + 1)) by {
                assert forall|k: int| 0 <= k < old_mem.len() implies
                    #[trigger] self@[k] == paging_byte(old_mem, base, i + 1, k) by {
                    if PT_OFFSET + 8 * i <= k < PT_OFFSET + 8 * i + 8 {
                        assert((k - PT_OFFSET) / 8 == i);
                        assert((k - PT_OFFSET) % 8 == k - (PT_OFFSET + 8 * i));
                    }
                }
            }
            i += 1;
        }
        Ok(base + PML4_OFFSET)
    }
}

/// After identity paging is set up in guest memory at physical address
/// `base`, the first PML4, PDPT and PD entries point at the physical address
/// of the next table, and page table entry `i` maps guest page `i` (present,
/// writable), for every `i` below 512.
pub proof fn identity_paging_maps_each_page(old: Seq<u8>, base: u64, i: int)
    requires
        old.len() >= PT_OFFSET + TABLE_SIZE,
        0 <= i < PT_ENTRIES,
    ensures
        u64_at(identity_paged(old, base, PT_ENTRIES as int), PML4_OFFSET as int) == table_entry(base, PDPT_OFFSET),
        u64_at(identity_paged(old, base, PT_ENTRIES as int), PDPT_OFFSET as int) == table_entry(base, PD_OFFSET),
        u64_at(identity_paged(old, base, PT_ENTRIES as int), PD_OFFSET as int) == table_entry(base, PT_OFFSET),
        u64_at(identity_paged(old, base, PT_ENTRIES as int), PT_OFFSET + 8 * i) == pt_entry(i),
{
    lemma_auto_spec_u64_to_from_le_bytes();
    let m = identity_paged(old, base, PT_ENTRIES as int);
    assert(bytes_at(m, PML4_OFFSET as int, 8) =~= spec_u64_to_le_bytes(table_entry(base, PDPT_OFFSET)));
    assert(bytes_at(m, PDPT_OFFSET as int, 8) =~= spec_u64_to_le_bytes(table_entry(base, PD_OFFSET)));
    assert(bytes_at(m, PD_OFFSET as int, 8) =~= spec_u64_to_le_bytes(table_entry(base, PT_OFFSET)));
    assert forall|j: int| 0 <= j < 8 implies
        #[trigger] bytes_at(m, PT_OFFSET + 8 * i, 8)[j] == spec_u64_to_le_bytes(pt_entry(i))[j] by {
        let k = PT_OFFSET + 8 * i + j;
        assert((k - PT_OFFSET) / 8 == i);
        assert((k - PT_OFFSET) % 8 == j);
    }
    assert(bytes_at(m, PT_OFFSET + 8 * i, 8) =~= spec_u64_to_le_bytes(pt_entry(i)));
}

proof fn lemma_aligned_frame(x: u64)
    by (bit_vector)
    requires
        x % 0x1000 == 0,
        x < 0x10_0000_0000_0000,
    ensures
        x & FRAME_MASK == x,
        (x | 3) & 1 == 1,
        (x | 3) & FRAME_MASK == x,
{
}

proof fn lemma_low_address_indices(va: u64)
    by (bit_vector)
    requires
        va < 0x200000,
    ensures
        (va >> 39u64) & 0x1ff == 0,
        (va >> 30u64) & 0x1ff == 0,
        (va >> 21u64) & 0x1ff == 0,
        (va >> 12u64) & 0x1ff == va >> 12u64,
        va >> 12u64 < 512,
        ((((va >> 12u64) * 0x1000) as u64) | 3) & 1 == 1,
        (((((va >> 12u64) * 0x1000) as u64) | 3) & FRAME_MASK) | (va & 0xfff) == va,
{
}

/// Once identity paging is set up in page-aligned guest memory at physical
/// address `base`, with the tables below the 52-bit physical address limit,
/// the 4-level walk from the returned PML4 address translates every virtual
/// address below 2 MiB to the same physical address.
pub proof fn identity_paging_translates(old: Seq<u8>, base: u64, va: u64)
    requires
        old.len() >= PT_OFFSET + TABLE_SIZE,
        base % 0x1000 == 0,
        base + PT_OFFSET + TABLE_SIZE <= 0x10_0000_0000_0000,
        va < 0x200000,
    ensures
        translate(identity_paged(old, base, PT_ENTRIES as int), base, (base + PML4_OFFSET) as u64, va) == Some(va),
{
    let m = identity_paged(old, base, PT_ENTRIES as int);
    let i = (va >> 12u64) as int;
    lemma_low_address_indices(va);
    identity_paging_maps_each_page(old, base, i);
    lemma_aligned_frame((base + PML4_OFFSET) as u64);
    lemma_aligned_frame((base + PDPT_OFFSET) as u64);
    lemma_aligned_frame((base + PD_OFFSET) as u64);
    lemma_aligned_frame((base + PT_OFFSET) as u64);
    let cr3 = (base + PML4_OFFSET) as u64;
    assert(frame(cr3) == cr3);
    assert(walk_entry(m, base, frame(cr3), 0) == Some(table_entry(base, PDPT_OFFSET)));
    assert(walk_entry(m, base, (base + PDPT_OFFSET) as u64, 0) == Some(table_entry(base, PD_OFFSET)));
    assert(walk_entry(m, base, (base + PD_OFFSET) as u64, 0) == Some(table_entry(base, PT_OFFSET)));
    assert(walk_entry(m, base, (base + PT_OFFSET) as u64, (va >> 12u64)) == Some(pt_entry(i)));
}

/// A successful write followed by a read of the same range gives back the
/// bytes written, and leaves every byte outside that range as it was.
pub proof fn read_after_write(mem: Seq<u8>, offset: int, data: Seq<u8>)
    requires
        in_bounds(mem.len() as int, offset, data.len() as int),
    ensures
        written(mem, offset, data).len() == mem.len(),
        bytes_at(written(mem, offset, data), offset, data.len() as int) == data,
        forall|k: int| 0 <= k < mem.len() && !(offset <= k < offset + data.len())
            ==> #[trigger] written(mem, offset, data)[k] == mem[k],
{
    assert(bytes_at(written(mem, offset, data), offset, data.len() as int) =~= data);
}

} // verus!
