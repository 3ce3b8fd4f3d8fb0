use vstd::prelude::*;
use vstd::bytes::{
    lemma_auto_spec_u16_to_from_le_bytes,
    spec_u16_from_le_bytes, spec_u16_to_le_bytes, spec_u32_from_le_bytes, spec_u32_to_le_bytes,
    spec_u64_from_le_bytes, u16_from_le_bytes, u16_to_le_bytes, u32_from_le_bytes,
    u32_to_le_bytes, u64_from_le_bytes,
};
use crate::memory::{GuestMemory, MemoryError, bytes_at, in_bounds, written};

verus! {

/// Guest physical base address of the VirtIO MMIO register window.
pub const VIRTIO_MMIO_BASE: u64 = 0x10001000;
/// Size of the VirtIO MMIO register window.
pub const VIRTIO_MMIO_SIZE: u64 = 0x1000;
/// Block request type: read from the device.
pub const VIRTIO_BLK_T_IN: u32 = 0;
/// Block request type: write to the device.
pub const VIRTIO_BLK_T_OUT: u32 = 1;
/// Bytes per disk sector.
pub const SECTOR_SIZE: u64 = 512;

/// A virtqueue descriptor.
#[derive(Debug, Clone, Copy, PartialEq, Eq, Structural)]
pub struct VirtqDesc {
    pub addr: u64,
    pub len: u32,
    pub flags: u16,
    pub next: u16,
}

/// Register state of the VirtIO block device.
#[derive(Debug, Clone, Copy, PartialEq, Eq, Structural)]
pub struct VirtioBlockState {
    pub status: u32,
    pub queue_sel: u32,
    pub queue_desc: u64,
    pub queue_avail: u64,
    pub queue_used: u64,
    pub queue_ready: u32,
    pub last_avail_idx: u16,
    pub notify_pending: bool,
}

/// A VirtIO block device seen through its MMIO registers and its virtqueue.
/// The backing disk is the caller's: requests are handed out, and completed
/// once the caller has done the disk transfer.
pub struct VirtioBlock {
    status: u32,
    queue_sel: u32,
    queue_desc: u64,
    queue_avail: u64,
    queue_used: u64,
    queue_ready: u32,
    last_avail_idx: u16,
    pub notify_pending: bool,
}

impl View for VirtioBlock {
    type V = VirtioBlockState;

    closed spec fn view(&self) -> VirtioBlockState {
        VirtioBlockState {
            status: self.status,
            queue_sel: self.queue_sel,
            queue_desc: self.queue_desc,
            queue_avail: self.queue_avail,
            queue_used: self.queue_used,
            queue_ready: self.queue_ready,
            last_avail_idx: self.last_avail_idx,
            notify_pending: self.notify_pending,
        }
    }
}

/// A block request taken from the available ring: its descriptor chain
/// (header, data, status) and what the header asks for.
#[derive(Debug, Clone, Copy, PartialEq, Eq, Structural)]
pub struct BlockRequest {
    /// Index of the chain's head descriptor.
    pub head_idx: u16,
    /// Request type (`VIRTIO_BLK_T_IN`, `VIRTIO_BLK_T_OUT`, or another).
    pub request_type: u32,
    /// Byte offset on the disk: the requested sector times the sector size.
    pub disk_offset: u64,
    /// The data buffer descriptor.
    pub data: VirtqDesc,
    /// The status byte descriptor.
    pub status: VirtqDesc,
}

/// The disk transfer a block request asks for.
#[derive(Debug, Clone, Copy, PartialEq, Eq, Structural)]
pub enum DiskTransfer {
    /// Write the `len` bytes of guest memory at `addr` to the disk.
    ToDisk { addr: u64, len: u32 },
    /// Read up to `len` bytes from the disk; they go to the data buffer when
    /// the request is completed.
    FromDisk { len: u32 },
    /// No transfer (unsupported request type).
    Nothing,
}

impl BlockRequest {
    /// The transfer this request asks for, at byte `disk_offset` of the disk.
    pub fn disk_transfer(&self) -> (t: DiskTransfer)
        ensures
            self.request_type == VIRTIO_BLK_T_OUT ==> t == (DiskTransfer::ToDisk { addr: self.data.addr, len: self.data.len }),
            self.request_type == VIRTIO_BLK_T_IN ==> t == (DiskTransfer::FromDisk { len: self.data.len }),
            self.request_type != VIRTIO_BLK_T_OUT && self.request_type != VIRTIO_BLK_T_IN ==> t == DiskTransfer::Nothing,
    {
        if self.request_type == VIRTIO_BLK_T_OUT {
            DiskTransfer::ToDisk { addr: self.data.addr, len: self.data.len }
        } else if self.request_type == VIRTIO_BLK_T_IN {
            DiskTransfer::FromDisk { len: self.data.len }
        } else {
            DiskTransfer::Nothing
        }
    }
}

/// Errors of virtqueue processing.
#[derive(Debug, Clone, Copy, PartialEq, Eq, Structural)]
pub enum VirtioError {
    /// A ring, descriptor or buffer lies outside guest memory.
    Memory(MemoryError),
    /// The requested sector's byte offset does not fit in 64 bits.
    SectorOutOfRange,
}

/// The value the guest reads from register `offset`.
pub open spec fn register_read(s: VirtioBlockState, offset: u64) -> u32 {
    if offset == 0x000 {
        0x74726976
    } else if offset == 0x004 {
        2
    } else if offset == 0x008 {
        2
    } else if offset == 0x00c {
        0x554D4551
    } else if offset == 0x010 {
        0
    } else if offset == 0x034 {
        256
    } else if offset == 0x044 {
        s.queue_ready
    } else if offset == 0x070 {
        s.status
    } else {
        0
    }
}

/// `old` with its low 32 bits replaced by `value`.
pub open spec fn with_low32(old: u64, value: u32) -> u64 {
    (old & 0xFFFF_FFFF_0000_0000) | (value as u64)
}

/// `old` with its high 32 bits replaced by `value`.
pub open spec fn with_high32(old: u64, value: u32) -> u64 {
    (old & 0xFFFF_FFFF) | ((value as u64) << 32)
}

/// Device state after the guest writes `value` to register `offset`.
pub open spec fn register_write(s: VirtioBlockState, offset: u64, value: u32) -> VirtioBlockState {
    if offset == 0x030 {
        VirtioBlockState { queue_sel: value, ..s }
    } else if offset == 0x044 {
        VirtioBlockState { queue_ready: value, ..s }
    } else if offset == 0x070 {
        VirtioBlockState { status: value, ..s }
    } else if offset == 0x080 {
        VirtioBlockState { queue_desc: with_low32(s.queue_desc, value), ..s }
    } else if offset == 0x084 {
        VirtioBlockState { queue_desc: with_high32(s.queue_desc, value), ..s }
    } else if offset == 0x090 {
        VirtioBlockState { queue_avail: with_low32(s.queue_avail, value), ..s }
    } else if offset == 0x094 {
        VirtioBlockState { queue_avail: with_high32(s.queue_avail, value), ..s }
    } else if offset == 0x0a0 {
        VirtioBlockState { queue_used: with_low32(s.queue_used, value), ..s }
    } else if offset == 0x0a4 {
        VirtioBlockState { queue_used: with_high32(s.queue_used, value), ..s }
    } else if offset == 0x050 {
        VirtioBlockState { notify_pending: true, ..s }
    } else {
        s
    }
}

/// The little-endian `u16` at `addr`, when it lies inside `mem`.
pub open spec fn read_u16(mem: Seq<u8>, addr: int) -> Option<u16> {
    if in_bounds(mem.len() as int, addr, 2) {
        Some(spec_u16_from_le_bytes(bytes_at(mem, addr, 2)))
    } else {
        None
    }
}

/// Descriptor `idx` of the table at `table`, when it lies inside `mem`.
pub open spec fn read_desc(mem: Seq<u8>, table: u64, idx: u16) -> Option<VirtqDesc> {
    let addr = table + idx * 16;
    if in_bounds(mem.len() as int, addr, 16) {
        let b = bytes_at(mem, addr, 16);
        Some(VirtqDesc {
            addr: spec_u64_from_le_bytes(b.subrange(0, 8)),
            len: spec_u32_from_le_bytes(b.subrange(8, 12)),
            flags: spec_u16_from_le_bytes(b.subrange(12, 14)),
            next: spec_u16_from_le_bytes(b.subrange(14, 16)),
        })
    } else {
        None
    }
}

/// The request at available ring position `s.last_avail_idx`: the head index
/// from the ring, the three chained descriptors, and the header's type (bytes
/// 0..4) and sector (bytes 8..16).
pub open spec fn request_at(s: VirtioBlockState, mem: Seq<u8>) -> Result<BlockRequest, VirtioError> {
    let read_err = Err(VirtioError::Memory(MemoryError::ReadOutOfBounds));
    match read_u16(mem, s.queue_avail + 4 + (s.last_avail_idx % 256) * 2) {
        None => read_err,
        Some(head) => match read_desc(mem, s.queue_desc, head) {
            None => read_err,
            Some(d1) => match read_desc(mem, s.queue_desc, d1.next) {
                None => read_err,
                Some(d2) => match read_desc(mem, s.queue_desc, d2.next) {
                    None => read_err,
                    Some(d3) => if !in_bounds(mem.len() as int, d1.addr as int, 16) {
                        read_err
                    } else {
                        let hdr = bytes_at(mem, d1.addr as int, 16);
                        let sector = spec_u64_from_le_bytes(hdr.subrange(8, 16));
                        if sector * SECTOR_SIZE > u64::MAX {
                            Err(VirtioError::SectorOutOfRange)
                        } else {
                            Ok(BlockRequest {
                                head_idx: head,
                                request_type: spec_u32_from_le_bytes(hdr.subrange(0, 4)),
                                disk_offset: (sector * SECTOR_SIZE) as u64,
                                data: d2,
                                status: d3,
                            })
                        }
                    },
                },
            },
        },
    }
}

/// `data` written into `mem` at `addr`, when it fits.
pub open spec fn write_opt(mem: Seq<u8>, addr: int, data: Seq<u8>) -> Option<Seq<u8>> {
    if in_bounds(mem.len() as int, addr, data.len() as int) {
        Some(written(mem, addr, data))
    } else {
        None
    }
}

/// The bytes of `data_in` that fit in the data buffer of `req`: at most its
/// length.
pub open spec fn delivered(req: BlockRequest, data_in: Seq<u8>) -> Seq<u8> {
    if data_in.len() <= req.data.len {
        data_in
    } else {
        data_in.subrange(0, req.data.len as int)
    }
}

/// Guest memory and outcome of completing request `req` over `mem`: for a
/// read request the transferred bytes, as many as the data buffer holds, go
/// to the data buffer, the status byte
/// becomes 0 (OK), the used ring gets the entry (head index, data length) at
/// its current index, and the used index advances by one.
pub open spec fn completion(used: u64, mem: Seq<u8>, req: BlockRequest, data_in: Seq<u8>) -> (Seq<u8>, Result<(), VirtioError>) {
    let werr = Err(VirtioError::Memory(MemoryError::WriteOutOfBounds));
    let rerr = Err(VirtioError::Memory(MemoryError::ReadOutOfBounds));
    let m1 = if req.request_type == VIRTIO_BLK_T_IN {
        write_opt(mem, req.data.addr as int, delivered(req, data_in))
    } else {
        Some(mem)
    };
    match m1 {
        None => (mem, werr),
        Some(m1) => match write_opt(m1, req.status.addr as int, seq![0u8]) {
            None => (m1, werr),
            Some(m2) => match read_u16(m2, used + 2) {
                None => (m2, rerr),
                Some(used_idx) => {
                    let entry = used + 4 + (used_idx % 256) * 8;
                    match write_opt(m2, entry, spec_u32_to_le_bytes(req.head_idx as u32)) {
                        None => (m2, werr),
                        Some(m3) => match write_opt(m3, entry + 4, spec_u32_to_le_bytes(req.data.len)) {
                            None => (m3, werr),
                            Some(m4) => match write_opt(m4, used + 2,
                                spec_u16_to_le_bytes(next_index(used_idx))) {
                                None => (m4, werr),
                                Some(m5) => (m5, Ok(())),
                            },
                        },
                    }
                },
            },
        },
    }
}

/// The ring index following `i`, wrapping at 2^16.
pub open spec fn next_index(i: u16) -> u16 {
    if i == u16::MAX {
        0
    } else {
        (i + 1) as u16
    }
}

/// The ring index following `i`, wrapping at 2^16.
fn wrapping_next(i: u16) -> (r: u16)
    ensures
        r == next_index(i),
{
    if i == u16::MAX {
        0
    } else {
        i + 1
    }
}

/// Reads descriptor `idx` of the table at `table`.
fn read_desc_at(mem: &GuestMemory, table: u64, idx: u16) -> (r: Result<VirtqDesc, MemoryError>)
    requires
        mem.wf(),
    ensures
        match r {
            Ok(d) => read_desc(mem@, table, idx) == Some(d),
            Err(e) => read_desc(mem@, table, idx) is None && e == MemoryError::ReadOutOfBounds,
        },
{
    // The size bounds every in-bounds address, so a sum that overflows is out of bounds.
    let _size = mem.size();
    let addr = match table.checked_add((idx as u64) * 16) {
        Some(a) => a,
        None => {
            return Err(MemoryError::ReadOutOfBounds);
        },
    };
    let mut buf = vec![0u8; 16];
    match mem.read_bytes(addr, buf.as_mut_slice()) {
        Ok(()) => {},
        Err(e) => {
            return Err(e);
        },
    }
    let b = buf.as_slice();
    let d = VirtqDesc {
        addr: u64_from_le_bytes(&b[0..8]),
        len: u32_from_le_bytes(&b[8..12]),
        flags: u16_from_le_bytes(&b[12..14]),
        next: u16_from_le_bytes(&b[14..16]),
    };
    Ok(d)
}

/// Reads the little-endian `u16` at `base + add`.
fn read_u16_at(mem: &GuestMemory, base: u64, add: u64) -> (r: Result<u16, MemoryError>)
    requires
        mem.wf(),
    ensures
        match r {
            Ok(v) => read_u16(mem@, base + add) == Some(v),
            Err(e) => read_u16(mem@, base + add) is None && e == MemoryError::ReadOutOfBounds,
        },
{
    // The size bounds every in-bounds address, so a sum that overflows is out of bounds.
    let _size = mem.size();
    let addr = match base.checked_add(add) {
        Some(a) => a,
        None => {
            return Err(MemoryError::ReadOutOfBounds);
        },
    };
    let mut buf = vec![0u8; 2];
    match mem.read_bytes(addr, buf.as_mut_slice()) {
        Ok(()) => Ok(u16_from_le_bytes(buf.as_slice())),
        Err(e) => Err(e),
    }
}

/// Writes `data` at `base + add`.
fn write_at(mem: &mut GuestMemory, base: u64, add: u64, data: &[u8]) -> (r: Result<(), MemoryError>)
    requires
        old(mem).wf(),
    ensures
        final(mem).wf(),
        final(mem).spec_gpa() == old(mem).spec_gpa(),
        match r {
            Ok(()) => write_opt(old(mem)@, base + add, data@) == Some(final(mem)@),
            Err(e) => write_opt(old(mem)@, base + add, data@) is None
                && e == MemoryError::WriteOutOfBounds && final(mem)@ == old(mem)@,
        },
{
    // The size bounds every in-bounds address, so a sum that overflows is out of bounds.
    let _size = mem.size();
    let addr = match base.checked_add(add) {
        Some(a) => a,
        None => {
            return Err(MemoryError::WriteOutOfBounds);
        },
    };
    mem.write_bytes(addr, data)
}

impl VirtioBlock {
    /// Starts processing after a queue notification: when a notification is
    /// pending and the queue is ready, clears the notification and returns
    /// the available ring's index; otherwise returns `None` and changes
    /// nothing.
    pub fn begin_process_queues(&mut self, mem: &GuestMemory) -> (r: Result<Option<u16>, VirtioError>)
        requires
            mem.wf(),
        ensures
            !old(self)@.notify_pending || old(self)@.queue_ready == 0 ==> r == Ok::<Option<u16>, VirtioError>(None)
                && final(self)@ == old(self)@,
            old(self)@.notify_pending && old(self)@.queue_ready != 0 ==> {
                &&& final(self)@ == (VirtioBlockState { notify_pending: false, ..old(self)@ })
                &&& r == match read_u16(mem@, old(self)@.queue_avail + 2) {
                    Some(idx) => Ok::<Option<u16>, VirtioError>(Some(idx)),
                    None => Err(VirtioError::Memory(MemoryError::ReadOutOfBounds)),
                }
            },
    {
        if !self.notify_pending || self.queue_ready == 0 {
            return Ok(None);
        }
        self.notify_pending = false;
        match read_u16_at(mem, self.queue_avail, 2) {
            Ok(idx) => Ok(Some(idx)),
            Err(e) => Err(VirtioError::Memory(e)),
        }
    }

    /// The next request to serve when the available ring's index is
    /// `avail_idx`: `None` once every available request has been completed.
    pub fn next_request(&self, mem: &GuestMemory, avail_idx: u16) -> (r: Result<Option<BlockRequest>, VirtioError>)
        requires
            mem.wf(),
        ensures
            self@.last_avail_idx == avail_idx ==> r == Ok::<Option<BlockRequest>, VirtioError>(None),
            self@.last_avail_idx != avail_idx ==> r == match request_at(self@, mem@) {
                Ok(req) => Ok::<Option<BlockRequest>, VirtioError>(Some(req)),
                Err(e) => Err(e),
            },
    {
        if self.last_avail_idx == avail_idx {
            return Ok(None);
        }
        let rerr = VirtioError::Memory(MemoryError::ReadOutOfBounds);
        let ring_offset = 4 + (self.last_avail_idx % 256) as u64 * 2;
        let head = match read_u16_at(mem, self.queue_avail, ring_offset) {
            Ok(h) => h,
            Err(_) => {
                return Err(rerr);
            },
        };
        let d1 = match read_desc_at(mem, self.queue_desc, head) {
            Ok(d) => d,
            Err(_) => {
                return Err(rerr);
            },
        };
        let d2 = match read_desc_at(mem, self.queue_desc, d1.next) {
            Ok(d) => d,
            Err(_) => {
                return Err(rerr);
            },
        };
        let d3 = match read_desc_at(mem, self.queue_desc, d2.next) {
            Ok(d) => d,
            Err(_) => {
                return Err(rerr);
            },
        };
        let mut hdr = vec![0u8; 16];
        match mem.read_bytes(d1.addr, hdr.as_mut_slice()) {
            Ok(()) => {},
            Err(_) => {
                return Err(rerr);
            },
        }
        let h = hdr.as_slice();
        let request_type = u32_from_le_bytes(&h[0..4]);
        let sector = u64_from_le_bytes(&h[8..16]);
        let disk_offset = match sector.checked_mul(SECTOR_SIZE) {
            Some(o) => o,
            None => {
                return Err(VirtioError::SectorOutOfRange);
            },
        };
        Ok(Some(BlockRequest { head_idx: head, request_type, disk_offset, data: d2, status: d3 }))
    }

    /// Completes `req` once the disk transfer is done: for a read request
    /// `data_in` (the bytes read from disk) is copied to the data buffer, cut
    /// to the buffer's length; the
    /// status byte is set to 0 (OK), the used ring records the request and its
    /// data length, the used index and the device's ring position advance.
    /// On failure the ring position stays and guest memory holds the writes
    /// made before the failing access.
    pub fn complete_request(&mut self, mem: &mut GuestMemory, req: &BlockRequest, data_in: &[u8]) -> (r: Result<(), VirtioError>)
        requires
            old(mem).wf(),
        ensures
            final(mem).wf(),
            final(mem).spec_gpa() == old(mem).spec_gpa(),
            ({
                let (m, res) = completion(old(self)@.queue_used, old(mem)@, *req, data_in@);
                &&& final(mem)@ == m
                &&& r == res
                &&& res is Ok ==> final(self)@ == (VirtioBlockState {
                    last_avail_idx: next_index(old(self)@.last_avail_idx), ..old(self)@ })
                &&& res is Err ==> final(self)@ == old(self)@
            }),
    {
        let werr = VirtioError::Memory(MemoryError::WriteOutOfBounds);
        if req.request_type == VIRTIO_BLK_T_IN {
            let n = if data_in.len() as u64 <= req.data.len as u64 { data_in.len() } else { req.data.len as usize };
            let data = vstd::slice::slice_subrange(data_in, 0, n);
            assert(data@ == delivered(*req, data_in@));
            match write_at(mem, req.data.addr, 0, data) {
                Ok(()) => {},
                Err(_) => {
                    return Err(werr);
                },
            }
        }
        let zero = vec![0u8];
        assert(zero@ == seq![0u8]);
        match write_at(mem, req.status.addr, 0, zero.as_slice()) {
            Ok(()) => {},
            Err(_) => {
                return Err(werr);
            },
        }
        let used_idx = match read_u16_at(mem, self.queue_used, 2) {
            Ok(i) => i,
            Err(_) => {
                return Err(VirtioError::Memory(MemoryError::ReadOutOfBounds));
            },
        };
        let entry = 4 + (used_idx % 256) as u64 * 8;
        let head_bytes = u32_to_le_bytes(req.head_idx as u32);
        match write_at(mem, self.queue_used, entry, head_bytes.as_slice()) {
            Ok(()) => {},
            Err(_) => {
                return Err(werr);
            },
        }
        let len_bytes = u32_to_le_bytes(req.data.len);
        match write_at(mem, self.queue_used, entry + 4, len_bytes.as_slice()) {
            Ok(()) => {},
            Err(_) => {
                return Err(werr);
            },
        }
        let idx_bytes = u16_to_le_bytes(wrapping_next(used_idx));
        match write_at(mem, self.queue_used, 2, idx_bytes.as_slice()) {
            Ok(()) => {},
            Err(_) => {
                return Err(werr);
            },
        }
        self.last_avail_idx = wrapping_next(self.last_avail_idx);
        Ok(())
    }

    /// A device with every register zero and no notification pending.
    pub fn new() -> (dev: Self)
        ensures
            dev@ == (VirtioBlockState {
                status: 0,
                queue_sel: 0,
                queue_desc: 0,
                queue_avail: 0,
                queue_used: 0,
                queue_ready: 0,
                last_avail_idx: 0,
                notify_pending: false,
            }),
    {
        VirtioBlock {
            status: 0,
            queue_sel: 0,
            queue_desc: 0,
            queue_avail: 0,
            queue_used: 0,
            queue_ready: 0,
            last_avail_idx: 0,
            notify_pending: false,
        }
    }

    /// Handles a guest MMIO read of register `offset`.
    pub fn read_register(&self, offset: u64) -> (value: u32)
        ensures
            value == register_read(self@, offset),
    {
        match offset {
            0x000 => 0x74726976,
            0x004 => 2,
            0x008 => 2,
            0x00c => 0x554D4551,
            0x010 => 0,
            0x034 => 256,
            0x044 => self.queue_ready,
            0x070 => self.status,
            _ => 0,
        }
    }

    /// Handles a guest MMIO write of `value` to register `offset`.
    pub fn write_register(&mut self, offset: u64, value: u32)
        ensures
            final(self)@ == register_write(old(self)@, offset, value),
    {
        match offset {
            0x030 => self.queue_sel = value,
            0x044 => self.queue_ready = value,
            0x070 => self.status = value,
            0x080 => self.queue_desc = (self.queue_desc & 0xFFFF_FFFF_0000_0000) | (value as u64),
            0x084 => self.queue_desc = (self.queue_desc & 0xFFFF_FFFF) | ((value as u64) << 32),
            0x090 => self.queue_avail = (self.queue_avail & 0xFFFF_FFFF_0000_0000) | (value as u64),
            0x094 => self.queue_avail = (self.queue_avail & 0xFFFF_FFFF) | ((value as u64) << 32),
            0x0a0 => self.queue_used = (self.queue_used & 0xFFFF_FFFF_0000_0000) | (value as u64),
            0x0a4 => self.queue_used = (self.queue_used & 0xFFFF_FFFF) | ((value as u64) << 32),
            0x050 => self.notify_pending = true,
            _ => {},
        }
    }
}

/// Writing the queue-ready or device-status register and reading it back
/// gives the value written; the identification registers read the same
/// whatever was written.
pub proof fn register_read_after_write(s: VirtioBlockState, offset: u64, value: u32)
    ensures
        (offset == 0x044 || offset == 0x070) ==> register_read(register_write(s, offset, value), offset) == value,
        offset <= 0x010 && offset % 4 == 0 ==> register_read(register_write(s, offset, value), offset)
            == register_read(s, offset),
{
}

/// Writing the low then the high half of a 64-bit queue address register
/// pair sets the address to `(high << 32) | low`, whatever it held before.
pub proof fn address_halves_compose(s: VirtioBlockState, low: u32, high: u32)
    ensures
        register_write(register_write(s, 0x080, low), 0x084, high).queue_desc == ((high as u64) << 32) | (low as u64),
        register_write(register_write(s, 0x090, low), 0x094, high).queue_avail == ((high as u64) << 32) | (low as u64),
        register_write(register_write(s, 0x0a0, low), 0x0a4, high).queue_used == ((high as u64) << 32) | (low as u64),
{
    assert forall|old: u64| #[trigger] with_high32(with_low32(old, low), high) == ((high as u64) << 32) | (low as u64) by {
        assert(((((old & 0xFFFF_FFFF_0000_0000) | (low as u64)) & 0xFFFF_FFFF) | ((high as u64) << 32))
            == ((high as u64) << 32) | (low as u64)) by (bit_vector);
    }
}

/// Reading `len` bytes at `k` after a write at `addr` that they do not
/// overlap gives what was there before.
proof fn lemma_read_past_write(mem: Seq<u8>, addr: int, data: Seq<u8>, k: int, len: int)
    requires
        in_bounds(mem.len() as int, addr, data.len() as int),
        in_bounds(mem.len() as int, k, len),
        k + len <= addr || addr + data.len() <= k,
    ensures
        bytes_at(written(mem, addr, data), k, len) == bytes_at(mem, k, len),
{
    assert(bytes_at(written(mem, addr, data), k, len) =~= bytes_at(mem, k, len));
}

/// Completing a request advances the used ring's index by one (wrapping):
/// when the data buffer of a read request and the status byte lie apart from
/// the used index, the index read after a successful completion is the one
/// read before, plus one.
pub proof fn completion_advances_used_index(used: u64, mem: Seq<u8>, req: BlockRequest, data_in: Seq<u8>)
    requires
        completion(used, mem, req, data_in).1 is Ok,
        req.request_type == VIRTIO_BLK_T_IN ==> (req.data.addr + req.data.len <= used + 2
            || used + 4 <= req.data.addr),
        req.status.addr + 1 <= used + 2 || used + 4 <= req.status.addr,
    ensures
        read_u16(mem, used + 2) matches Some(idx)
            && read_u16(completion(used, mem, req, data_in).0, used + 2) == Some(next_index(idx)),
{
    lemma_auto_spec_u16_to_from_le_bytes();
    let m1 = if req.request_type == VIRTIO_BLK_T_IN {
        write_opt(mem, req.data.addr as int, delivered(req, data_in)).unwrap()
    } else {
        mem
    };
    if req.request_type == VIRTIO_BLK_T_IN {
        lemma_read_past_write(mem, req.data.addr as int, delivered(req, data_in), used + 2, 2);
    }
    let m2 = write_opt(m1, req.status.addr as int, seq![0u8]).unwrap();
    lemma_read_past_write(m1, req.status.addr as int, seq![0u8], used + 2, 2);
    let idx = read_u16(m2, used + 2).unwrap();
    let entry = used + 4 + (idx % 256) * 8;
    let m3 = write_opt(m2, entry, spec_u32_to_le_bytes(req.head_idx as u32)).unwrap();
    let m4 = write_opt(m3, entry + 4, spec_u32_to_le_bytes(req.data.len)).unwrap();
    let m5 = write_opt(m4, used + 2, spec_u16_to_le_bytes(next_index(idx))).unwrap();
    assert(bytes_at(m5, used + 2, 2) =~= spec_u16_to_le_bytes(next_index(idx)));
}

/// A request is the descriptor chain that the available ring names at the
/// device's ring position: the head index is the ring entry, the data
/// descriptor is the one the head links to, the status descriptor is the one
/// the data descriptor links to, and type and disk offset come from the
/// 16-byte header the head points at (type in bytes 0..4, sector in bytes
/// 8..16, times 512).
pub proof fn request_follows_descriptor_chain(s: VirtioBlockState, mem: Seq<u8>)
    ensures
        request_at(s, mem) matches Ok(req) ==> {
            &&& read_u16(mem, s.queue_avail + 4 + 2 * (s.last_avail_idx % 256)) == Some(req.head_idx)
            &&& read_desc(mem, s.queue_desc, req.head_idx) matches Some(head)
            &&& read_desc(mem, s.queue_desc, head.next) == Some(req.data)
            &&& read_desc(mem, s.queue_desc, req.data.next) == Some(req.status)
            &&& in_bounds(mem.len() as int, head.addr as int, 16)
            &&& req.request_type == spec_u32_from_le_bytes(mem.subrange(head.addr as int, head.addr + 4))
            &&& req.disk_offset == spec_u64_from_le_bytes(mem.subrange(head.addr + 8, head.addr + 16)) * 512
        },
{
    if let Ok(req) = request_at(s, mem) {
        let head = read_desc(mem, s.queue_desc, req.head_idx).unwrap();
        let hdr = bytes_at(mem, head.addr as int, 16);
        assert(hdr.subrange(0, 4) =~= mem.subrange(head.addr as int, head.addr + 4));
        assert(hdr.subrange(8, 16) =~= mem.subrange(head.addr + 8, head.addr + 16));
    }
}

} // verus!
