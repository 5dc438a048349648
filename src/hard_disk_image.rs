//! Kaypro 10 hard-disk image: 306 cylinders, 4 heads, 17 sectors of 512
//! bytes, held in memory with a per-track formatted map and a dirty range for
//! the host to store.

use vstd::prelude::*;

verus! {

pub const CYLINDERS: u64 = 306;
pub const HEADS: u64 = 4;
pub const SECTORS_PER_TRACK: u64 = 17;
pub const SECTOR_SIZE: u64 = 512;
pub const HEADER_SIZE: u64 = 128;
pub const DATA_SIZE: u64 = 10653696;
pub const IMAGE_SIZE: u64 = 10653824;
pub const TRACK_COUNT: usize = 1224;
/// Byte offset of cylinder 0, head 1.
pub const SLOT1_TRACK0_BASE: u64 = 8704;
/// Logical 128-byte records per track in the 128-byte mode.
pub const LOGICALS_PER_TRACK: usize = 64;

/// Result of a write made by the controller.
#[derive(Clone, Copy, Debug, PartialEq, Eq, Structural)]
pub enum ControllerWriteOutcome {
    Applied,
    AppliedProtectedSector,
    PreservedProtectedSector,
}

/// Which controller path writes.
#[derive(Clone, Copy, Debug, PartialEq, Eq, Structural)]
pub enum ControllerWriteSource {
    WriteData,
    FormatTrack,
}

/// Why an access to the image failed.
#[derive(Clone, Copy, Debug, PartialEq, Eq, Structural)]
pub enum HdError {
    /// The byte range does not lie within the sector payload.
    OutOfRange,
    /// A logical sector has no place in the interleave map.
    BadLogicalSector,
    /// A floppy image is too small to seed from.
    FloppyTooSmall,
}

/// Whether two byte ranges share a byte (ends saturate at `u64::MAX`).
pub open spec fn overlap_spec(a_off: int, a_len: int, b_off: int, b_len: int) -> bool {
    let a_end = if a_off + a_len > u64::MAX { u64::MAX as int } else { a_off + a_len };
    let b_end = if b_off + b_len > u64::MAX { u64::MAX as int } else { b_off + b_len };
    a_off < b_end && b_off < a_end
}

pub fn ranges_overlap(a_off: u64, a_len: usize, b_off: u64, b_len: usize) -> (r: bool)
    ensures
        r == overlap_spec(a_off as int, a_len as int, b_off as int, b_len as int),
{
    let a_end = a_off.saturating_add(a_len as u64);
    let b_end = b_off.saturating_add(b_len as u64);
    a_off < b_end && b_off < a_end
}

/// The four protected sectors: the boot and parameter sectors (0 and 16) of
/// cylinder 0 on heads 0 and 1.
pub open spec fn is_protected_start(off: int) -> bool {
    off == 0 || off == 8192 || off == 8704 || off == 16896
}

pub open spec fn touches_protected(offset: int, len: int) -> bool {
    exists|p: int| is_protected_start(p) && #[trigger] overlap_spec(offset, len, p, 512)
}

fn overlaps_protected(offset: u64, len: usize) -> (r: bool)
    ensures
        r == touches_protected(offset as int, len as int),
{
    let r = ranges_overlap(offset, len, 0, 512) || ranges_overlap(offset, len, 8192, 512)
        || ranges_overlap(offset, len, 8704, 512) || ranges_overlap(offset, len, 16896, 512);
    proof {
        if r {
            if overlap_spec(offset as int, len as int, 0, 512) {
                assert(is_protected_start(0));
            } else if overlap_spec(offset as int, len as int, 8192, 512) {
                assert(is_protected_start(8192));
            } else if overlap_spec(offset as int, len as int, 8704, 512) {
                assert(is_protected_start(8704));
            } else {
                assert(is_protected_start(16896));
            }
        }
    }
    r
}

/// Index of the track of a cylinder and head in the formatted map.
pub fn track_index(cyl: u64, head: u64) -> (r: Option<usize>)
    ensures
        cyl < CYLINDERS && head < HEADS <==> r.is_some(),
        r.is_some() ==> r.unwrap() == cyl * HEADS + head,
{
    if cyl >= CYLINDERS || head >= HEADS {
        return None;
    }
    Some((cyl * HEADS + head) as usize)
}

/// The content of `data` with `buf` laid over it at `off`.
pub open spec fn overlay(data: Seq<u8>, off: int, buf: Seq<u8>) -> Seq<u8> {
    Seq::new(data.len(), |i: int| if off <= i < off + buf.len() { buf[i - off] } else { data[i] })
}

pub struct HardDiskImage {
    /// Sector payload, `DATA_SIZE` bytes.
    pub data: Vec<u8>,
    /// Formatted flag of each track `cyl * HEADS + head`.
    pub formatted_tracks: Vec<bool>,
    /// Set when the formatted map changed since the host last stored it.
    pub map_dirty: bool,
    pub write_min: usize,
    pub write_max: usize,
}

impl HardDiskImage {
    pub open spec fn wf(&self) -> bool {
        &&& self.data@.len() == DATA_SIZE
        &&& self.formatted_tracks@.len() == TRACK_COUNT
    }

    /// An image of the given payload with every track's formatted flag
    /// set to `formatted_any`.
    pub fn from_data(data: Vec<u8>, formatted_any: bool) -> (r: HardDiskImage)
        requires
            data@.len() == DATA_SIZE,
        ensures
            r.wf(),
            r.data == data,
            forall|i: int| 0 <= i < TRACK_COUNT ==> r.formatted_tracks@[i] == formatted_any,
            !r.map_dirty,
            r.write_min == usize::MAX && r.write_max == 0,
    {
        let mut tracks: Vec<bool> = Vec::new();
        let mut i: usize = 0;
        while i < TRACK_COUNT
            invariant
                i <= TRACK_COUNT,
                tracks@.len() == i,
                forall|k: int| 0 <= k < i ==> tracks@[k] == formatted_any,
            decreases TRACK_COUNT - i,
        {
            tracks.push(formatted_any);
            i = i + 1;
        }
        HardDiskImage { data, formatted_tracks: tracks, map_dirty: false, write_min: usize::MAX, write_max: 0 }
    }

    /// A newly created image: zero payload except for the parameter sectors
    /// (cylinder 0, sector 16, heads 0 and 1), which hold a non-zero byte
    /// and a checksum that does not match it, so that the ROM does not take
    /// the blank disk for a formatted one.
    pub fn blank() -> (r: HardDiskImage)
        ensures
            r.wf(),
            forall|i: int| 0 <= i < DATA_SIZE ==> r.data@[i] == if i == 8192 || i == 16896 { 0xFFu8 } else { 0u8 },
            forall|i: int| 0 <= i < TRACK_COUNT ==> !r.formatted_tracks@[i],
    {
        let mut data: Vec<u8> = Vec::new();
        let mut i: usize = 0;
        while i < DATA_SIZE as usize
            invariant
                i <= DATA_SIZE,
                data@.len() == i,
                forall|k: int| 0 <= k < i ==> data@[k] == if k == 8192 || k == 16896 { 0xFFu8 } else { 0u8 },
            decreases DATA_SIZE - i,
        {
            data.push(if i == 8192 || i == 16896 { 0xFFu8 } else { 0u8 });
            i = i + 1;
        }
        HardDiskImage::from_data(data, false)
    }

    pub fn is_formatted(&self) -> (r: bool)
        ensures
            r == exists|i: int| 0 <= i < self.formatted_tracks@.len() && self.formatted_tracks@[i],
    {
        let mut i: usize = 0;
        while i < self.formatted_tracks.len()
            invariant
                i <= self.formatted_tracks@.len(),
                forall|k: int| 0 <= k < i ==> !self.formatted_tracks@[k],
            decreases self.formatted_tracks@.len() - i,
        {
            if self.formatted_tracks[i] {
                return true;
            }
            i = i + 1;
        }
        false
    }

    /// Sets the formatted flag of a track; a cylinder or head out of range is ignored.
    pub fn set_track_formatted(&mut self, cyl: u16, head: u8, formatted: bool)
        requires
            old(self).wf(),
        ensures
            final(self).wf(),
            final(self).data == old(self).data,
            final(self).write_min == old(self).write_min,
            final(self).write_max == old(self).write_max,
            (cyl as u64) < CYLINDERS && (head as u64) < HEADS ==> final(self).map_dirty
                && final(self).formatted_tracks@ == old(self).formatted_tracks@.update(
                    cyl as int * 4 + head as int, formatted),
            !((cyl as u64) < CYLINDERS && (head as u64) < HEADS) ==> *final(self) == *old(self),
    {
        if let Some(i) = track_index(cyl as u64, head as u64) {
            self.formatted_tracks.set(i, formatted);
            self.map_dirty = true;
        }
    }

    /// The `len` bytes at `offset`.
    pub fn read_at(&self, offset: u64, len: usize) -> (r: Result<Vec<u8>, HdError>)
        requires
            self.wf(),
        ensures
            offset as int + len as int <= DATA_SIZE <==> r.is_ok(),
            r.is_ok() ==> r.unwrap()@ == self.data@.subrange(offset as int, offset as int + len as int),
            r.is_err() ==> r == Err::<Vec<u8>, HdError>(HdError::OutOfRange),
    {
        if offset > DATA_SIZE || len as u64 > DATA_SIZE - offset {
            return Err(HdError::OutOfRange);
        }
        let start = offset as usize;
        let mut out: Vec<u8> = Vec::new();
        let mut i: usize = 0;
        while i < len
            invariant
                start + len <= DATA_SIZE,
                self.data@.len() == DATA_SIZE,
                out@ == self.data@.subrange(start as int, start as int + i as int),
                i <= len,
            decreases len - i,
        {
            out.push(self.data[start + i]);
            i = i + 1;
        }
        Ok(out)
    }

    /// Lays `buf` over the payload at `offset`; the written bytes join the dirty range.
    pub fn write_at(&mut self, offset: u64, buf: &[u8]) -> (r: Result<(), HdError>)
        requires
            old(self).wf(),
        ensures
            final(self).wf(),
            offset as int + buf@.len() <= DATA_SIZE <==> r.is_ok(),
            r.is_ok() ==> final(self).data@ == overlay(old(self).data@, offset as int, buf@),
            r.is_err() ==> *final(self) == *old(self) && r == Err::<(), HdError>(HdError::OutOfRange),
            final(self).formatted_tracks == old(self).formatted_tracks,
            final(self).map_dirty == old(self).map_dirty,
    {
        if offset > DATA_SIZE || buf.len() as u64 > DATA_SIZE - offset {
            return Err(HdError::OutOfRange);
        }
        let start = offset as usize;
        let mut i: usize = 0;
        while i < buf.len()
            invariant
                start + buf@.len() <= DATA_SIZE,
                self.wf(),
                i <= buf@.len(),
                self.formatted_tracks == old(self).formatted_tracks,
                self.map_dirty == old(self).map_dirty,
                forall|k: int| 0 <= k < DATA_SIZE ==> #[trigger] self.data@[k] ==
                    if start <= k < start + i { buf@[k - start] } else { old(self).data@[k] },
            decreases buf@.len() - i,
        {
            self.data.set(start + i, buf[i]);
            if start + i < self.write_min {
                self.write_min = start + i;
            }
            if start + i > self.write_max {
                self.write_max = start + i;
            }
            i = i + 1;
        }
        assert(self.data@ =~= overlay(old(self).data@, offset as int, buf@));
        Ok(())
    }

    /// A write made by the controller. FORMAT TRACK never overwrites a
    /// protected sector; WRITE DATA may, and says so.
    pub fn write_controller_sector(&mut self, offset: u64, buf: &[u8], source: ControllerWriteSource)
        -> (r: Result<ControllerWriteOutcome, HdError>)
        requires
            old(self).wf(),
        ensures
            final(self).wf(),
            ({
                let prot = touches_protected(offset as int, buf@.len() as int);
                let fits = offset as int + buf@.len() <= DATA_SIZE;
                if prot && source == ControllerWriteSource::FormatTrack {
                    *final(self) == *old(self) && r == Ok::<ControllerWriteOutcome, HdError>(
                        ControllerWriteOutcome::PreservedProtectedSector)
                } else if !fits {
                    *final(self) == *old(self) && r == Err::<ControllerWriteOutcome, HdError>(HdError::OutOfRange)
                } else {
                    &&& final(self).data@ == overlay(old(self).data@, offset as int, buf@)
                    &&& r == Ok::<ControllerWriteOutcome, HdError>(if prot {
                        ControllerWriteOutcome::AppliedProtectedSector
                    } else {
                        ControllerWriteOutcome::Applied
                    })
                }
            }),
            final(self).formatted_tracks == old(self).formatted_tracks,
    {
        if overlaps_protected(offset, buf.len()) {
            if source == ControllerWriteSource::FormatTrack {
                return Ok(ControllerWriteOutcome::PreservedProtectedSector);
            }
            match self.write_at(offset, buf) {
                Ok(()) => Ok(ControllerWriteOutcome::AppliedProtectedSector),
                Err(e) => Err(e),
            }
        } else {
            match self.write_at(offset, buf) {
                Ok(()) => Ok(ControllerWriteOutcome::Applied),
                Err(e) => Err(e),
            }
        }
    }

    /// Hands out the dirty range of the payload and empties it.
    pub fn take_dirty_range(&mut self) -> (r: Option<(usize, usize)>)
        ensures
            r == if old(self).write_min <= old(self).write_max {
                Some((old(self).write_min, old(self).write_max))
            } else {
                None::<(usize, usize)>
            },
            *final(self) == (HardDiskImage { write_min: usize::MAX, write_max: 0, ..*old(self) }),
    {
        let r = if self.write_min <= self.write_max { Some((self.write_min, self.write_max)) } else { None };
        self.write_min = usize::MAX;
        self.write_max = 0;
        r
    }
}

/// 16-bit wrapping sum of bytes.
pub open spec fn sum16(s: Seq<u8>) -> nat
    decreases s.len(),
{
    if s.len() == 0 { 0 } else { ((sum16(s.drop_last()) + s.last()) % 65536) as nat }
}

/// Little-endian 16-bit value at `i`.
pub open spec fn le16(s: Seq<u8>, i: int) -> nat {
    (s[i] + s[i + 1] * 256) as nat
}

pub fn checksum16(bytes: &[u8], len: usize) -> (r: u16)
    requires
        len <= bytes@.len(),
    ensures
        r == sum16(bytes@.subrange(0, len as int)),
{
    let mut acc: u16 = 0;
    let mut i: usize = 0;
    while i < len
        invariant
            i <= len <= bytes@.len(),
            acc == sum16(bytes@.subrange(0, i as int)),
        decreases len - i,
    {
        assert(bytes@.subrange(0, i + 1).drop_last() =~= bytes@.subrange(0, i as int));
        acc = acc.wrapping_add(bytes[i] as u16);
        i = i + 1;
    }
    acc
}

/// A Kaypro 10 boot sector: not blank (all 0x00 or all 0xFF), bytes 126-127
/// hold the sum of bytes 0-125, and the count of further 128-byte records
/// at bytes 6-7 is between 1 and 511.
pub open spec fn boot_sector_ok(s: Seq<u8>) -> bool {
    &&& s.len() >= 128
    &&& !(forall|i: int| 0 <= i < s.len() ==> s[i] == 0)
    &&& !(forall|i: int| 0 <= i < s.len() ==> s[i] == 0xFF)
    &&& sum16(s.subrange(0, 126)) == le16(s, 126)
    &&& 0 < le16(s, 6) < 512
}

/// A defect-map sector: not all zero, and bytes 510-511 hold the sum of
/// bytes 0-509.
pub open spec fn defect_sector_ok(s: Seq<u8>) -> bool {
    &&& s.len() >= 512
    &&& !(forall|i: int| 0 <= i < s.len() ==> s[i] == 0)
    &&& sum16(s.subrange(0, 510)) == le16(s, 510)
}

fn all_equal(buf: &[u8], v: u8) -> (r: bool)
    ensures
        r == forall|i: int| 0 <= i < buf@.len() ==> buf@[i] == v,
{
    let mut i: usize = 0;
    while i < buf.len()
        invariant
            i <= buf@.len(),
            forall|k: int| 0 <= k < i ==> buf@[k] == v,
        decreases buf@.len() - i,
    {
        if buf[i] != v {
            return false;
        }
        i = i + 1;
    }
    true
}

pub fn has_valid_k10_boot_sector(buf: &[u8]) -> (r: bool)
    ensures
        r == boot_sector_ok(buf@),
{
    if buf.len() < 128 {
        return false;
    }
    if all_equal(buf, 0x00) || all_equal(buf, 0xFF) {
        return false;
    }
    let sum = checksum16(buf, 126);
    let stored = buf[126] as u16 + buf[127] as u16 * 256;
    if sum != stored {
        return false;
    }
    let count = buf[6] as u16 + buf[7] as u16 * 256;
    count > 0 && count < 512
}

pub fn has_valid_k10_defect_sector(buf: &[u8]) -> (r: bool)
    ensures
        r == defect_sector_ok(buf@),
{
    if buf.len() < 512 {
        return false;
    }
    if all_equal(buf, 0x00) {
        return false;
    }
    let sum = checksum16(buf, 510);
    let stored = buf[510] as u16 + buf[511] as u16 * 256;
    sum == stored
}

/// Byte offset of a logical 128-byte record of the 128-byte mode in a track.
pub fn k10_logical_offset(track_base: u64, logical: usize) -> (r: Option<u64>)
    requires
        track_base <= DATA_SIZE,
    ensures
        logical < LOGICALS_PER_TRACK <==> r.is_some(),
        r.is_some() ==> r.unwrap() == track_base + (crate::wd1002::interleave(logical as int / 4) - 1) * 512
            + (logical as int % 4) * 128,
{
    if logical >= LOGICALS_PER_TRACK {
        return None;
    }
    let table: [u64; 16] = [1, 6, 11, 16, 4, 9, 14, 2, 7, 12, 17, 5, 10, 15, 3, 8];
    let phys = table[logical / 4];
    proof {
        assert(table@ =~= seq![1u64, 6, 11, 16, 4, 9, 14, 2, 7, 12, 17, 5, 10, 15, 3, 8]);
        assert(phys as int == crate::wd1002::interleave(logical as int / 4));
    }
    Some(track_base + (phys - 1) * 512 + (logical % 4) as u64 * 128)
}

/// The 14 sectors of 512 bytes that bootstrap a Kaypro 10 from its hard
/// disk, taken from a floppy image: its sectors 0-9 (track 0, side 0), then
/// 14, 15, 18 and 19 (track 0, side 1).
pub open spec fn boot_payload_source(k: int) -> int {
    if k < 10 { k } else if k == 10 { 14 } else if k == 11 { 15 } else if k == 12 { 18 } else { 19 }
}

pub fn build_putsysu_boot_payload(floppy: &[u8]) -> (r: Result<Vec<u8>, HdError>)
    ensures
        floppy@.len() >= 20 * 512 <==> r.is_ok(),
        r.is_ok() ==> r.unwrap()@.len() == 14 * 512 && forall|i: int| 0 <= i < 14 * 512 ==>
            #[trigger] r.unwrap()@[i] == floppy@[boot_payload_source(i / 512) * 512 + i % 512],
        r.is_err() ==> r == Err::<Vec<u8>, HdError>(HdError::FloppyTooSmall),
{
    if floppy.len() < 20 * 512 {
        return Err(HdError::FloppyTooSmall);
    }
    let mut payload: Vec<u8> = Vec::new();
    let mut i: usize = 0;
    while i < 14 * 512
        invariant
            i <= 14 * 512,
            floppy@.len() >= 20 * 512,
            payload@.len() == i,
            forall|k: int| 0 <= k < i ==> #[trigger] payload@[k] == floppy@[boot_payload_source(k / 512) * 512 + k % 512],
        decreases 14 * 512 - i,
    {
        let k = i / 512;
        let src = if k < 10 { k } else if k == 10 { 14 } else if k == 11 { 15 } else if k == 12 { 18 } else { 19 };
        payload.push(floppy[src * 512 + i % 512]);
        i = i + 1;
    }
    Ok(payload)
}

/// The 128-byte header after the payload: the geometry text and the
/// formatted flag, null-padded.
pub fn header_bytes(formatted: bool) -> (r: Vec<u8>)
    ensures
        r@.len() == HEADER_SIZE,
        r@[20] == if formatted { 0x31u8 } else { 0x30u8 },
        r@.subrange(16, 20) == seq![0x66u8, 0x6Du8, 0x74u8, 0x3Du8],
{
    let text: [u8; 22] = [
        0x33, 0x30, 0x36, 0x63, 0x34, 0x68, 0x35, 0x31, 0x32, 0x7A, 0x31, 0x37, 0x70, 0x31, 0x6C, 0x0A,
        0x66, 0x6D, 0x74, 0x3D, 0x30, 0x0A,
    ];
    let mut out: Vec<u8> = Vec::new();
    let mut i: usize = 0;
    while i < 128
        invariant
            i <= 128,
            out@.len() == i,
            forall|k: int| 0 <= k < i && k < 22 && k != 20 ==> out@[k] == text@[k],
            i > 20 ==> out@[20] == if formatted { 0x31u8 } else { 0x30u8 },
        decreases 128 - i,
    {
        let b = if i == 20 {
            if formatted { 0x31u8 } else { 0x30u8 }
        } else if i < 22 {
            text[i]
        } else {
            0u8
        };
        out.push(b);
        i = i + 1;
    }
    assert(out@.subrange(16, 20) =~= seq![0x66u8, 0x6Du8, 0x74u8, 0x3Du8]);
    out
}

pub open spec fn is_space_spec(b: u8) -> bool {
    b == 0x20 || b == 0x09 || b == 0x0A || b == 0x0D || b == 0x0C
}

/// End of the header text: the first null byte at or after `i`, or the end.
pub open spec fn text_end(h: Seq<u8>, i: int) -> int
    decreases h.len() - i,
{
    if i >= h.len() || i < 0 || h[i] == 0 { i } else { text_end(h, i + 1) }
}

/// End of the line that starts at `i`: the next line feed before `end`, or `end`.
pub open spec fn line_end(h: Seq<u8>, i: int, end: int) -> int
    decreases end - i,
{
    if i >= end || h[i] == 0x0A { i } else { line_end(h, i + 1, end) }
}

/// First position in `[a, b)` that is not white space, or `b`.
pub open spec fn trim_start(h: Seq<u8>, a: int, b: int) -> int
    decreases b - a,
{
    if a < b && is_space_spec(h[a]) { trim_start(h, a + 1, b) } else { a }
}

/// End of `[a, b)` without its trailing white space.
pub open spec fn trim_end(h: Seq<u8>, a: int, b: int) -> int
    decreases b - a,
{
    if b > a && is_space_spec(h[b - 1]) { trim_end(h, a, b - 1) } else { b }
}

/// The flag of the first `fmt=` line among the lines from `start` to `end`.
pub open spec fn flag_from(h: Seq<u8>, start: int, end: int) -> Option<bool>
    decreases end - start,
{
    if start >= end {
        None
    } else {
        let le = line_end(h, start, end);
        if le - start >= 4 && h[start] == 0x66 && h[start + 1] == 0x6D && h[start + 2] == 0x74 && h[start + 3] == 0x3D {
            let a = trim_start(h, start + 4, le);
            let b = trim_end(h, a, le);
            if b == a + 1 && h[a] == 0x31 {
                Some(true)
            } else if b == a + 1 && h[a] == 0x30 {
                Some(false)
            } else {
                None
            }
        } else if start <= le && le < end {
            flag_from(h, le + 1, end)
        } else {
            None
        }
    }
}

/// The `fmt=` flag of a header: its text runs to the first null byte and
/// must be ASCII.
pub open spec fn format_flag(h: Seq<u8>) -> Option<bool> {
    let e = text_end(h, 0);
    if exists|i: int| 0 <= i < e && h[i] >= 0x80 { None } else { flag_from(h, 0, e) }
}

fn is_space(b: u8) -> (r: bool)
    ensures
        r == is_space_spec(b),
{
    b == 0x20 || b == 0x09 || b == 0x0A || b == 0x0D || b == 0x0C
}

/// The formatted flag of a header: the first line of its text (up to the
/// first null byte) that starts with `fmt=` decides, `1` or `0` after
/// trimming white space; any other value, no such line, or text that is not
/// ASCII gives `None`.
pub fn parse_format_flag(hdr: &[u8]) -> (r: Option<bool>)
    ensures
        r == format_flag(hdr@),
{
    let ghost h = hdr@;
    let mut end: usize = 0;
    while end < hdr.len() && hdr[end] != 0
        invariant
            end <= hdr@.len(),
            h == hdr@,
            text_end(h, 0) == text_end(h, end as int),
            forall|k: int| 0 <= k < end ==> h[k] < 0x80,
        decreases hdr@.len() - end,
    {
        if hdr[end] >= 0x80 {
            proof {
                assert(text_end(h, end as int) == text_end(h, end + 1));
                lemma_text_end_after(h, end as int + 1);
            }
            return None;
        }
        end = end + 1;
    }
    assert(text_end(h, end as int) == end);
    let mut start: usize = 0;
    while start < end
        invariant
            start <= end <= hdr@.len(),
            h == hdr@,
            end == text_end(h, 0),
            forall|k: int| 0 <= k < end ==> h[k] < 0x80,
            flag_from(h, 0, end as int) == flag_from(h, start as int, end as int),
        decreases end - start,
    {
        let mut le = start;
        while le < end && hdr[le] != 0x0A
            invariant
                start <= le <= end <= hdr@.len(),
                h == hdr@,
                line_end(h, start as int, end as int) == line_end(h, le as int, end as int),
            decreases end - le,
        {
            le = le + 1;
        }
        if le - start >= 4 && hdr[start] == 0x66 && hdr[start + 1] == 0x6D && hdr[start + 2] == 0x74
            && hdr[start + 3] == 0x3D
        {
            let mut a = start + 4;
            while a < le && is_space(hdr[a])
                invariant
                    start + 4 <= a <= le <= end <= hdr@.len(),
                    h == hdr@,
                    trim_start(h, start + 4, le as int) == trim_start(h, a as int, le as int),
                decreases le - a,
            {
                a = a + 1;
            }
            let mut b = le;
            while b > a && is_space(hdr[b - 1])
                invariant
                    a <= b <= le <= end <= hdr@.len(),
                    h == hdr@,
                    trim_end(h, a as int, le as int) == trim_end(h, a as int, b as int),
                decreases b - a,
            {
                b = b - 1;
            }
            if b > a && b - a == 1 && hdr[a] == 0x31 {
                return Some(true);
            } else if b > a && b - a == 1 && hdr[a] == 0x30 {
                return Some(false);
            } else {
                return None;
            }
        }
        proof {
            lemma_line_end_after(h, start as int, end as int);
        }
        start = if le < end { le + 1 } else { end };
    }
    None
}

/// A position before the text end that is not null keeps the same text end.
proof fn lemma_line_end_after(h: Seq<u8>, i: int, end: int)
    ensures
        line_end(h, i, end) >= i,
        i <= end ==> line_end(h, i, end) <= end,
    decreases end - i,
{
    if i < end && h[i] != 0x0A {
        lemma_line_end_after(h, i + 1, end);
    }
}

proof fn lemma_text_end_after(h: Seq<u8>, i: int)
    requires
        0 <= i,
    ensures
        text_end(h, i) >= i,
    decreases h.len() - i,
{
    if i < h.len() && h[i] != 0 {
        lemma_text_end_after(h, i + 1);
    }
}

/// Value of the first `k` bits of map byte `j`: bit `b` is set when track
/// `8 j + b` exists and is formatted.
pub open spec fn map_bits(tracks: Seq<bool>, j: int, k: int) -> int
    decreases k,
{
    if k <= 0 {
        0
    } else {
        map_bits(tracks, j, k - 1) + if 8 * j + k - 1 < tracks.len() && tracks[8 * j + k - 1] {
            seq![1int, 2, 4, 8, 16, 32, 64, 128][k - 1]
        } else {
            0
        }
    }
}

/// The formatted-track map file: the magic `K10FMTM1`, then one bit per
/// track, least significant bit first.
pub fn encode_track_map(tracks: &Vec<bool>) -> (r: Vec<u8>)
    requires
        tracks@.len() <= TRACK_COUNT,
    ensures
        r@.len() == 8 + (tracks@.len() + 7) / 8,
        has_map_magic(r@),
        forall|j: int| 0 <= j < (tracks@.len() + 7) / 8 ==> #[trigger] r@[8 + j] == map_bits(tracks@, j, 8),
{
    let mut out: Vec<u8> = Vec::new();
    out.push(0x4B);
    out.push(0x31);
    out.push(0x30);
    out.push(0x46);
    out.push(0x4D);
    out.push(0x54);
    out.push(0x4D);
    out.push(0x31);
    assert(out@ =~= seq![0x4Bu8, 0x31, 0x30, 0x46, 0x4D, 0x54, 0x4D, 0x31]);
    let n = tracks.len();
    let nbytes = (n + 7) / 8;
    assert(nbytes <= 154);
    let mut i: usize = 0;
    while i < nbytes
        invariant
            i <= nbytes,
            nbytes == (n + 7) / 8,
            nbytes <= 154,
            n == tracks@.len(),
            n <= TRACK_COUNT,
            out@.len() == 8 + i,
            out@.subrange(0, 8) == seq![0x4Bu8, 0x31, 0x30, 0x46, 0x4D, 0x54, 0x4D, 0x31],
            forall|j: int| 0 <= j < i ==> #[trigger] out@[8 + j] == map_bits(tracks@, j, 8),
        decreases nbytes - i,
    {
        let weights: [u16; 9] = [1, 2, 4, 8, 16, 32, 64, 128, 256];
        assert(weights@ =~= seq![1u16, 2, 4, 8, 16, 32, 64, 128, 256]);
        let mut byte: u16 = 0;
        let mut bit: usize = 0;
        while bit < 8
            invariant
                bit <= 8,
                weights@ == seq![1u16, 2, 4, 8, 16, 32, 64, 128, 256],
                byte < weights@[bit as int],
                byte == map_bits(tracks@, i as int, bit as int),
                i < nbytes,
                nbytes <= 154,
                n == tracks@.len(),
            decreases 8 - bit,
        {
            let t = i * 8 + bit;
            if t < n && tracks[t] {
                byte = byte + weights[bit];
            }
            bit = bit + 1;
        }
        let ghost before = out@;
        out.push(byte as u8);
        assert(out@.subrange(0, 8) =~= before.subrange(0, 8));
        i = i + 1;
    }
    out
}

/// Bit `k` (0 = least significant) of a byte.
pub open spec fn bit_of(b: u8, k: int) -> bool {
    (b as int / seq![1int, 2, 4, 8, 16, 32, 64, 128][k]) % 2 == 1
}

/// Whether a map file holds the magic `K10FMTM1`.
pub open spec fn has_map_magic(bytes: Seq<u8>) -> bool {
    bytes.len() >= 8 && bytes.subrange(0, 8) == seq![0x4Bu8, 0x31, 0x30, 0x46, 0x4D, 0x54, 0x4D, 0x31]
}

/// The formatted flags of a track-map file, or `None` without the magic;
/// tracks past the end of the file are not formatted.
pub fn decode_track_map(bytes: &[u8]) -> (r: Option<Vec<bool>>)
    ensures
        has_map_magic(bytes@) <==> r.is_some(),
        r.is_some() ==> r.unwrap()@.len() == TRACK_COUNT && forall|i: int| 0 <= i < TRACK_COUNT ==>
            #[trigger] r.unwrap()@[i] == (8 + i / 8 < bytes@.len() && bit_of(bytes@[8 + i / 8], i % 8)),
{
    if bytes.len() < 8 || bytes[0] != 0x4B || bytes[1] != 0x31 || bytes[2] != 0x30 || bytes[3] != 0x46
        || bytes[4] != 0x4D || bytes[5] != 0x54 || bytes[6] != 0x4D || bytes[7] != 0x31
    {
        proof {
            if bytes@.len() >= 8 {
                if has_map_magic(bytes@) {
                    assert(bytes@.subrange(0, 8)[0] == bytes@[0]);
                    assert(bytes@.subrange(0, 8)[1] == bytes@[1]);
                    assert(bytes@.subrange(0, 8)[2] == bytes@[2]);
                    assert(bytes@.subrange(0, 8)[3] == bytes@[3]);
                    assert(bytes@.subrange(0, 8)[4] == bytes@[4]);
                    assert(bytes@.subrange(0, 8)[5] == bytes@[5]);
                    assert(bytes@.subrange(0, 8)[6] == bytes@[6]);
                    assert(bytes@.subrange(0, 8)[7] == bytes@[7]);
                }
            }
        }
        return None;
    }
    assert(bytes@.subrange(0, 8) =~= seq![0x4Bu8, 0x31, 0x30, 0x46, 0x4D, 0x54, 0x4D, 0x31]);
    let weights: [u8; 8] = [1, 2, 4, 8, 16, 32, 64, 128];
    assert(weights@ =~= seq![1u8, 2, 4, 8, 16, 32, 64, 128]);
    let mut out: Vec<bool> = Vec::new();
    let mut i: usize = 0;
    while i < TRACK_COUNT
        invariant
            i <= TRACK_COUNT,
            out@.len() == i,
            bytes@.len() >= 8,
            weights@ == seq![1u8, 2, 4, 8, 16, 32, 64, 128],
            forall|k: int| 0 <= k < i ==> #[trigger] out@[k] == (8 + k / 8 < bytes@.len() && bit_of(bytes@[8 + k / 8], k % 8)),
        decreases TRACK_COUNT - i,
    {
        let b = 8 + i / 8;
        let v = if b < bytes.len() { (bytes[b] / weights[i % 8]) % 2 == 1 } else { false };
        out.push(v);
        i = i + 1;
    }
    Some(out)
}

proof fn lemma_byte_bits(c0: bool, c1: bool, c2: bool, c3: bool, c4: bool, c5: bool, c6: bool, c7: bool)
    ensures
        ({
            let v = ((if c0 { 1int } else { 0 }) + (if c1 { 2int } else { 0 }) + (if c2 { 4int } else { 0 })
                + (if c3 { 8int } else { 0 }) + (if c4 { 16int } else { 0 }) + (if c5 { 32int } else { 0 })
                + (if c6 { 64int } else { 0 }) + (if c7 { 128int } else { 0 })) as u8;
            &&& bit_of(v, 0) == c0
            &&& bit_of(v, 1) == c1
            &&& bit_of(v, 2) == c2
            &&& bit_of(v, 3) == c3
            &&& bit_of(v, 4) == c4
            &&& bit_of(v, 5) == c5
            &&& bit_of(v, 6) == c6
            &&& bit_of(v, 7) == c7
        }),
{
    let a0: u8 = if c0 { 1 } else { 0 };
    let a1: u8 = if c1 { 2 } else { 0 };
    let a2: u8 = if c2 { 4 } else { 0 };
    let a3: u8 = if c3 { 8 } else { 0 };
    let a4: u8 = if c4 { 16 } else { 0 };
    let a5: u8 = if c5 { 32 } else { 0 };
    let a6: u8 = if c6 { 64 } else { 0 };
    let a7: u8 = if c7 { 128 } else { 0 };
    let v: u8 = (a0 + a1 + a2 + a3 + a4 + a5 + a6 + a7) as u8;
    assert(((v / 1) % 2 == 1) == (a0 == 1) && ((v / 2) % 2 == 1) == (a1 == 2) && ((v / 4) % 2 == 1) == (a2 == 4)
        && ((v / 8) % 2 == 1) == (a3 == 8) && ((v / 16) % 2 == 1) == (a4 == 16) && ((v / 32) % 2 == 1) == (a5 == 32)
        && ((v / 64) % 2 == 1) == (a6 == 64) && ((v / 128) % 2 == 1) == (a7 == 128)) by (bit_vector)
        requires
            a0 == 0 || a0 == 1, a1 == 0 || a1 == 2, a2 == 0 || a2 == 4, a3 == 0 || a3 == 8,
            a4 == 0 || a4 == 16, a5 == 0 || a5 == 32, a6 == 0 || a6 == 64, a7 == 0 || a7 == 128,
            v == a0 + a1 + a2 + a3 + a4 + a5 + a6 + a7;
}

/// Decoding an encoded formatted-track map gives back every track's flag.
pub proof fn lemma_track_map_round_trip(tracks: Seq<bool>, bytes: Seq<u8>)
    requires
        tracks.len() == TRACK_COUNT,
        bytes.len() == 8 + (tracks.len() + 7) / 8,
        forall|j: int| 0 <= j < (tracks.len() + 7) / 8 ==> #[trigger] bytes[8 + j] == map_bits(tracks, j, 8),
    ensures
        forall|i: int| 0 <= i < TRACK_COUNT ==>
            (8 + i / 8 < bytes.len() && bit_of(#[trigger] bytes[8 + i / 8], i % 8)) == tracks[i],
{
    assert forall|i: int| 0 <= i < TRACK_COUNT implies
        (8 + i / 8 < bytes.len() && bit_of(#[trigger] bytes[8 + i / 8], i % 8)) == tracks[i] by {
        let j = i / 8;
        reveal_with_fuel(map_bits, 9);
        let c = |b: int| 8 * j + b < tracks.len() && tracks[8 * j + b];
        assert(map_bits(tracks, j, 8) == (if c(0) { 1int } else { 0 }) + (if c(1) { 2int } else { 0 })
            + (if c(2) { 4int } else { 0 }) + (if c(3) { 8int } else { 0 }) + (if c(4) { 16int } else { 0 })
            + (if c(5) { 32int } else { 0 }) + (if c(6) { 64int } else { 0 }) + (if c(7) { 128int } else { 0 }));
        lemma_byte_bits(c(0), c(1), c(2), c(3), c(4), c(5), c(6), c(7));
        assert(bytes[8 + j] == map_bits(tracks, j, 8));
    }
}

/// A Kaypro 10 slot (cylinder 0, head 0 or 1) boots: its boot record and
/// its defect-map sector 16 are both valid.
pub open spec fn slot_bootable(data: Seq<u8>, base: int) -> bool {
    boot_sector_ok(data.subrange(base, base + 128)) && defect_sector_ok(data.subrange(base + 8192, base + 8704))
}

/// Whether the ROM would boot the image from either slot.
pub fn is_kaypro10_bootable(hd: &HardDiskImage) -> (r: bool)
    requires
        hd.wf(),
    ensures
        r == (slot_bootable(hd.data@, 0) || slot_bootable(hd.data@, SLOT1_TRACK0_BASE as int)),
{
    let boot0 = hd.read_at(0, 128).unwrap();
    let boot1 = hd.read_at(SLOT1_TRACK0_BASE, 128).unwrap();
    let map0 = hd.read_at(8192, 512).unwrap();
    let map1 = hd.read_at(SLOT1_TRACK0_BASE + 8192, 512).unwrap();
    let ok0 = has_valid_k10_boot_sector(boot0.as_slice()) && has_valid_k10_defect_sector(map0.as_slice());
    let ok1 = has_valid_k10_boot_sector(boot1.as_slice()) && has_valid_k10_defect_sector(map1.as_slice());
    ok0 || ok1
}

/// Rewrites the boot record at `off` into the hard-disk bootstrap header
/// (bytes 0-7) with its checksum recomputed.
fn patch_k10_boot_header(hd: &mut HardDiskImage, off: u64)
    requires
        old(hd).wf(),
        off + 128 <= DATA_SIZE,
    ensures
        final(hd).wf(),
        final(hd).formatted_tracks == old(hd).formatted_tracks,
        final(hd).map_dirty == old(hd).map_dirty,
        boot_sector_ok(final(hd).data@.subrange(off as int, off + 128)),
        forall|i: int| 0 <= i < DATA_SIZE && !(off <= i < off + 128) ==> final(hd).data@[i] == old(hd).data@[i],
        forall|i: int| off + 8 <= i < off + 126 ==> final(hd).data@[i] == old(hd).data@[i],
{
    let mut boot = hd.read_at(off, 128).unwrap();
    boot.set(0, 0x18);
    boot.set(1, 0xFE);
    boot.set(2, 0x00);
    boot.set(3, 0xDE);
    boot.set(4, 0x00);
    boot.set(5, 0xF4);
    boot.set(6, 0x34);
    boot.set(7, 0x00);
    let sum = checksum16(boot.as_slice(), 126);
    let ghost head = boot@;
    boot.set(126, (sum % 256) as u8);
    boot.set(127, (sum / 256) as u8);
    proof {
        assert(boot@.subrange(0, 126) =~= head.subrange(0, 126));
        assert(boot@[0] != 0 && boot@[2] != 0xFF);
        assert(le16(boot@, 6) == 0x34);
    }
    let _ = hd.write_at(off, boot.as_slice());
    proof {
        assert(hd.data@.subrange(off as int, off + 128) =~= boot@);
    }
}

/// Payload sector shown at sector `s` of the head-1 window: sectors 4-7
/// repeat payload sectors 10-13, where the ROM fetches them.
pub open spec fn slot1_sector_source(s: int) -> int {
    if 4 <= s < 8 { s + 6 } else { s }
}

/// Byte `i` of the bootstrap window of a slot (0: head 0, 1: head 1) seeded
/// from a floppy image.
pub open spec fn seeded_byte(floppy: Seq<u8>, slot: int, i: int) -> u8 {
    let s = if slot == 0 { i / 512 } else { slot1_sector_source(i / 512) };
    floppy[boot_payload_source(s) * 512 + i % 512]
}

/// Lays the 14-sector bootstrap window on heads 0 and 1 of cylinder 0, with
/// head 1 sectors 4-7 holding payload sectors 10-13.
fn laydown_putsysu_boot_window(hd: &mut HardDiskImage, payload: &Vec<u8>)
    requires
        old(hd).wf(),
        payload@.len() == 14 * 512,
    ensures
        final(hd).wf(),
        final(hd).formatted_tracks == old(hd).formatted_tracks,
        final(hd).map_dirty == old(hd).map_dirty,
        forall|i: int| 0 <= i < 7168 ==> #[trigger] final(hd).data@[i] == payload@[i],
        forall|i: int| 0 <= i < 7168 ==> #[trigger] final(hd).data@[8704 + i]
            == payload@[slot1_sector_source(i / 512) * 512 + i % 512],
{
    let mut window1: Vec<u8> = Vec::new();
    let mut i: usize = 0;
    while i < 7168
        invariant
            i <= 7168,
            payload@.len() == 14 * 512,
            window1@.len() == i,
            forall|k: int| 0 <= k < i ==> #[trigger] window1@[k] == payload@[slot1_sector_source(k / 512) * 512 + k % 512],
        decreases 7168 - i,
    {
        let sec = i / 512;
        let src = if 4 <= sec && sec < 8 { sec + 6 } else { sec };
        window1.push(payload[src * 512 + i % 512]);
        i = i + 1;
    }
    let _ = hd.write_at(0, payload.as_slice());
    let _ = hd.write_at(SLOT1_TRACK0_BASE, window1.as_slice());
}

/// Makes the image a bootable Kaypro 10 disk from a Kaypro 10 floppy image:
/// unless both slots already hold valid boot records, lays down the
/// bootstrap window from the floppy on heads 0 and 1 and patches both boot
/// headers; then writes a valid defect map (the boot record in front, its
/// checksum at the end) to sector 16 of both slots and marks the first two
/// heads of cylinders 0 and 1 formatted.
pub fn seed_kaypro10_from_floppy(hd: &mut HardDiskImage, floppy: &[u8]) -> (r: Result<(), HdError>)
    requires
        old(hd).wf(),
    ensures
        final(hd).wf(),
        ({
            let both = boot_sector_ok(old(hd).data@.subrange(0, 128))
                && boot_sector_ok(old(hd).data@.subrange(8704, 8832));
            &&& r.is_ok() == (floppy@.len() >= 20 * 512 || (floppy@.len() >= 128 && both))
            &&& r.is_err() ==> r == Err::<(), HdError>(HdError::FloppyTooSmall) && *final(hd) == *old(hd)
            &&& (r.is_ok() && !both) ==> forall|i: int| (8 <= i < 126 || 128 <= i < 7168) ==>
                #[trigger] final(hd).data@[i] == seeded_byte(floppy@, 0, i)
                    && final(hd).data@[8704 + i] == seeded_byte(floppy@, 1, i)
        }),
        r.is_ok() ==> final(hd).formatted_tracks@[0] && final(hd).formatted_tracks@[1]
            && final(hd).formatted_tracks@[4] && final(hd).formatted_tracks@[5],
        r.is_ok() ==> slot_bootable(final(hd).data@, 0) && slot_bootable(final(hd).data@, SLOT1_TRACK0_BASE as int),
{
    if floppy.len() < 128 {
        return Err(HdError::FloppyTooSmall);
    }
    let boot0 = hd.read_at(0, 128).unwrap();
    let boot1 = hd.read_at(SLOT1_TRACK0_BASE, 128).unwrap();
    if !has_valid_k10_boot_sector(boot0.as_slice()) || !has_valid_k10_boot_sector(boot1.as_slice()) {
        let payload = match build_putsysu_boot_payload(floppy) {
            Ok(p) => p,
            Err(e) => {
                return Err(e);
            },
        };
        laydown_putsysu_boot_window(hd, &payload);
        let ghost laid = hd.data@;
        patch_k10_boot_header(hd, 0);
        let ghost mid = hd.data@;
        patch_k10_boot_header(hd, SLOT1_TRACK0_BASE);
        proof {
            assert(hd.data@.subrange(0, 128) =~= mid.subrange(0, 128));
            assert forall|i: int| (8 <= i < 126 || 128 <= i < 7168) implies
                #[trigger] hd.data@[i] == seeded_byte(floppy@, 0, i)
                    && hd.data@[8704 + i] == seeded_byte(floppy@, 1, i) by {
                assert(laid[i] == payload@[i]);
                assert(laid[8704 + i] == payload@[slot1_sector_source(i / 512) * 512 + i % 512]);
                let s1 = slot1_sector_source(i / 512);
                assert(0 <= s1 < 14);
                assert((s1 * 512 + i % 512) / 512 == s1 && (s1 * 512 + i % 512) % 512 == i % 512) by (nonlinear_arith)
                    requires 0 <= s1, 0 <= i;
                assert(0 <= s1 * 512 + i % 512 < 7168) by (nonlinear_arith)
                    requires 0 <= s1 < 14, 0 <= i;
            }
        }
    }
    let ghost seeded = hd.data@;
    assert(boot_sector_ok(seeded.subrange(0, 128)));
    assert(boot_sector_ok(seeded.subrange(8704, 8832)));
    let header = hd.read_at(0, 128).unwrap();
    let mut defect: Vec<u8> = Vec::new();
    let mut i: usize = 0;
    while i < 512
        invariant
            i <= 512,
            header@.len() == 128,
            defect@.len() == i,
            forall|k: int| 0 <= k < i && k < 128 ==> defect@[k] == header@[k],
        decreases 512 - i,
    {
        defect.push(if i < 128 { header[i] } else { 0 });
        i = i + 1;
    }
    let sum = checksum16(defect.as_slice(), 510);
    let lo = (sum % 256) as u8;
    let hi = (sum / 256) as u8;
    let ghost before = defect@;
    defect.set(510, lo);
    defect.set(511, hi);
    assert(defect@.subrange(0, 510) =~= before.subrange(0, 510));
    proof {
        let h = seeded.subrange(0, 128);
        assert(!(forall|k: int| 0 <= k < h.len() ==> h[k] == 0));
        let k = choose|k: int| 0 <= k < h.len() && h[k] != 0;
        assert(header@ == seeded.subrange(0, 128));
        assert(defect@[k] == header@[k]);
        assert(defect@[k] != 0);
    }
    let _ = hd.write_at(8192, defect.as_slice());
    let ghost one = hd.data@;
    proof {
        assert(one.subrange(8192, 8704) =~= defect@);
    }
    let _ = hd.write_at(SLOT1_TRACK0_BASE + 8192, defect.as_slice());
    proof {
        assert(hd.data@.subrange(16896int, 17408int) =~= defect@);
        assert(hd.data@.subrange(8192, 8704) =~= defect@);
        assert(hd.data@.subrange(0, 128) =~= seeded.subrange(0, 128));
        assert(hd.data@.subrange(8704, 8832) =~= seeded.subrange(8704, 8832));
    }
    hd.set_track_formatted(0, 0, true);
    hd.set_track_formatted(0, 1, true);
    hd.set_track_formatted(1, 0, true);
    hd.set_track_formatted(1, 1, true);
    Ok(())
}

/// Whether any payload byte is non-zero (an image with data is taken for
/// formatted when its header has no flag).
pub fn detect_formatted_data(hd: &HardDiskImage) -> (r: bool)
    ensures
        r == exists|i: int| 0 <= i < hd.data@.len() && hd.data@[i] != 0,
{
    let mut i: usize = 0;
    while i < hd.data.len()
        invariant
            i <= hd.data@.len(),
            forall|k: int| 0 <= k < i ==> hd.data@[k] == 0,
        decreases hd.data@.len() - i,
    {
        if hd.data[i] != 0 {
            return true;
        }
        i = i + 1;
    }
    false
}

/// A WRITE DATA of a buffer that fits in the payload is read back unchanged.
pub proof fn lemma_write_then_read(data: Seq<u8>, off: int, buf: Seq<u8>)
    requires
        0 <= off,
        off + buf.len() <= data.len(),
    ensures
        overlay(data, off, buf).subrange(off, off + buf.len()) == buf,
        overlay(data, off, buf).len() == data.len(),
{
    assert(overlay(data, off, buf).subrange(off, off + buf.len()) =~= buf);
}

} // verus!
