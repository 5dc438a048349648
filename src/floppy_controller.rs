//! WD1793 floppy-disk controller as wired in the Kaypro: every transferred
//! byte and every completed command raises the NMI line.

use vstd::prelude::*;
use crate::media::{Media, TrackGeometry, MediaFormat, sector_size_for_code, size_for_code, slot_of, GEOMETRY_SLOTS, MAX_IMAGE_LEN};

verus! {

pub const STATUS_BUSY: u8 = 0x01;
pub const STATUS_DRQ: u8 = 0x02;
pub const STATUS_TRACK0: u8 = 0x04;
pub const STATUS_RNF: u8 = 0x10;
pub const STATUS_HEAD_LOADED: u8 = 0x20;
pub const STATUS_WRITE_PROTECTED: u8 = 0x40;

/// Bytes of a single-density WRITE TRACK stream.
pub const SD_TRACK_BYTES: usize = 3125;
/// Safety cap on a WRITE TRACK stream.
pub const WRITE_TRACK_CAP: usize = 12000;
/// Status polls without a data transfer after which a transfer is abandoned.
pub const ABANDON_POLLS: u8 = 10;
/// Status polls that READ ADDRESS stays busy.
pub const READ_ADDRESS_POLLS: u8 = 10;
/// Highest track the head reaches by stepping.
pub const LAST_TRACK: u8 = 39;

/// The two drives.
#[derive(PartialEq, Eq, Structural, Clone, Copy, Debug)]
pub enum Drive {
    A,
    B,
}

/// WD1793 status bits.
#[derive(PartialEq, Eq, Structural, Clone, Copy, Debug)]
pub enum FDCStatus {
    NotReady,
    WriteProtected,
    WriteFault,
    SeekErrorOrRecordNotFound,
    CRCError,
    LostDataOrTrack0,
    DataRequest,
    Busy,
    NoError,
}

impl FDCStatus {
    /// The bit of the status register.
    pub fn bits(self) -> (r: u8)
        ensures
            self == FDCStatus::Busy ==> r == STATUS_BUSY,
            self == FDCStatus::DataRequest ==> r == STATUS_DRQ,
            self == FDCStatus::LostDataOrTrack0 ==> r == STATUS_TRACK0,
            self == FDCStatus::SeekErrorOrRecordNotFound ==> r == STATUS_RNF,
            self == FDCStatus::WriteProtected ==> r == STATUS_WRITE_PROTECTED,
            self == FDCStatus::NoError ==> r == 0,
    {
        match self {
            FDCStatus::NotReady => 0x80,
            FDCStatus::WriteProtected => 0x40,
            FDCStatus::WriteFault => 0x20,
            FDCStatus::SeekErrorOrRecordNotFound => 0x10,
            FDCStatus::CRCError => 0x08,
            FDCStatus::LostDataOrTrack0 => 0x04,
            FDCStatus::DataRequest => 0x02,
            FDCStatus::Busy => 0x01,
            FDCStatus::NoError => 0x00,
        }
    }
}

/// Bytes of a drive's image that were written since its last flush, for the
/// host to store in the backing file.
pub struct FlushedRange {
    pub drive: u8,
    pub offset: usize,
    pub bytes: Vec<u8>,
}

pub struct FloppyController {
    pub motor_on: bool,
    pub drive: u8,
    pub side_2: bool,
    /// Track register, as software sees it.
    pub track: u8,
    /// Physical head position, moved by the type I commands.
    pub head_position: u8,
    /// Direction of the last STEP IN (1) or STEP OUT (-1).
    pub step_direction: i8,
    pub sector: u8,
    pub single_density: bool,
    pub data: u8,
    pub status: u8,
    pub media_a: Media,
    pub media_b: Media,
    /// Sector transfer cursor `[read_index, read_last)` into the selected image.
    pub read_index: usize,
    pub read_last: usize,
    /// ID field bytes returned by READ ADDRESS.
    pub data_buffer: Vec<u8>,
    pub write_track_active: bool,
    pub write_track_buffer: Vec<u8>,
    pub write_track_remaining: usize,
    pub write_track_drive: u8,
    pub write_track_side: bool,
    pub write_track_head: u8,
    pub multi_sector: bool,
    pub status_read_count: u32,
    pub status_polls_without_data: u8,
    pub read_address_countdown: u8,
    pub raise_nmi: bool,
    pub last_command: u8,
    pub last_command_count: u64,
    /// Flushed ranges of persistent images, waiting for the host.
    pub flushed: Vec<FlushedRange>,
}

/// Status of a type I command: the base bits with write-protect and head-loaded.
pub open spec fn type_i_status_spec(base: u8, write_protected: bool, motor_on: bool) -> u8 {
    (base as int + (if write_protected { 0x40int } else { 0int }) + (if motor_on { 0x20int } else { 0int })) as u8
}

/// Head position after one step in the given direction, within tracks 0 to 39.
pub open spec fn stepped(head: u8, inward: bool) -> u8 {
    if inward {
        if head < LAST_TRACK { (head + 1) as u8 } else { head }
    } else {
        if head > 0 { (head - 1) as u8 } else { head }
    }
}

/// Whether `buf[i..i + 4]` is three sync bytes and then the given mark.
fn is_mark(buf: &Vec<u8>, i: usize, sync: u8, mark: u8) -> (r: bool)
    requires
        i + 3 < buf@.len(),
        buf@.len() <= WRITE_TRACK_CAP,
    ensures
        r == (buf@[i as int] == sync && buf@[i + 1] == sync && buf@[i + 2] == sync && buf@[i + 3] == mark),
{
    buf[i] == sync && buf[i + 1] == sync && buf[i + 2] == sync && buf[i + 3] == mark
}

/// Whether `buf[i..i + 4]` is three sync bytes and a data address mark
/// (normal 0xFB or deleted 0xF8).
fn is_data_mark(buf: &Vec<u8>, i: usize, sync: u8) -> (r: bool)
    requires
        i + 3 < buf@.len(),
        buf@.len() <= WRITE_TRACK_CAP,
    ensures
        r == (buf@[i as int] == sync && buf@[i + 1] == sync && buf@[i + 2] == sync
            && (buf@[i + 3] == 0xFB || buf@[i + 3] == 0xF8)),
{
    buf[i] == sync && buf[i + 1] == sync && buf[i + 2] == sync && (buf[i + 3] == 0xFB || buf[i + 3] == 0xF8)
}

/// Start of the data field after the first data address mark (three sync
/// bytes, then 0xFB or 0xF8) at or after `i`; `i` itself when no mark fits.
pub open spec fn data_start_from(buf: Seq<u8>, sync: u8, i: int) -> int
    decreases buf.len() - i,
{
    if 0 <= i && i + 3 < buf.len() {
        if buf[i] == sync && buf[i + 1] == sync && buf[i + 2] == sync && (buf[i + 3] == 0xFB || buf[i + 3] == 0xF8) {
            i + 4
        } else {
            data_start_from(buf, sync, i + 1)
        }
    } else {
        i
    }
}

/// Position past an optional CRC marker (0xF7) at `i`.
pub open spec fn crc_skip(buf: Seq<u8>, i: int) -> int {
    if 0 <= i < buf.len() && buf[i] == 0xF7 { i + 1 } else { i }
}

/// The ID fields of a WRITE TRACK stream from position `i` on, as (sector
/// ID, length code, start of the data field): an ID field is three sync
/// bytes, 0xFE, track, head, sector, length code and a CRC marker; its data
/// field follows the next data address mark and runs for the sector size,
/// then a CRC marker. Bytes between fields are gaps.
pub open spec fn fields_from(buf: Seq<u8>, sync: u8, i: int) -> Seq<(u8, u8, usize)>
    decreases buf.len() + 65536 - i,
{
    if i < 0 || i + 3 >= buf.len() {
        Seq::empty()
    } else if buf[i] == sync && buf[i + 1] == sync && buf[i + 2] == sync && buf[i + 3] == 0xFE {
        let j = i + 4;
        if j + 4 >= buf.len() {
            Seq::empty()
        } else {
            let d = data_start_from(buf, sync, crc_skip(buf, j + 4));
            let next = crc_skip(buf, d + size_for_code(buf[j + 3]) as int);
            let rest = if i < next && next <= buf.len() + 65536 { fields_from(buf, sync, next) } else { Seq::empty() };
            seq![(buf[j + 2], buf[j + 3], d as usize)] + rest
        }
    } else {
        fields_from(buf, sync, i + 1)
    }
}

/// The ID fields of a whole stream.
pub open spec fn track_fields(buf: Seq<u8>, sync: u8) -> Seq<(u8, u8, usize)> {
    fields_from(buf, sync, 0)
}

/// Lowest sector ID of a list of fields (255 when empty).
pub open spec fn min_id_of(f: Seq<(u8, u8, usize)>) -> u8
    decreases f.len(),
{
    if f.len() == 0 {
        255
    } else {
        let m = min_id_of(f.drop_last());
        if f.last().0 < m { f.last().0 } else { m }
    }
}

/// Geometry a stream teaches: the length code of its first ID field, the
/// number of ID fields (at most 255) and the lowest sector ID.
pub open spec fn geometry_of(f: Seq<(u8, u8, usize)>) -> Option<TrackGeometry> {
    if f.len() == 0 {
        None
    } else {
        Some(TrackGeometry {
            n: f[0].1,
            sector_count: if f.len() < 255 { f.len() as u8 } else { 255u8 },
            sector_base: min_id_of(f),
        })
    }
}

/// Image content after the data fields of `f`, in order, are written into
/// the sectors that `lay` maps them to; a field whose data runs past the
/// stream, or whose sector does not exist, writes nothing; writes stop at
/// the end of the image.
pub open spec fn apply_fields(content: Seq<u8>, lay: Media, buf: Seq<u8>, f: Seq<(u8, u8, usize)>, side_2: bool, track: u8) -> Seq<u8>
    decreases f.len(),
{
    if f.len() == 0 {
        content
    } else {
        let prev = apply_fields(content, lay, buf, f.drop_last(), side_2, track);
        let id = f.last().0;
        let size = size_for_code(f.last().1) as int;
        let d = f.last().2 as int;
        let si = lay.sector_index_spec(side_2, track, id);
        if d + size > buf.len() || !si.0 {
            prev
        } else {
            Seq::new(prev.len(), |k: int| if si.1 <= k < si.1 + size { buf[d + k - si.1] } else { prev[k] })
        }
    }
}

proof fn lemma_data_start_bounds(buf: Seq<u8>, sync: u8, i: int)
    requires
        i >= 0,
    ensures
        data_start_from(buf, sync, i) >= i,
        data_start_from(buf, sync, i) == i || data_start_from(buf, sync, i) <= buf.len() + 1,
    decreases buf.len() - i,
{
    if i + 3 < buf.len() {
        lemma_data_start_bounds(buf, sync, i + 1);
    }
}

proof fn lemma_apply_same_layout(content: Seq<u8>, a: Media, b: Media, buf: Seq<u8>, f: Seq<(u8, u8, usize)>, side_2: bool, track: u8)
    requires
        a.same_layout(&b),
        a.content@.len() == b.content@.len(),
    ensures
        apply_fields(content, a, buf, f, side_2, track) == apply_fields(content, b, buf, f, side_2, track),
    decreases f.len(),
{
    if f.len() > 0 {
        lemma_apply_same_layout(content, a, b, buf, f.drop_last(), side_2, track);
        assert(a.sector_index_spec(side_2, track, f.last().0) == b.sector_index_spec(side_2, track, f.last().0));
    }
}

proof fn lemma_apply_len(content: Seq<u8>, lay: Media, buf: Seq<u8>, f: Seq<(u8, u8, usize)>, side_2: bool, track: u8)
    ensures
        apply_fields(content, lay, buf, f, side_2, track).len() == content.len(),
    decreases f.len(),
{
    if f.len() > 0 {
        lemma_apply_len(content, lay, buf, f.drop_last(), side_2, track);
    }
}

/// Position just past the next data address mark at or after `start`, or
/// `start`'s scan end when no mark fits.
fn skip_to_data(buf: &Vec<u8>, start: usize, sync: u8) -> (r: usize)
    requires
        buf@.len() <= WRITE_TRACK_CAP,
        start <= buf@.len() + 65536,
    ensures
        r == data_start_from(buf@, sync, start as int),
{
    let mut i = start;
    while i + 3 < buf.len()
        invariant
            start <= i <= buf@.len() + 65536,
            buf@.len() <= WRITE_TRACK_CAP,
            data_start_from(buf@, sync, start as int) == data_start_from(buf@, sync, i as int),
        decreases buf@.len() + 65536 - i,
    {
        if is_data_mark(buf, i, sync) {
            return i + 4;
        }
        i = i + 1;
    }
    i
}

/// Position past an optional CRC marker (0xF7) at `i`.
fn skip_crc(buf: &Vec<u8>, i: usize) -> (r: usize)
    requires
        i <= buf@.len() + 65536,
    ensures
        r == crc_skip(buf@, i as int),
{
    if i < buf.len() && buf[i] == 0xF7 { i + 1 } else { i }
}

/// The ID fields of a WRITE TRACK stream.
fn parse_fields(buf: &Vec<u8>, sync: u8) -> (r: Vec<(u8, u8, usize)>)
    requires
        buf@.len() <= WRITE_TRACK_CAP,
    ensures
        r@ == track_fields(buf@, sync),
{
    let len = buf.len();
    let mut out: Vec<(u8, u8, usize)> = Vec::new();
    let mut i: usize = 0;
    while i + 3 < len
        invariant
            len == buf@.len(),
            len <= WRITE_TRACK_CAP,
            i <= len + 65536,
            track_fields(buf@, sync) == out@ + fields_from(buf@, sync, i as int),
        decreases len + 65536 - i,
    {
        if is_mark(buf, i, sync, 0xFE) {
            let j = i + 4;
            if j + 4 >= len {
                assert(fields_from(buf@, sync, i as int) =~= Seq::<(u8, u8, usize)>::empty());
                assert(out@ + Seq::<(u8, u8, usize)>::empty() =~= out@);
                return out;
            }
            let id_sector = buf[j + 2];
            let id_n = buf[j + 3];
            let size = sector_size_for_code(id_n);
            let c = skip_crc(buf, j + 4);
            let d = skip_to_data(buf, c, sync);
            proof {
                lemma_data_start_bounds(buf@, sync, c as int);
            }
            let next = skip_crc(buf, d + size);
            let ghost rest = fields_from(buf@, sync, next as int);
            assert(fields_from(buf@, sync, i as int) == seq![(id_sector, id_n, d)] + rest);
            let ghost before = out@;
            out.push((id_sector, id_n, d));
            assert(before + (seq![(id_sector, id_n, d)] + rest) =~= out@ + rest);
            i = next;
        } else {
            i = i + 1;
        }
    }
    assert(fields_from(buf@, sync, i as int) =~= Seq::<(u8, u8, usize)>::empty());
    assert(out@ + Seq::<(u8, u8, usize)>::empty() =~= out@);
    out
}

/// First pass: the geometry that the ID fields teach.
fn learn_track_geometry(fields: &Vec<(u8, u8, usize)>) -> (r: Option<TrackGeometry>)
    ensures
        r == geometry_of(fields@),
{
    if fields.len() == 0 {
        return None;
    }
    let mut min_id: u8 = 255;
    let mut count: u8 = 0;
    let mut k: usize = 0;
    while k < fields.len()
        invariant
            k <= fields@.len(),
            min_id == min_id_of(fields@.subrange(0, k as int)),
            count == if k < 255 { k as u8 } else { 255u8 },
        decreases fields@.len() - k,
    {
        let id = fields[k].0;
        assert(fields@.subrange(0, k + 1).drop_last() =~= fields@.subrange(0, k as int));
        if id < min_id {
            min_id = id;
        }
        if count < 255 {
            count = count + 1;
        }
        k = k + 1;
    }
    assert(fields@.subrange(0, k as int) =~= fields@);
    Some(TrackGeometry { n: fields[0].1, sector_count: count, sector_base: min_id })
}

/// Second pass: writes the data field of each complete ID field into the
/// sector that the image maps its (track, side, sector) to.
fn write_track_sectors(m: &mut Media, buf: &Vec<u8>, fields: &Vec<(u8, u8, usize)>, side_2: bool, track: u8)
    requires
        old(m).wf(),
        buf@.len() <= WRITE_TRACK_CAP,
    ensures
        final(m).wf(),
        final(m).same_layout(old(m)),
        final(m).content@.len() == old(m).content@.len(),
        final(m).content@ == apply_fields(old(m).content@, *old(m), buf@, fields@, side_2, track),
{
    let mut k: usize = 0;
    while k < fields.len()
        invariant
            k <= fields@.len(),
            buf@.len() <= WRITE_TRACK_CAP,
            m.wf(),
            m.same_layout(old(m)),
            m.content@.len() == old(m).content@.len(),
            m.content@ == apply_fields(old(m).content@, *old(m), buf@, fields@.subrange(0, k as int), side_2, track),
        decreases fields@.len() - k,
    {
        let (id, n, d) = fields[k];
        let size = sector_size_for_code(n);
        assert(fields@.subrange(0, k + 1).drop_last() =~= fields@.subrange(0, k as int));
        assert(fields@.subrange(0, k + 1).last() == fields@[k as int]);
        proof {
            lemma_apply_len(old(m).content@, *old(m), buf@, fields@.subrange(0, k as int), side_2, track);
        }
        if d <= buf.len() && size <= buf.len() - d {
            let (valid, index, _last) = m.sector_index(side_2, track, id);
            assert(m.sector_index_spec(side_2, track, id) == old(m).sector_index_spec(side_2, track, id));
            if valid {
                let ghost before = m.content@;
                let mut j: usize = 0;
                while j < size && index + j < m.content.len()
                    invariant
                        j <= size,
                        d + size <= buf@.len(),
                        buf@.len() <= WRITE_TRACK_CAP,
                        m.wf(),
                        m.same_layout(old(m)),
                        m.content@.len() == old(m).content@.len(),
                        m.content@.len() <= MAX_IMAGE_LEN,
                        index <= MAX_IMAGE_LEN,
                        size <= 32768,
                        m.content@ == Seq::new(before.len(), |q: int| if index <= q < index + j { buf@[d + q - index] } else { before[q] }),
                    decreases size - j,
                {
                    m.write_byte(index + j, buf[d + j]);
                    j = j + 1;
                    assert(m.content@ =~= Seq::new(before.len(), |q: int| if index <= q < index + j { buf@[d + q - index] } else { before[q] }));
                }
                assert(m.content@ =~= Seq::new(before.len(), |q: int| if index <= q < index + size { buf@[d + q - index] } else { before[q] }));
            }
        }
        k = k + 1;
    }
    assert(fields@.subrange(0, k as int) =~= fields@);
}

/// Records the geometry learned from a WRITE TRACK for a track: its slot
/// is set, the global length code is set when it has none yet, and the global
/// sector base keeps the lowest base seen.
fn record_geometry(m: &mut Media, track: u8, side_2: bool, g: TrackGeometry)
    requires
        old(m).wf(),
    ensures
        final(m).wf(),
        final(m).track_geometry@ == old(m).track_geometry@.update(slot_of(track, side_2), Some(g)),
        final(m).learned_n == if old(m).learned_n.is_none() { Some(g.n) } else { old(m).learned_n },
        final(m).learned_sector_base == match old(m).learned_sector_base {
            Some(b) => if g.sector_base < b { Some(g.sector_base) } else { Some(b) },
            None => Some(g.sector_base),
        },
        final(m).content == old(m).content,
        final(m).format == old(m).format,
        final(m).persistent == old(m).persistent,
        final(m).name == old(m).name,
        final(m).write_protected == old(m).write_protected,
        final(m).side1_sector_base == old(m).side1_sector_base,
        final(m).write_min == old(m).write_min,
        final(m).write_max == old(m).write_max,
{
    let slot = track as usize * 2 + if side_2 { 1usize } else { 0usize };
    m.track_geometry.set(slot, Some(g));
    if m.learned_n.is_none() {
        m.learned_n = Some(g.n);
    }
    m.learned_sector_base = match m.learned_sector_base {
        Some(b) => if g.sector_base < b { Some(g.sector_base) } else { Some(b) },
        None => Some(g.sector_base),
    };
}

/// Content of an image once a write on side 1 has made a single-sided image
/// double-sided (see `Media::upgrade_to_double_sided`), else its content.
pub open spec fn content_before_write(m0: Media, side_2: bool) -> Seq<u8> {
    let stride = m0.stride_spec();
    let new_len = m0.tracks_spec() * 2 * stride;
    if side_2 && !m0.is_double_sided() && new_len > 0 && new_len <= MAX_IMAGE_LEN {
        Seq::new(new_len, |j: int| crate::media::upgraded_byte(m0.content@, stride, j))
    } else {
        m0.content@
    }
}

/// What a completed WRITE TRACK does to the image it was issued on: a side-1
/// track on a single-sided image first makes it double-sided; the geometry
/// of the stream's ID fields is recorded for the track; each complete data
/// field is written into its sector; the rest of the image is kept.
pub open spec fn track_written(m0: Media, mf: Media, buf: Seq<u8>, sync: u8, side_2: bool, track: u8) -> bool {
    let fields = track_fields(buf, sync);
    let stride = m0.stride_spec();
    let new_len = m0.tracks_spec() * 2 * stride;
    let up = side_2 && !m0.is_double_sided() && new_len > 0 && new_len <= MAX_IMAGE_LEN;
    &&& mf.content@ == apply_fields(content_before_write(m0, side_2), mf, buf, fields, side_2, track)
    &&& mf.format == if up { MediaFormat::DsDd } else { m0.format }
    &&& mf.track_geometry@ == match geometry_of(fields) {
        Some(g) => m0.track_geometry@.update(slot_of(track, side_2), Some(g)),
        None => m0.track_geometry@,
    }
    &&& mf.learned_n == match geometry_of(fields) {
        Some(g) => if m0.learned_n.is_none() { Some(g.n) } else { m0.learned_n },
        None => m0.learned_n,
    }
    &&& mf.learned_sector_base == match geometry_of(fields) {
        Some(g) => match m0.learned_sector_base {
            Some(b) => if g.sector_base < b { Some(g.sector_base) } else { Some(b) },
            None => Some(g.sector_base),
        },
        None => m0.learned_sector_base,
    }
    &&& mf.write_protected == m0.write_protected
    &&& mf.persistent == m0.persistent
    &&& mf.side1_sector_base == m0.side1_sector_base
}

/// The sync byte of the WRITE TRACK stream format: 0x00 in single density
/// (FM), 0xF5 in double density (MFM).
pub open spec fn sync_of(single_density: bool) -> u8 {
    if single_density { 0x00 } else { 0xF5 }
}

/// A WRITE TRACK stream `buf` issued from state `o` has been completed into
/// `f`: its drive's image is written as `track_written` says and flushed.
pub open spec fn write_track_completed(o: FloppyController, f: FloppyController, buf: Seq<u8>) -> bool {
    &&& track_written(o.media_of(o.write_track_drive), f.media_of(o.write_track_drive), buf,
        sync_of(o.single_density), o.write_track_side, o.write_track_head)
    &&& f.media_of(o.write_track_drive).range_empty()
}

/// `track_written` does not depend on the dirty ranges of the two images.
proof fn lemma_track_written_congruent(m0: Media, m0b: Media, a: Media, b: Media, buf: Seq<u8>, sync: u8, side_2: bool, track: u8)
    requires
        track_written(m0, a, buf, sync, side_2, track),
        m0.same_layout(&m0b),
        m0.content@ == m0b.content@,
        a.same_layout(&b),
        a.content@ == b.content@,
    ensures
        track_written(m0b, b, buf, sync, side_2, track),
{
    lemma_apply_same_layout(content_before_write(m0, side_2), a, b, buf, track_fields(buf, sync), side_2, track);
    assert(content_before_write(m0, side_2) == content_before_write(m0b, side_2));
}

/// Applies a WRITE TRACK stream to one image.
fn apply_write_track(m: &mut Media, buf: &Vec<u8>, sync: u8, side_2: bool, track: u8)
    requires
        old(m).wf(),
        buf@.len() <= WRITE_TRACK_CAP,
    ensures
        final(m).wf(),
        track_written(*old(m), *final(m), buf@, sync, side_2, track),
{
    let fields = parse_fields(buf, sync);
    let learned = learn_track_geometry(&fields);
    if side_2 && !m.double_sided() {
        m.upgrade_to_double_sided();
    }
    proof {
        assert(m.content@ =~= content_before_write(*old(m), side_2));
    }
    if let Some(g) = learned {
        record_geometry(m, track, side_2, g);
    }
    let ghost laid = *m;
    write_track_sectors(m, buf, &fields, side_2, track);
    proof {
        lemma_apply_same_layout(laid.content@, laid, *m, buf@, fields@, side_2, track);
    }
}

impl FloppyController {
    pub open spec fn media_of(&self, d: u8) -> Media {
        if d == 0 { self.media_a } else { self.media_b }
    }

    pub open spec fn selected(&self) -> Media {
        self.media_of(self.drive)
    }

    pub open spec fn wf(&self) -> bool {
        &&& self.wf_core()
        &&& self.write_track_active ==> self.write_track_buffer@.len() < WRITE_TRACK_CAP
            && self.write_track_buffer@.len() + self.write_track_remaining <= WRITE_TRACK_CAP
    }

    /// Well-formedness, but for the bound of a WRITE TRACK stream in progress.
    pub open spec fn wf_core(&self) -> bool {
        &&& self.media_a.wf()
        &&& self.media_b.wf()
        &&& self.drive <= 1
        &&& self.write_track_drive <= 1
        &&& self.write_track_buffer@.len() <= WRITE_TRACK_CAP
        &&& self.status_polls_without_data < ABANDON_POLLS
        &&& self.read_index <= self.read_last
    }

    /// A sector transfer has bytes left in the selected image.
    pub open spec fn cursor_active(&self) -> bool {
        self.read_index < self.read_last && self.read_last <= self.selected().content@.len()
    }

    /// A transfer ran out of sector bytes but BUSY is still set.
    pub open spec fn exhausted_busy(&self) -> bool {
        &&& self.status & STATUS_BUSY != 0
        &&& self.read_index == 0 && self.read_last == 0
        &&& self.data_buffer@.len() == 0
        &&& !self.write_track_active
    }

    /// Where the cursor goes once a sector is done: the next sector in
    /// multi-sector mode (RNF when there is none), idle otherwise.
    pub open spec fn sector_done(o: FloppyController, f: FloppyController) -> bool {
        if o.multi_sector {
            let next = ((o.sector + 1) % 256) as u8;
            let si = f.selected().sector_index_spec(o.side_2, o.head_position, next);
            &&& f.sector == next
            &&& if si.0 {
                f.read_index == si.1 && f.read_last == si.2 && f.multi_sector && f.status == o.status
            } else {
                f.status == STATUS_RNF && f.read_index == 0 && f.read_last == 0 && !f.multi_sector
            }
        } else {
            f.read_index == 0 && f.read_last == 0 && f.sector == o.sector && f.status == o.status
                && f.multi_sector == o.multi_sector
        }
    }

    /// Same registers and images, except for the given kinds of state.
    pub open spec fn same_media(&self, other: &FloppyController) -> bool {
        &&& self.media_a.content@ == other.media_a.content@
        &&& self.media_b.content@ == other.media_b.content@
        &&& self.media_a.same_layout(&other.media_a)
        &&& self.media_b.same_layout(&other.media_b)
    }

    /// A controller with the two images in drives A and B.
    pub fn new(media_a: Media, media_b: Media) -> (r: FloppyController)
        requires
            media_a.wf(),
            media_b.wf(),
        ensures
            r.wf(),
            r.media_a == media_a,
            r.media_b == media_b,
            !r.motor_on,
            r.drive == 0,
            !r.side_2,
            r.track == 0,
            r.head_position == 0,
            r.step_direction == 1,
            r.sector == 0,
            r.status == 0,
            r.read_index == 0 && r.read_last == 0,
            r.data_buffer@.len() == 0,
            !r.write_track_active,
            !r.raise_nmi,
    {
        FloppyController {
            motor_on: false,
            drive: 0,
            side_2: false,
            track: 0,
            head_position: 0,
            step_direction: 1,
            sector: 0,
            single_density: false,
            data: 0,
            status: 0,
            media_a,
            media_b,
            read_index: 0,
            read_last: 0,
            data_buffer: Vec::new(),
            write_track_active: false,
            write_track_buffer: Vec::new(),
            write_track_remaining: 0,
            write_track_drive: 0,
            write_track_side: false,
            write_track_head: 0,
            multi_sector: false,
            status_read_count: 0,
            status_polls_without_data: 0,
            read_address_countdown: 0,
            raise_nmi: false,
            last_command: 0,
            last_command_count: 0,
            flushed: Vec::new(),
        }
    }

    pub fn media_a(&self) -> (r: &Media)
        ensures
            *r == self.media_a,
    {
        &self.media_a
    }

    pub fn media_b(&self) -> (r: &Media)
        ensures
            *r == self.media_b,
    {
        &self.media_b
    }

    pub fn media_a_mut(&mut self) -> (r: &mut Media)
        ensures
            *r == old(self).media_a,
            *final(self) == (FloppyController { media_a: *final(r), ..*old(self) }),
    {
        &mut self.media_a
    }

    pub fn media_b_mut(&mut self) -> (r: &mut Media)
        ensures
            *r == old(self).media_b,
            *final(self) == (FloppyController { media_b: *final(r), ..*old(self) }),
    {
        &mut self.media_b
    }

    pub fn media_selected(&mut self) -> (r: &mut Media)
        ensures
            *r == old(self).selected(),
            *final(self) == (if old(self).drive == 0 {
                FloppyController { media_a: *final(r), ..*old(self) }
            } else {
                FloppyController { media_b: *final(r), ..*old(self) }
            }),
    {
        if self.drive == 0 {
            &mut self.media_a
        } else {
            &mut self.media_b
        }
    }

    /// Hands the dirty range of a drive's image to the flush queue.
    fn flush_drive(&mut self, d: u8)
        requires
            old(self).wf_core(),
            d <= 1,
        ensures
            final(self).wf_core(),
            final(self).same_media(old(self)),
            final(self).media_of(d).range_empty(),
            d != 0 ==> final(self).media_a == old(self).media_a,
            d == 0 ==> final(self).media_b == old(self).media_b,
            *final(self) == (FloppyController {
                media_a: final(self).media_a,
                media_b: final(self).media_b,
                flushed: final(self).flushed,
                ..*old(self)
            }),
    {
        let r = if d == 0 { self.media_a.flush_disk() } else { self.media_b.flush_disk() };
        let persistent = if d == 0 { self.media_a.persistent } else { self.media_b.persistent };
        if let Some((offset, bytes)) = r {
            if persistent {
                self.flushed.push(FlushedRange { drive: d, offset, bytes });
            }
        }
    }

    /// Takes the flushed ranges that wait for the host.
    pub fn take_flushed(&mut self) -> (r: Vec<FlushedRange>)
        ensures
            r@ == old(self).flushed@,
            final(self).flushed@.len() == 0,
            *final(self) == (FloppyController { flushed: final(self).flushed, ..*old(self) }),
    {
        let mut taken: Vec<FlushedRange> = Vec::new();
        core::mem::swap(&mut self.flushed, &mut taken);
        taken
    }

    pub fn set_motor(&mut self, motor_on: bool)
        requires
            old(self).wf(),
        ensures
            final(self).wf(),
            final(self).same_media(old(self)),
            final(self).selected().range_empty(),
            *final(self) == (FloppyController {
                motor_on,
                media_a: final(self).media_a,
                media_b: final(self).media_b,
                flushed: final(self).flushed,
                ..*old(self)
            }),
    {
        let d = self.drive;
        self.flush_drive(d);
        self.motor_on = motor_on;
    }

    pub fn set_single_density(&mut self, single_density: bool)
        ensures
            *final(self) == (FloppyController { single_density, ..*old(self) }),
    {
        self.single_density = single_density;
    }

    pub fn set_side(&mut self, side_2: bool)
        ensures
            *final(self) == (FloppyController { side_2, ..*old(self) }),
    {
        self.side_2 = side_2;
    }

    /// Selects a drive; ignored while a WRITE TRACK is in progress. The image
    /// of the drive left is flushed.
    pub fn set_drive(&mut self, drive: u8)
        requires
            old(self).wf(),
            drive <= 1,
        ensures
            final(self).wf(),
            final(self).same_media(old(self)),
            final(self).drive == if drive != old(self).drive && old(self).write_track_active {
                old(self).drive
            } else {
                drive
            },
            *final(self) == (FloppyController {
                drive: final(self).drive,
                media_a: final(self).media_a,
                media_b: final(self).media_b,
                flushed: final(self).flushed,
                ..*old(self)
            }),
    {
        if drive != self.drive {
            if self.write_track_active {
                return;
            }
            let d = self.drive;
            self.flush_drive(d);
            self.drive = drive;
        }
    }

    fn type_i_status(&self, base: u8) -> (r: u8)
        requires
            base <= 0x1F,
        ensures
            r == type_i_status_spec(base, self.selected().write_protected, self.motor_on),
    {
        let mut status = base;
        let wp = if self.drive == 0 { self.media_a.write_protected } else { self.media_b.write_protected };
        if wp {
            status = status + 0x40;
        }
        if self.motor_on {
            status = status + 0x20;
        }
        status
    }

    /// Ends a WRITE TRACK: upgrades a single-sided image written on side 1,
    /// learns the track's geometry from the stream, writes its sectors, and
    /// completes the command.
    fn finish_write_track(&mut self)
        requires
            old(self).wf_core(),
        ensures
            final(self).wf(),
            !final(self).write_track_active,
            final(self).status == 0,
            final(self).raise_nmi,
            old(self).write_track_drive != 0 ==> final(self).media_a == old(self).media_a,
            old(self).write_track_drive == 0 ==> final(self).media_b == old(self).media_b,
            track_written(old(self).media_of(old(self).write_track_drive), final(self).media_of(old(self).write_track_drive),
                old(self).write_track_buffer@, if old(self).single_density { 0x00u8 } else { 0xF5u8 },
                old(self).write_track_side, old(self).write_track_head),
            final(self).media_of(old(self).write_track_drive).range_empty(),
            *final(self) == (FloppyController {
                media_a: final(self).media_a,
                media_b: final(self).media_b,
                flushed: final(self).flushed,
                write_track_active: false,
                status: 0,
                raise_nmi: true,
                ..*old(self)
            }),
    {
        let d = self.write_track_drive;
        let side_2 = self.write_track_side;
        let track = self.write_track_head;
        let sync: u8 = if self.single_density { 0x00 } else { 0xF5 };
        if d == 0 {
            apply_write_track(&mut self.media_a, &self.write_track_buffer, sync, side_2, track);
        } else {
            apply_write_track(&mut self.media_b, &self.write_track_buffer, sync, side_2, track);
        }
        let ghost written = self.media_of(d);
        self.flush_drive(d);
        proof {
            lemma_apply_same_layout(content_before_write(old(self).media_of(d), side_2), written, self.media_of(d),
                old(self).write_track_buffer@, track_fields(old(self).write_track_buffer@, sync), side_2, track);
        }
        self.write_track_active = false;
        self.status = 0;
        self.raise_nmi = true;
    }

    fn selected_ref(&self) -> (r: &Media)
        ensures
            *r == self.selected(),
    {
        if self.drive == 0 { &self.media_a } else { &self.media_b }
    }

    /// RESTORE: head and track register to 0.
    pub open spec fn restore_done(o: FloppyController, f: FloppyController) -> bool {
        &&& f.track == 0 && f.head_position == 0
        &&& f.status == type_i_status_spec(STATUS_TRACK0, f.selected().write_protected, o.motor_on)
        &&& f.raise_nmi
        &&& f.read_index == 0 && f.read_last == 0
    }

    /// SEEK: to the track in the data register when the image has it.
    pub open spec fn seek_done(o: FloppyController, f: FloppyController) -> bool {
        let wp = f.selected().write_protected;
        &&& f.raise_nmi
        &&& if o.data < f.selected().tracks_spec() {
            f.track == o.data && f.head_position == o.data && f.status == type_i_status_spec(0, wp, o.motor_on)
        } else {
            f.track == o.track && f.head_position == o.head_position
                && f.status == type_i_status_spec(STATUS_RNF, wp, o.motor_on)
        }
    }

    /// STEP (h = 2, 3), STEP IN (4, 5), STEP OUT (6, 7); odd h updates the
    /// track register.
    pub open spec fn step_done(o: FloppyController, f: FloppyController, h: u8) -> bool {
        let inward = if h <= 3 { o.step_direction > 0 } else { h <= 5 };
        &&& f.head_position == stepped(o.head_position, inward)
        &&& f.track == if h % 2 == 1 { f.head_position } else { o.track }
        &&& f.step_direction == if h <= 3 { o.step_direction } else if h <= 5 { 1i8 } else { -1i8 }
        &&& f.status == type_i_status_spec(
            if f.head_position == 0 && (h <= 3 || h >= 6) { STATUS_TRACK0 } else { 0 },
            f.selected().write_protected, o.motor_on)
        &&& f.raise_nmi
    }

    /// READ SECTOR (h = 8, 9) and WRITE SECTOR (0xA, 0xB); odd h is multi-sector.
    pub open spec fn sector_command_done(o: FloppyController, f: FloppyController, h: u8) -> bool {
        let si = f.selected().sector_index_spec(o.side_2, o.head_position, o.sector);
        &&& f.multi_sector == (h % 2 == 1)
        &&& f.raise_nmi
        &&& if h >= 0xa && f.selected().write_protected {
            f.status == STATUS_WRITE_PROTECTED && f.read_index == 0 && f.read_last == 0
        } else if si.0 {
            f.read_index == si.1 && f.read_last == si.2 && f.status == STATUS_BUSY
        } else {
            f.status == STATUS_BUSY | STATUS_RNF && f.read_index == 0 && f.read_last == 0
        }
    }

    /// READ ADDRESS: the six ID bytes, with a sector ID that rotates with
    /// the status polls; BUSY for a countdown of polls.
    pub open spec fn read_address_done(o: FloppyController, f: FloppyController) -> bool {
        let ra = f.selected().read_address_spec(o.side_2, o.head_position);
        &&& f.raise_nmi
        &&& f.read_address_countdown == READ_ADDRESS_POLLS
        &&& if ra.0 {
            &&& f.status == STATUS_BUSY
            &&& f.sector == o.head_position
            &&& f.data_buffer@ == seq![o.head_position, 0u8,
                ((ra.1 as int + (o.status_read_count as int / 10) % 256 % 10) % 256) as u8,
                2u8, 0xdeu8, 0xadu8]
        } else {
            f.status == STATUS_BUSY | STATUS_RNF && f.sector == o.sector
        }
    }

    /// FORCE INTERRUPT: ends any transfer and clears BUSY; NMI when a
    /// condition bit is set.
    pub open spec fn force_interrupt_done(o: FloppyController, f: FloppyController, command: u8) -> bool {
        &&& f.read_index == 0 && f.read_last == 0
        &&& f.data_buffer@.len() == 0
        &&& !f.multi_sector
        &&& f.read_address_countdown == 0
        &&& !f.write_track_active
        &&& f.status == (if o.write_track_active { 0u8 } else { o.status }) & 0xFE
        &&& (command % 16 != 0 || o.write_track_active) ==> f.raise_nmi
        &&& (command % 16 == 0 && !o.write_track_active) ==> f.raise_nmi == o.raise_nmi
        &&& o.write_track_active ==> write_track_completed(o, f, o.write_track_buffer@)
    }

    /// WRITE TRACK: enters format accumulation, latching drive, side and head.
    pub open spec fn write_track_started(o: FloppyController, f: FloppyController) -> bool {
        &&& f.raise_nmi
        &&& if f.selected().write_protected {
            f.status == STATUS_WRITE_PROTECTED && !f.write_track_active && f.read_index == 0 && f.read_last == 0
        } else {
            &&& f.read_index == o.read_index && f.read_last == o.read_last
            &&& f.write_track_active
            &&& f.write_track_drive == o.drive
            &&& f.write_track_side == o.side_2
            &&& f.write_track_head == o.head_position
            &&& f.write_track_buffer@.len() == 0
            &&& f.write_track_remaining == if o.single_density { SD_TRACK_BYTES } else { 0 }
            &&& f.status == STATUS_BUSY
        }
    }

    /// Registers that no command but READ ADDRESS changes.
    pub open spec fn same_selection(o: FloppyController, f: FloppyController) -> bool {
        &&& f.drive == o.drive
        &&& f.side_2 == o.side_2
        &&& f.motor_on == o.motor_on
        &&& f.single_density == o.single_density
        &&& f.data == o.data
        &&& f.status_read_count == o.status_read_count
    }

    fn cmd_restore(&mut self)
        requires
            old(self).wf(),
        ensures
            final(self).wf(),
            Self::restore_done(*old(self), *final(self)),
            *final(self) == (FloppyController {
                read_index: 0, read_last: 0, track: 0, head_position: 0,
                status: final(self).status, raise_nmi: true, ..*old(self)
            }),
    {
        self.read_index = 0;
        self.read_last = 0;
        self.track = 0;
        self.head_position = 0;
        self.status = self.type_i_status(STATUS_TRACK0);
        self.raise_nmi = true;
    }

    fn cmd_seek(&mut self)
        requires
            old(self).wf(),
        ensures
            final(self).wf(),
            Self::seek_done(*old(self), *final(self)),
            *final(self) == (FloppyController {
                track: final(self).track, head_position: final(self).head_position,
                status: final(self).status, raise_nmi: true, ..*old(self)
            }),
    {
        let target = self.data;
        if self.selected_ref().is_valid_track(target) {
            self.track = target;
            self.head_position = target;
            self.status = self.type_i_status(0);
        } else {
            self.status = self.type_i_status(STATUS_RNF);
        }
        self.raise_nmi = true;
    }

    fn cmd_step(&mut self, h: u8)
        requires
            old(self).wf(),
            2 <= h <= 7,
        ensures
            final(self).wf(),
            Self::step_done(*old(self), *final(self), h),
            *final(self) == (FloppyController {
                track: final(self).track, head_position: final(self).head_position,
                step_direction: final(self).step_direction,
                status: final(self).status, raise_nmi: true, ..*old(self)
            }),
    {
        let inward = if h <= 3 { self.step_direction > 0 } else { h <= 5 };
        if h == 4 || h == 5 {
            self.step_direction = 1;
        } else if h == 6 || h == 7 {
            self.step_direction = -1;
        }
        if inward {
            if self.head_position < LAST_TRACK {
                self.head_position = self.head_position + 1;
            }
        } else if self.head_position > 0 {
            self.head_position = self.head_position - 1;
        }
        if h % 2 == 1 {
            self.track = self.head_position;
        }
        let base = if self.head_position == 0 && (h <= 3 || h >= 6) { STATUS_TRACK0 } else { 0 };
        self.status = self.type_i_status(base);
        self.raise_nmi = true;
    }

    fn cmd_sector(&mut self, h: u8)
        requires
            old(self).wf(),
            8 <= h <= 0xb,
        ensures
            final(self).wf(),
            Self::sector_command_done(*old(self), *final(self), h),
            *final(self) == (FloppyController {
                read_index: final(self).read_index, read_last: final(self).read_last,
                multi_sector: final(self).multi_sector,
                status: final(self).status, raise_nmi: true, ..*old(self)
            }),
    {
        self.multi_sector = h % 2 == 1;
        if h >= 0xa && self.selected_ref().is_write_protected() {
            // No data moves: the cursor of an earlier transfer is dropped.
            self.read_index = 0;
            self.read_last = 0;
            self.status = STATUS_WRITE_PROTECTED;
            self.raise_nmi = true;
            return;
        }
        let (valid, first, last) = self.selected_ref().sector_index(self.side_2, self.head_position, self.sector);
        if valid {
            proof {
                crate::media::lemma_sector_index_in_bounds(&self.selected(), self.side_2, self.head_position, self.sector);
            }
            self.read_index = first;
            self.read_last = last;
            self.status = STATUS_BUSY;
        } else {
            self.read_index = 0;
            self.read_last = 0;
            self.status = STATUS_BUSY | STATUS_RNF;
        }
        self.raise_nmi = true;
    }

    fn cmd_read_address(&mut self)
        requires
            old(self).wf(),
        ensures
            final(self).wf(),
            Self::read_address_done(*old(self), *final(self)),
            *final(self) == (FloppyController {
                sector: final(self).sector, data_buffer: final(self).data_buffer,
                read_address_countdown: READ_ADDRESS_POLLS,
                status: final(self).status, raise_nmi: true, ..*old(self)
            }),
    {
        let (valid, base) = self.selected_ref().read_address(self.side_2, self.head_position, self.sector);
        if valid {
            let rotation = ((self.status_read_count / 10) % 256) as u8 % 10;
            let sector_id = base.wrapping_add(rotation);
            self.sector = self.head_position;
            let mut id_field: Vec<u8> = Vec::new();
            id_field.push(self.head_position);
            id_field.push(0);
            id_field.push(sector_id);
            id_field.push(2);
            id_field.push(0xde);
            id_field.push(0xad);
            assert(id_field@ =~= seq![self.head_position, 0u8, sector_id, 2u8, 0xdeu8, 0xadu8]);
            self.data_buffer = id_field;
            self.status = STATUS_BUSY;
        } else {
            self.status = STATUS_BUSY | STATUS_RNF;
        }
        self.read_address_countdown = READ_ADDRESS_POLLS;
        self.raise_nmi = true;
    }

    fn cmd_force_interrupt(&mut self, command: u8)
        requires
            old(self).wf(),
        ensures
            final(self).wf(),
            Self::force_interrupt_done(*old(self), *final(self), command),
            !old(self).write_track_active ==> final(self).same_media(old(self)),
            Self::same_selection(*old(self), *final(self)),
            final(self).track == old(self).track,
            final(self).head_position == old(self).head_position,
            final(self).sector == old(self).sector,
            final(self).step_direction == old(self).step_direction,
            final(self).last_command == old(self).last_command,
            final(self).last_command_count == old(self).last_command_count,
    {
        if self.write_track_active {
            self.finish_write_track();
        }
        self.read_index = 0;
        self.read_last = 0;
        self.data_buffer = Vec::new();
        self.multi_sector = false;
        self.read_address_countdown = 0;
        self.status = self.status & 0xFE;
        if command % 16 != 0 {
            self.raise_nmi = true;
        }
    }

    fn cmd_write_track(&mut self)
        requires
            old(self).wf(),
            !old(self).write_track_active,
        ensures
            final(self).wf(),
            Self::write_track_started(*old(self), *final(self)),
            *final(self) == (FloppyController {
                write_track_active: final(self).write_track_active,
                write_track_drive: final(self).write_track_drive,
                write_track_side: final(self).write_track_side,
                write_track_head: final(self).write_track_head,
                write_track_buffer: final(self).write_track_buffer,
                write_track_remaining: final(self).write_track_remaining,
                read_index: final(self).read_index,
                read_last: final(self).read_last,
                status: final(self).status, raise_nmi: true, ..*old(self)
            }),
    {
        if self.selected_ref().is_write_protected() {
            // No data moves: the cursor of an earlier transfer is dropped.
            self.read_index = 0;
            self.read_last = 0;
            self.status = STATUS_WRITE_PROTECTED;
            self.raise_nmi = true;
            return;
        }
        self.write_track_active = true;
        self.write_track_drive = self.drive;
        self.write_track_side = self.side_2;
        self.write_track_head = self.head_position;
        self.write_track_buffer = Vec::new();
        self.write_track_remaining = if self.single_density { SD_TRACK_BYTES } else { 0 };
        self.status = STATUS_BUSY;
        self.raise_nmi = true;
    }

    /// Records the command, completes a WRITE TRACK in progress unless the
    /// command is FORCE INTERRUPT, and flushes the selected image.
    fn begin_command(&mut self, command: u8)
        requires
            old(self).wf(),
        ensures
            final(self).wf(),
            *final(self) == (FloppyController {
                media_a: final(self).media_a,
                media_b: final(self).media_b,
                flushed: final(self).flushed,
                write_track_active: final(self).write_track_active,
                status: final(self).status,
                raise_nmi: final(self).raise_nmi,
                last_command: command,
                last_command_count: final(self).last_command_count,
                ..*old(self)
            }),
            final(self).last_command_count == (old(self).last_command_count as int + 1) % 0x1_0000_0000_0000_0000,
            old(self).write_track_active && command / 16 != 0xd ==> {
                &&& write_track_completed(*old(self), *final(self), old(self).write_track_buffer@)
                &&& !final(self).write_track_active && final(self).status == 0 && final(self).raise_nmi
            },
            !(old(self).write_track_active && command / 16 != 0xd) ==> {
                &&& final(self).same_media(old(self))
                &&& final(self).write_track_active == old(self).write_track_active
                &&& final(self).status == old(self).status
                &&& final(self).raise_nmi == old(self).raise_nmi
            },
    {
        self.last_command = command;
        self.last_command_count = self.last_command_count.wrapping_add(1);
        let h = command / 16;
        let ghost started = *self;
        if self.write_track_active && h != 0xd {
            self.finish_write_track();
        }
        let ghost finished = *self;
        let d = self.drive;
        self.flush_drive(d);
        proof {
            let w = old(self).write_track_drive;
            if old(self).write_track_active && h != 0xd {
                lemma_track_written_congruent(started.media_of(w), started.media_of(w), finished.media_of(w),
                    self.media_of(w), old(self).write_track_buffer@, sync_of(old(self).single_density),
                    old(self).write_track_side, old(self).write_track_head);
            }
        }
    }

    /// Executes a command written to the command register. A WRITE TRACK in
    /// progress is completed first unless the command is FORCE INTERRUPT, and
    /// the selected image is flushed.
    #[verifier::rlimit(100)]
    pub fn put_command(&mut self, command: u8)
        requires
            old(self).wf(),
        ensures
            final(self).wf(),
            final(self).last_command == command,
            final(self).last_command_count == (old(self).last_command_count as int + 1) % 0x1_0000_0000_0000_0000,
            Self::same_selection(*old(self), *final(self)),
            command / 16 != 0xc ==> final(self).sector == old(self).sector,
            command / 16 == 0 ==> Self::restore_done(*old(self), *final(self)),
            command / 16 == 1 ==> Self::seek_done(*old(self), *final(self)),
            2 <= command / 16 <= 7 ==> Self::step_done(*old(self), *final(self), command / 16),
            8 <= command / 16 <= 0xb ==> Self::sector_command_done(*old(self), *final(self), command / 16),
            command / 16 == 0xc ==> Self::read_address_done(*old(self), *final(self)),
            command / 16 == 0xd ==> Self::force_interrupt_done(*old(self), *final(self), command),
            command / 16 == 0xe ==> final(self).status == 0 && final(self).raise_nmi,
            command / 16 == 0xf ==> Self::write_track_started(*old(self), *final(self)),
            !old(self).write_track_active ==> final(self).same_media(old(self)),
            old(self).write_track_active && command / 16 != 0xd ==>
                write_track_completed(*old(self), *final(self), old(self).write_track_buffer@),
    {
        let ghost started = *self;
        self.begin_command(command);
        let ghost begun = *self;
        let h = command / 16;
        if h == 0 {
            self.cmd_restore();
        } else if h == 1 {
            self.cmd_seek();
        } else if h <= 7 {
            self.cmd_step(h);
        } else if h <= 0xb {
            self.cmd_sector(h);
        } else if h == 0xc {
            self.cmd_read_address();
        } else if h == 0xd {
            self.cmd_force_interrupt(command);
        } else if h == 0xe {
            self.status = 0;
            self.raise_nmi = true;
        } else {
            self.cmd_write_track();
        }
        proof {
            let w = old(self).write_track_drive;
            if old(self).write_track_active && h == 0xd {
                lemma_track_written_congruent(begun.media_of(w), started.media_of(w), self.media_of(w),
                    self.media_of(w), old(self).write_track_buffer@, sync_of(old(self).single_density),
                    old(self).write_track_side, old(self).write_track_head);
            }
        }
    }

    /// After the last byte of a sector: the next sector or the end.
    #[verifier::rlimit(100)]
    fn advance_sector(&mut self)
        requires
            old(self).wf(),
        ensures
            final(self).wf(),
            Self::sector_done(*old(self), *final(self)),
            *final(self) == (FloppyController {
                sector: final(self).sector, read_index: final(self).read_index,
                read_last: final(self).read_last, multi_sector: final(self).multi_sector,
                status: final(self).status, ..*old(self)
            }),
    {
        if self.multi_sector {
            self.sector = self.sector.wrapping_add(1);
            let (valid, first, last) = self.selected_ref().sector_index(self.side_2, self.head_position, self.sector);
            if valid {
                proof {
                    crate::media::lemma_sector_index_in_bounds(&self.selected(), self.side_2, self.head_position, self.sector);
                }
                self.read_index = first;
                self.read_last = last;
            } else {
                self.status = STATUS_RNF;
                self.read_index = 0;
                self.read_last = 0;
                self.multi_sector = false;
            }
        } else {
            self.read_index = 0;
            self.read_last = 0;
        }
    }

    /// Reads the status register. A READ ADDRESS countdown runs down by one;
    /// a transfer whose data the program stopped moving is abandoned after
    /// ten polls; bit 1 is DRQ while busy and the index pulse otherwise.
    pub fn get_status(&mut self) -> (r: u8)
        requires
            old(self).wf(),
        ensures
            final(self).wf(),
            final(self).status_read_count == (old(self).status_read_count as int + 1) % 0x1_0000_0000,
            old(self).exhausted_busy() && old(self).read_address_countdown == 0 ==>
                r & STATUS_BUSY == 0 && final(self).status & STATUS_BUSY == 0 && r == old(self).status & 0xFE,
            ({
                let o = *old(self);
                let f = *final(self);
                let cd = o.read_address_countdown;
                let cd1 = if cd > 0 { (cd - 1) as u8 } else { 0u8 };
                let s1 = if cd == 1 { o.status & 0xFE } else { o.status };
                let pending = o.read_index < o.read_last || o.data_buffer@.len() > 0 || o.write_track_active;
                &&& f.read_address_countdown == cd1
                &&& if s1 & STATUS_BUSY != 0 {
                    if pending {
                        if o.status_polls_without_data + 1 < ABANDON_POLLS {
                            &&& r == s1 | STATUS_DRQ
                            &&& f == (FloppyController {
                                status: s1,
                                status_polls_without_data: (o.status_polls_without_data + 1) as u8,
                                read_address_countdown: cd1,
                                status_read_count: f.status_read_count,
                                ..o
                            })
                        } else {
                            &&& r == 0 && f.status == 0 && f.status_polls_without_data == 0
                            &&& f.read_index == 0 && f.read_last == 0 && f.data_buffer@.len() == 0
                            &&& !f.multi_sector
                        }
                    } else if cd1 > 0 {
                        r == s1 | STATUS_DRQ && f.status == s1
                    } else {
                        f.status == s1 & 0xFE && r == f.status && f.status_polls_without_data == 0
                    }
                } else {
                    &&& f.status == s1
                    &&& r == if o.motor_on && f.status_read_count % 100 < 5 { s1 | STATUS_DRQ } else { s1 }
                }
            }),
            final(self).same_media(old(self)),
            final(self).flushed == old(self).flushed,
            final(self).raise_nmi == old(self).raise_nmi,
            final(self).write_track_active == old(self).write_track_active,
            final(self).drive == old(self).drive,
            final(self).sector == old(self).sector,
            final(self).head_position == old(self).head_position,
    {
        self.status_read_count = self.status_read_count.wrapping_add(1);
        if self.read_address_countdown > 0 {
            self.read_address_countdown = self.read_address_countdown - 1;
            if self.read_address_countdown == 0 {
                self.status = self.status & 0xFE;
            }
        }
        let mut status = self.status;
        if self.status & STATUS_BUSY != 0 {
            if self.read_index < self.read_last || self.data_buffer.len() > 0 || self.write_track_active {
                if self.status_polls_without_data + 1 < ABANDON_POLLS {
                    self.status_polls_without_data = self.status_polls_without_data + 1;
                    status = status | STATUS_DRQ;
                } else {
                    self.read_index = 0;
                    self.read_last = 0;
                    self.data_buffer = Vec::new();
                    self.multi_sector = false;
                    self.status = 0;
                    self.status_polls_without_data = 0;
                    status = 0;
                }
            } else if self.read_address_countdown > 0 {
                status = status | STATUS_DRQ;
            } else {
                self.status = self.status & 0xFE;
                self.status_polls_without_data = 0;
                status = self.status;
            }
        } else if self.motor_on && self.status_read_count % 100 < 5 {
            status = status | STATUS_DRQ;
        }
        proof {
            let st = old(self).status;
            assert(st & 0xFE & 0x01 == 0) by (bit_vector);
        }
        status
    }

    /// A read of the data register: the next READ ADDRESS byte, else the next
    /// sector byte (moving on to the next sector or ending the transfer at the
    /// end of a sector); every byte raises NMI.
    pub open spec fn data_got(o: FloppyController, f: FloppyController, r: u8) -> bool {
        &&& f.status_polls_without_data == 0
        &&& f.data == r
        &&& f.same_media(&o)
        &&& f.drive == o.drive
        &&& f.side_2 == o.side_2
        &&& f.head_position == o.head_position
        &&& f.write_track_active == o.write_track_active
        &&& f.read_address_countdown == o.read_address_countdown
        &&& if o.data_buffer@.len() > 0 {
            &&& r == o.data_buffer@[0]
            &&& f.data_buffer@ == o.data_buffer@.drop_first()
            &&& f.raise_nmi
            &&& f.read_index == o.read_index && f.read_last == o.read_last
        } else if o.cursor_active() {
            &&& r == o.selected().content@[o.read_index as int]
            &&& f.raise_nmi
            &&& f.data_buffer@.len() == 0
            &&& if o.read_index + 1 < o.read_last {
                f.read_index == o.read_index + 1 && f.read_last == o.read_last
                    && f.sector == o.sector && f.status == o.status && f.multi_sector == o.multi_sector
            } else {
                Self::sector_done(o, f)
            }
        } else {
            &&& r == o.data
            &&& f.raise_nmi == (o.raise_nmi || o.exhausted_busy())
            &&& f.read_index == o.read_index && f.read_last == o.read_last
        }
    }

    /// Reads the data register: the next READ ADDRESS byte, else the next
    /// sector byte; every byte raises NMI. Past the end of a sector that is
    /// still BUSY the last byte repeats and NMI keeps firing.
    pub fn get_data(&mut self) -> (r: u8)
        requires
            old(self).wf(),
        ensures
            final(self).wf(),
            Self::data_got(*old(self), *final(self), r),
    {
        self.status_polls_without_data = 0;
        if self.data_buffer.len() > 0 {
            self.data = self.data_buffer.remove(0);
            self.raise_nmi = true;
        } else if self.read_index < self.read_last && self.read_last <= self.selected_ref().content.len() {
            let index = self.read_index;
            self.data = self.selected_ref().read_byte(index);
            self.read_index = index + 1;
            self.raise_nmi = true;
            if self.read_index == self.read_last {
                self.advance_sector();
            }
        } else if self.status & STATUS_BUSY != 0 && self.read_index == 0 && self.read_last == 0
            && self.data_buffer.len() == 0 && !self.write_track_active
        {
            self.raise_nmi = true;
        }
        self.data
    }

    /// Writes the data register: a byte of a WRITE TRACK stream, else the next
    /// byte of the sector being written; every byte raises NMI. A stream ends
    /// when its single-density count runs out or it reaches the safety cap;
    /// bytes past the end of a sector are dropped.
    pub fn put_data(&mut self, value: u8)
        requires
            old(self).wf(),
        ensures
            final(self).wf(),
            final(self).data == value,
            final(self).status_polls_without_data == 0,
            final(self).drive == old(self).drive,
            final(self).head_position == old(self).head_position,
            old(self).selected().write_protected && !old(self).write_track_active ==> final(self).same_media(old(self)),
            ({
                let o = *old(self);
                let f = *final(self);
                if o.write_track_active {
                    let buf = o.write_track_buffer@.push(value);
                    let ends = if o.write_track_remaining > 0 {
                        o.write_track_remaining == 1
                    } else {
                        buf.len() >= WRITE_TRACK_CAP
                    };
                    &&& f.raise_nmi
                    &&& if ends {
                        !f.write_track_active && f.status == 0 && write_track_completed(o, f, buf)
                    } else {
                        &&& f.write_track_active
                        &&& f.write_track_buffer@ == buf
                        &&& f.write_track_remaining == if o.write_track_remaining > 0 {
                            (o.write_track_remaining - 1) as usize
                        } else {
                            0
                        }
                        &&& f.same_media(&o)
                    }
                } else if o.cursor_active() {
                    &&& f.selected().content@ == if o.selected().write_protected {
                        o.selected().content@
                    } else {
                        o.selected().content@.update(o.read_index as int, value)
                    }
                    &&& f.media_of((1 - o.drive) as u8).content@ == o.media_of((1 - o.drive) as u8).content@
                    &&& f.raise_nmi
                    &&& if o.read_index + 1 < o.read_last {
                        f.read_index == o.read_index + 1 && f.read_last == o.read_last
                    } else {
                        &&& Self::sector_done(o, f)
                        &&& f.selected().range_empty()
                    }
                } else {
                    &&& f.raise_nmi == (o.raise_nmi
                        || (o.status & STATUS_BUSY != 0 && o.read_index == 0 && o.read_last == 0))
                    &&& f.same_media(&o)
                    &&& f.read_index == o.read_index && f.read_last == o.read_last
                    &&& f.status == o.status
                    &&& f.write_track_active == o.write_track_active
                    &&& f.write_track_buffer == o.write_track_buffer
                    &&& f.write_track_remaining == o.write_track_remaining
                    &&& f.sector == o.sector
                    &&& f.multi_sector == o.multi_sector
                }
            }),
    {
        self.data = value;
        self.status_polls_without_data = 0;
        if self.write_track_active {
            self.write_track_buffer.push(value);
            self.raise_nmi = true;
            if self.write_track_remaining > 0 {
                self.write_track_remaining = self.write_track_remaining - 1;
                if self.write_track_remaining == 0 {
                    self.finish_write_track();
                }
            } else if self.write_track_buffer.len() >= WRITE_TRACK_CAP {
                self.finish_write_track();
            }
            return;
        }
        if self.read_index < self.read_last && self.read_last <= self.selected_ref().content.len() {
            let index = self.read_index;
            // A write-protected image takes no data.
            if self.drive == 0 {
                if !self.media_a.write_protected {
                    self.media_a.write_byte(index, value);
                }
            } else if !self.media_b.write_protected {
                self.media_b.write_byte(index, value);
            }
            self.read_index = index + 1;
            self.raise_nmi = true;
            if self.read_index == self.read_last {
                let d = self.drive;
                self.flush_drive(d);
                self.advance_sector();
            }
        } else if self.status & STATUS_BUSY != 0 && self.read_index == 0 && self.read_last == 0
            && !self.write_track_active
        {
            self.raise_nmi = true;
        }
    }

    pub fn put_track(&mut self, value: u8)
        ensures
            *final(self) == (FloppyController { track: value, ..*old(self) }),
    {
        self.track = value;
    }

    pub fn get_track(&self) -> (r: u8)
        ensures
            r == self.track,
    {
        self.track
    }

    pub fn put_sector(&mut self, value: u8)
        ensures
            *final(self) == (FloppyController { sector: value, ..*old(self) }),
    {
        self.sector = value;
    }

    pub fn get_sector(&self) -> (r: u8)
        ensures
            r == self.sector,
    {
        self.sector
    }
}

/// State of a sector READ of sectors of `size` bytes after `k` data bytes:
/// BUSY as at the start, the cursor `size - k % size` bytes before the end of
/// sector `first.sector + k / size` of the same image.
pub open spec fn read_run_at(s0: FloppyController, s: FloppyController, size: int, k: int) -> bool {
    &&& s.data_buffer@.len() == 0
    &&& s.multi_sector == s0.multi_sector
    &&& s.status == s0.status
    &&& s.sector == s0.sector + k / size
    &&& s.read_last - s.read_index == size - k % size
    &&& k / size == 0 ==> s.read_last == s0.read_last
    &&& s.cursor_active()
    &&& s.drive == s0.drive && s.side_2 == s0.side_2 && s.head_position == s0.head_position
    &&& s.selected().content@ == s0.selected().content@
    &&& s.selected().same_layout(&s0.selected())
}

/// Sector `first.sector + j` of a multi-sector READ exists and has `size` bytes.
pub open spec fn run_sector_ok(s0: FloppyController, j: int, size: int) -> bool {
    let si = s0.selected().sector_index_spec(s0.side_2, s0.head_position, (s0.sector + j) as u8);
    &&& s0.multi_sector
    &&& s0.sector + j <= 255
    &&& si.0 && si.2 - si.1 == size
}

/// The chain of states of `n` successive data-register reads.
pub open spec fn read_chain(states: Seq<FloppyController>, bytes: Seq<u8>, n: int) -> bool {
    &&& states.len() == n + 1
    &&& bytes.len() == n
    &&& forall|k: int| 0 <= k < n ==> #[trigger] FloppyController::data_got(states[k], states[k + 1], bytes[k])
}

/// A READ SECTOR in progress with `size` bytes left in its sector.
pub open spec fn read_started(s0: FloppyController, size: int) -> bool {
    &&& s0.data_buffer@.len() == 0
    &&& s0.cursor_active()
    &&& s0.read_last - s0.read_index == size
    &&& s0.selected().wf()
}

proof fn lemma_read_run_step(states: Seq<FloppyController>, bytes: Seq<u8>, n: int, size: int, k: int)
    requires
        size >= 1,
        read_chain(states, bytes, n),
        read_started(states[0], size),
        0 <= k,
        k + 1 < n,
        read_run_at(states[0], states[k], size, k),
        (k + 1) % size == 0 ==> run_sector_ok(states[0], (k + 1) / size, size),
    ensures
        read_run_at(states[0], states[k + 1], size, k + 1),
{
    let s0 = states[0];
    let o = states[k];
    let f = states[k + 1];
    assert(FloppyController::data_got(o, f, bytes[k]));
    let q = k / size;
    let r = k % size;
    vstd::arithmetic::div_mod::lemma_fundamental_div_mod(k, size);
    vstd::arithmetic::div_mod::lemma_mod_bound(k, size);
    assert(q >= 0) by (nonlinear_arith) requires k == size * q + r, r < size, k >= 0, size > 0;
    if r + 1 < size {
        vstd::arithmetic::div_mod::lemma_fundamental_div_mod_converse(k + 1, size, q, r + 1);
    } else {
        assert(k + 1 == (q + 1) * size + 0) by (nonlinear_arith) requires k == size * q + r, r == size - 1;
        vstd::arithmetic::div_mod::lemma_fundamental_div_mod_converse(k + 1, size, q + 1, 0);
        let next = (s0.sector + q + 1) as u8;
        assert(o.selected().sector_index_spec(o.side_2, o.head_position, next)
            == s0.selected().sector_index_spec(s0.side_2, s0.head_position, next));
        assert(f.selected().sector_index_spec(o.side_2, o.head_position, next)
            == s0.selected().sector_index_spec(s0.side_2, s0.head_position, next));
        crate::media::lemma_sector_index_in_bounds(&s0.selected(), s0.side_2, s0.head_position, next);
    }
}

proof fn lemma_read_run_upto(states: Seq<FloppyController>, bytes: Seq<u8>, n: int, size: int, k: int)
    requires
        size >= 1,
        read_chain(states, bytes, n),
        read_started(states[0], size),
        0 <= k < n,
        forall|j: int| 0 < j < n && #[trigger] (j % size) == 0 ==> run_sector_ok(states[0], j / size, size),
    ensures
        read_run_at(states[0], states[k], size, k),
    decreases k,
{
    if k == 0 {
        assert(0int / size == 0 && 0int % size == 0);
    } else {
        lemma_read_run_upto(states, bytes, n, size, k - 1);
        lemma_read_run_step(states, bytes, n, size, k - 1);
    }
}

/// A single-sector READ keeps BUSY as it was through all the bytes of its
/// sector and then holds no cursor, so the next status poll clears BUSY
/// (`get_status`); the bytes are the sector's.
pub proof fn lemma_single_sector_read(states: Seq<FloppyController>, bytes: Seq<u8>, size: int)
    requires
        size >= 1,
        read_chain(states, bytes, size),
        read_started(states[0], size),
        !states[0].multi_sector,
    ensures
        forall|k: int| 0 <= k <= size ==> (#[trigger] states[k]).status == states[0].status,
        states[size].read_index == 0 && states[size].read_last == 0,
        states[size].data_buffer@.len() == 0,
        forall|k: int| 0 <= k < size ==> #[trigger] bytes[k] == states[0].selected().content@[states[0].read_index + k],
{
    let s0 = states[0];
    assert forall|j: int| 0 < j < size && #[trigger] (j % size) == 0 implies run_sector_ok(s0, j / size, size) by {
        vstd::arithmetic::div_mod::lemma_small_mod(j as nat, size as nat);
    }
    assert forall|k: int| 0 <= k < size implies #[trigger] bytes[k] == s0.selected().content@[s0.read_index + k]
        && states[k].status == s0.status by {
        lemma_read_run_upto(states, bytes, size, size, k);
        assert(k / size == 0 && k % size == k) by {
            vstd::arithmetic::div_mod::lemma_fundamental_div_mod_converse(k, size, 0, k);
        }
        assert(FloppyController::data_got(states[k], states[k + 1], bytes[k]));
    }
    lemma_read_run_upto(states, bytes, size, size, size - 1);
    assert((size - 1) / size == 0 && (size - 1) % size == size - 1) by {
        vstd::arithmetic::div_mod::lemma_fundamental_div_mod_converse(size - 1, size, 0, size - 1);
    }
    assert(FloppyController::data_got(states[size - 1], states[(size - 1) + 1], bytes[size - 1]));
    assert(states[size].status == s0.status);
    assert forall|k: int| 0 <= k <= size implies (#[trigger] states[k]).status == s0.status by {
        if k < size {
            lemma_read_run_upto(states, bytes, size, size, k);
        }
    }
}

/// A multi-sector READ over `count` sectors of `size` bytes, whose next
/// sector does not exist, stays BUSY through every byte but the last and
/// ends with Record Not Found and BUSY clear after its last byte: one
/// completion for the whole transfer.
pub proof fn lemma_multi_sector_read(states: Seq<FloppyController>, bytes: Seq<u8>, size: int, count: int)
    requires
        size >= 1,
        count >= 1,
        read_chain(states, bytes, count * size),
        read_started(states[0], size),
        states[0].multi_sector,
        states[0].sector + count <= 255,
        forall|j: int| 1 <= j < count ==> #[trigger] run_sector_ok(states[0], j, size),
        !states[0].selected().sector_index_spec(states[0].side_2, states[0].head_position, (states[0].sector + count) as u8).0,
    ensures
        forall|k: int| 0 <= k < count * size ==> (#[trigger] states[k]).status == states[0].status,
        states[count * size].status == STATUS_RNF,
        states[count * size].sector == states[0].sector + count,
{
    let s0 = states[0];
    let n = count * size;
    assert(n >= 1) by (nonlinear_arith) requires count >= 1, size >= 1, n == count * size;
    assert forall|j: int| 0 < j < n && #[trigger] (j % size) == 0 implies run_sector_ok(s0, j / size, size) by {
        vstd::arithmetic::div_mod::lemma_fundamental_div_mod(j, size);
        assert(1 <= j / size < count) by (nonlinear_arith)
            requires j == size * (j / size) + 0, 0 < j < count * size, size >= 1;
        assert(run_sector_ok(s0, j / size, size));
    }
    assert forall|k: int| 0 <= k < n implies (#[trigger] states[k]).status == s0.status by {
        lemma_read_run_upto(states, bytes, n, size, k);
    }
    lemma_read_run_upto(states, bytes, n, size, n - 1);
    assert((n - 1) / size == count - 1 && (n - 1) % size == size - 1) by {
        assert(n - 1 == (count - 1) * size + (size - 1)) by (nonlinear_arith) requires n == count * size;
        vstd::arithmetic::div_mod::lemma_fundamental_div_mod_converse(n - 1, size, count - 1, size - 1);
    }
    let o = states[n - 1];
    assert(FloppyController::data_got(states[n - 1], states[(n - 1) + 1], bytes[n - 1]));
    let last = (s0.sector + count) as u8;
    assert(o.selected().sector_index_spec(o.side_2, o.head_position, last)
        == s0.selected().sector_index_spec(s0.side_2, s0.head_position, last));
    assert(states[n].selected().sector_index_spec(o.side_2, o.head_position, last)
        == s0.selected().sector_index_spec(s0.side_2, s0.head_position, last));
}

} // verus!
