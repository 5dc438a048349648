//! In-memory floppy disk image with learned per-track geometry.

use vstd::arithmetic::div_mod::{lemma_div_is_ordered, lemma_div_is_ordered_by_denominator};
use vstd::prelude::*;

verus! {

/// Physical layout class of a floppy image, decided by its length.
#[derive(PartialEq, Eq, Structural, Clone, Copy, Debug)]
pub enum MediaFormat {
    Unformatted,
    /// Single-sided, single-density.
    SsSd,
    /// Single-sided, double-density.
    SsDd,
    /// Double-sided, double-density.
    DsDd,
}

pub open spec fn format_of_len(len: int) -> MediaFormat {
    if len == 102400 {
        MediaFormat::SsSd
    } else if 204800 <= len <= 205824 {
        MediaFormat::SsDd
    } else if 409600 <= len <= 411648 {
        MediaFormat::DsDd
    } else {
        MediaFormat::Unformatted
    }
}

/// Classifies an image by its byte length.
pub fn detect_media_format(len: usize) -> (r: MediaFormat)
    ensures
        r == format_of_len(len as int),
{
    if len == 102400 {
        MediaFormat::SsSd
    } else if 204800 <= len && len <= 205824 {
        MediaFormat::SsDd
    } else if 409600 <= len && len <= 411648 {
        MediaFormat::DsDd
    } else {
        MediaFormat::Unformatted
    }
}


/// Largest image this model holds: 40 tracks of 255 sectors of 128 bytes.
pub const MAX_IMAGE_LEN: usize = 1305600;

/// Number of (track, side) slots in the per-track geometry table.
pub const GEOMETRY_SLOTS: usize = 512;

/// Sector size in bytes for an IBM length code: 128·2ⁿ for codes up to 8.
/// Larger codes are no sector size (`code_valid`); they stand for 32768 bytes,
/// which no stream or image holds.
pub open spec fn size_for_code(n: u8) -> nat {
    if n == 0 {
        128
    } else if n == 1 {
        256
    } else if n == 2 {
        512
    } else if n == 3 {
        1024
    } else if n == 4 {
        2048
    } else if n == 5 {
        4096
    } else if n == 6 {
        8192
    } else if n == 7 {
        16384
    } else {
        32768
    }
}

/// Length codes whose size 128·2ⁿ the model holds.
pub open spec fn code_valid(n: u8) -> bool {
    n <= 8
}

/// Sector size in bytes for an IBM length code.
pub fn sector_size_for_code(n: u8) -> (r: usize)
    ensures
        r == size_for_code(n),
        128 <= r <= 32768,
{
    if n == 0 {
        128
    } else if n == 1 {
        256
    } else if n == 2 {
        512
    } else if n == 3 {
        1024
    } else if n == 4 {
        2048
    } else if n == 5 {
        4096
    } else if n == 6 {
        8192
    } else if n == 7 {
        16384
    } else {
        32768
    }
}

/// Why an image was refused.
#[derive(PartialEq, Eq, Structural, Clone, Copy, Debug)]
pub enum MediaError {
    /// No known format has this length.
    UnrecognizedFormat(usize),
}

/// Geometry of one track as learned from a WRITE TRACK stream.
#[derive(Clone, Copy, Debug)]
pub struct TrackGeometry {
    pub n: u8,
    pub sector_count: u8,
    pub sector_base: u8,
}

pub open spec fn slot_of(track: u8, side_2: bool) -> int {
    track as int * 2 + if side_2 { 1int } else { 0int }
}

/// Byte `j` of an image after its single-sided content, laid out with the
/// given per-side track stride, has been spread over two sides: the side-0
/// half of each track keeps the old track, the side-1 half is blank.
pub open spec fn upgraded_byte(old: Seq<u8>, stride: nat, j: int) -> u8 {
    let t = j / (2 * stride as int);
    let o = j % (2 * stride as int);
    if o < stride && t * stride + o < old.len() {
        old[t * stride + o]
    } else {
        0xE5
    }
}

/// A floppy disk image held in memory. Writes widen the dirty range
/// `[write_min, write_max]`, which `flush_disk` hands out and clears.
pub struct Media {
    /// Whether the image has a writable backing file.
    pub persistent: bool,
    pub name: String,
    pub content: Vec<u8>,
    pub format: MediaFormat,
    pub write_protected: bool,
    /// Sector ID base of side 1 headers (10 for standard Kaypro, 0 for KayPLUS).
    pub side1_sector_base: u8,
    /// Global sector length code learned from the first WRITE TRACK.
    pub learned_n: Option<u8>,
    /// Lowest sector ID seen by WRITE TRACK.
    pub learned_sector_base: Option<u8>,
    /// Per-track geometry, slot `track * 2 + side`.
    pub track_geometry: Vec<Option<TrackGeometry>>,
    pub write_min: usize,
    pub write_max: usize,
}

impl Media {
    pub open spec fn wf(&self) -> bool {
        &&& self.content@.len() <= MAX_IMAGE_LEN
        &&& self.track_geometry@.len() == GEOMETRY_SLOTS
        &&& self.range_empty() || (self.write_min <= self.write_max && self.write_max < self.content@.len())
    }

    /// The dirty range holds nothing.
    pub open spec fn range_empty(&self) -> bool {
        self.write_min == usize::MAX && self.write_max == 0
    }

    /// Everything but the content and the dirty range agrees.
    pub open spec fn same_layout(&self, other: &Media) -> bool {
        &&& self.persistent == other.persistent
        &&& self.name@ == other.name@
        &&& self.format == other.format
        &&& self.write_protected == other.write_protected
        &&& self.side1_sector_base == other.side1_sector_base
        &&& self.learned_n == other.learned_n
        &&& self.learned_sector_base == other.learned_sector_base
        &&& self.track_geometry@ == other.track_geometry@
    }

    pub open spec fn geometry_at(&self, track: u8, side_2: bool) -> Option<TrackGeometry> {
        self.track_geometry@[slot_of(track, side_2)]
    }

    /// Size of the sectors of one track: learned geometry first, globals otherwise.
    pub open spec fn sector_size_at(&self, track: u8, side_2: bool) -> nat {
        match self.geometry_at(track, side_2) {
            Some(g) => size_for_code(g.n),
            None => self.sector_size_spec(),
        }
    }

    /// The byte range `[first, last)` of a sector, or `(false, 0, 0)`.
    pub open spec fn sector_index_spec(&self, side_2: bool, track: u8, sector: u8) -> (bool, nat, nat) {
        let fail = (false, 0nat, 0nat);
        let len = self.content@.len();
        if side_2 && !self.is_double_sided() {
            fail
        } else if track >= self.tracks_spec() {
            fail
        } else {
            match self.geometry_at(track, side_2) {
                Some(g) => {
                    let size = size_for_code(g.n);
                    let stride = self.stride_spec();
                    if !code_valid(g.n) || sector < g.sector_base || sector - g.sector_base >= g.sector_count || stride == 0 {
                        fail
                    } else {
                        let first = stride * (track as nat * self.sides_spec() + if side_2 { 1nat } else { 0nat })
                            + (sector - g.sector_base) as nat * size;
                        if first + size > len { fail } else { (true, first, first + size) }
                    }
                },
                None => {
                    let base = self.sector_id_base_spec();
                    let spt = self.sectors_per_side_spec();
                    if sector < base || (self.learned_n.is_some() && !code_valid(self.learned_n.unwrap())) {
                        fail
                    } else {
                        let adjusted = (sector - base) as nat;
                        let mapped = if side_2 && adjusted < spt { adjusted + spt } else { adjusted };
                        if (!side_2 && mapped >= spt) || (side_2 && mapped >= self.sectors_spec()) {
                            fail
                        } else {
                            let size = self.sector_size_spec();
                            let first = (track as nat * self.sectors_spec() + mapped) * size;
                            if first + size > len { fail } else { (true, first, first + size) }
                        }
                    }
                },
            }
        }
    }

    /// First sector ID the controller meets on a track, or `(false, 0)`.
    pub open spec fn read_address_spec(&self, side_2: bool, track: u8) -> (bool, u8) {
        if track >= self.tracks_spec() || (side_2 && !self.is_double_sided()) {
            (false, 0)
        } else if self.format == MediaFormat::SsSd {
            (true, self.sector_id_base_spec() as u8)
        } else if side_2 {
            (true, self.side1_sector_base)
        } else {
            (true, 0)
        }
    }

    /// A blank image of the given content.
    pub fn from_content(name: String, content: Vec<u8>, format: MediaFormat, write_protected: bool, persistent: bool, side1_sector_base: u8) -> (m: Media)
        requires
            content@.len() <= MAX_IMAGE_LEN,
        ensures
            m.wf(),
            m.content@ == content@,
            m.name == name,
            m.format == format,
            m.write_protected == write_protected,
            m.persistent == persistent,
            m.side1_sector_base == side1_sector_base,
            m.learned_n.is_none(),
            m.learned_sector_base.is_none(),
            forall|i: int| 0 <= i < GEOMETRY_SLOTS ==> m.track_geometry@[i].is_none(),
            m.write_min == usize::MAX,
            m.write_max == 0,
    {
        let mut geometry: Vec<Option<TrackGeometry>> = Vec::new();
        let mut i: usize = 0;
        while i < GEOMETRY_SLOTS
            invariant
                i <= GEOMETRY_SLOTS,
                geometry@.len() == i,
                forall|j: int| 0 <= j < i ==> geometry@[j].is_none(),
            decreases GEOMETRY_SLOTS - i,
        {
            geometry.push(None);
            i = i + 1;
        }
        Media {
            persistent,
            name,
            content,
            format,
            write_protected,
            side1_sector_base,
            learned_n: None,
            learned_sector_base: None,
            track_geometry: geometry,
            write_min: usize::MAX,
            write_max: 0,
        }
    }

    pub open spec fn is_double_sided(&self) -> bool {
        self.format == MediaFormat::DsDd
    }

    pub open spec fn tracks_spec(&self) -> nat {
        if self.format == MediaFormat::Unformatted { 0 } else { 40 }
    }

    pub open spec fn sides_spec(&self) -> nat {
        if self.is_double_sided() { 2 } else { 1 }
    }

    pub open spec fn sectors_per_side_spec(&self) -> nat {
        match self.learned_n {
            Some(n) => if self.tracks_spec() == 0 {
                0
            } else {
                self.content@.len() / self.tracks_spec() / self.sides_spec() / size_for_code(n)
            },
            None => if self.format == MediaFormat::Unformatted { 0 } else { 10 },
        }
    }

    pub open spec fn sectors_spec(&self) -> nat {
        self.sectors_per_side_spec() * self.sides_spec()
    }

    pub open spec fn sector_size_spec(&self) -> nat {
        match self.learned_n {
            Some(n) => size_for_code(n),
            None => if self.format == MediaFormat::SsSd { 256 } else { 512 },
        }
    }

    pub open spec fn sector_id_base_spec(&self) -> nat {
        match self.learned_sector_base {
            Some(b) => b as nat,
            None => if self.format == MediaFormat::SsSd { 1 } else { 0 },
        }
    }

    pub open spec fn stride_spec(&self) -> nat {
        self.sectors_per_side_spec() * self.sector_size_spec()
    }

    /// Replaces the image with new content, its format read from its length.
    /// Learned geometry is forgotten and the dirty range emptied; the caller
    /// flushes the old image first. A read-only image is write-protected and
    /// has no backing file to flush to.
    pub fn load_disk(&mut self, name: String, content: Vec<u8>, read_only: bool) -> (r: Result<(), MediaError>)
        requires
            old(self).wf(),
        ensures
            final(self).wf(),
            format_of_len(content@.len() as int) == MediaFormat::Unformatted <==> r.is_err(),
            r.is_err() ==> *final(self) == *old(self) && r == Err::<(), MediaError>(MediaError::UnrecognizedFormat(content@.len() as usize)),
            r.is_ok() ==> {
                &&& final(self).content@ == content@
                &&& final(self).name@ == name@
                &&& final(self).format == format_of_len(content@.len() as int)
                &&& final(self).write_protected == read_only
                &&& final(self).persistent == !read_only
                &&& final(self).learned_n.is_none()
                &&& final(self).learned_sector_base.is_none()
                &&& forall|i: int| 0 <= i < GEOMETRY_SLOTS ==> final(self).track_geometry@[i].is_none()
                &&& final(self).range_empty()
                &&& final(self).side1_sector_base == old(self).side1_sector_base
            },
    {
        let format = detect_media_format(content.len());
        if format == MediaFormat::Unformatted {
            return Err(MediaError::UnrecognizedFormat(content.len()));
        }
        let fresh = Media::from_content(name, content, format, read_only, !read_only, self.side1_sector_base);
        *self = fresh;
        Ok(())
    }

    pub fn double_sided(&self) -> (r: bool)
        ensures
            r == self.is_double_sided(),
    {
        self.format == MediaFormat::DsDd
    }

    pub fn tracks(&self) -> (r: u8)
        ensures
            r == self.tracks_spec(),
    {
        match self.format {
            MediaFormat::Unformatted => 0,
            _ => 40,
        }
    }

    pub proof fn lemma_sectors_per_side_bound(&self)
        requires
            self.wf(),
        ensures
            self.sectors_per_side_spec() <= 255,
            self.is_double_sided() ==> self.sectors_per_side_spec() <= 127,
            self.sector_size_spec() <= 32768,
            self.sector_size_spec() >= 128,
            self.stride_spec() <= 32640,
    {
        if let Some(n) = self.learned_n {
            if self.tracks_spec() != 0 {
                let len = self.content@.len() as int;
                lemma_div_is_ordered(len, 1305600, 40);
                let a = len / 40;
                let sides = self.sides_spec() as int;
                lemma_div_is_ordered_by_denominator(a, 1, sides);
                let b = a / sides;
                let size = size_for_code(n) as int;
                lemma_div_is_ordered_by_denominator(b, 128, size);
                lemma_div_is_ordered(b, 32640, 128);
                if self.is_double_sided() {
                    lemma_div_is_ordered(a, 32640, 2);
                    lemma_div_is_ordered(b, 16320, 128);
                }
                vstd::arithmetic::div_mod::lemma_fundamental_div_mod(b, size);
                vstd::arithmetic::div_mod::lemma_mod_bound(b, size);
                assert((b / size) * size <= b) by (nonlinear_arith)
                    requires b == size * (b / size) + b % size, b % size >= 0;
                vstd::arithmetic::div_mod::lemma_div_pos_is_pos(len, 40);
                lemma_div_is_ordered_by_denominator(a, 1, sides);
            }
        }
    }

    pub fn sectors_per_side(&self) -> (r: u8)
        requires
            self.wf(),
        ensures
            r == self.sectors_per_side_spec(),
    {
        proof {
            self.lemma_sectors_per_side_bound();
        }
        if let Some(n) = self.learned_n {
            let t = self.tracks() as usize;
            if t == 0 {
                return 0;
            }
            let sides: usize = if self.double_sided() { 2 } else { 1 };
            let size = sector_size_for_code(n);
            (self.content.len() / t / sides / size) as u8
        } else {
            match self.format {
                MediaFormat::Unformatted => 0,
                _ => 10,
            }
        }
    }

    pub fn sectors(&self) -> (r: u8)
        requires
            self.wf(),
        ensures
            r == self.sectors_spec(),
    {
        proof {
            self.lemma_sectors_per_side_bound();
        }
        if self.double_sided() {
            self.sectors_per_side() * 2
        } else {
            self.sectors_per_side()
        }
    }

    pub fn sector_size(&self) -> (r: usize)
        ensures
            r == self.sector_size_spec(),
    {
        if let Some(n) = self.learned_n {
            sector_size_for_code(n)
        } else {
            match self.format {
                MediaFormat::SsSd => 256,
                _ => 512,
            }
        }
    }

    pub fn sector_id_base(&self) -> (r: u8)
        ensures
            r == self.sector_id_base_spec(),
    {
        if let Some(base) = self.learned_sector_base {
            base
        } else {
            match self.format {
                MediaFormat::SsSd => 1,
                _ => 0,
            }
        }
    }

    pub fn track_stride_per_side(&self) -> (r: usize)
        requires
            self.wf(),
        ensures
            r == self.stride_spec(),
            r <= 32640,
    {
        proof {
            self.lemma_sectors_per_side_bound();
        }
        self.sectors_per_side() as usize * self.sector_size()
    }

    pub fn is_valid_track(&self, track: u8) -> (r: bool)
        ensures
            r == (track < self.tracks_spec()),
    {
        track < self.tracks()
    }

    pub fn is_write_protected(&self) -> (r: bool)
        ensures
            r == self.write_protected,
    {
        self.write_protected
    }

    pub fn sector_index(&self, side_2: bool, track: u8, sector: u8) -> (r: (bool, usize, usize))
        requires
            self.wf(),
        ensures
            r.0 == self.sector_index_spec(side_2, track, sector).0,
            r.1 == self.sector_index_spec(side_2, track, sector).1,
            r.2 == self.sector_index_spec(side_2, track, sector).2,
    {
        if side_2 && !self.double_sided() {
            return (false, 0, 0);
        }
        if track >= self.tracks() {
            return (false, 0, 0);
        }
        proof {
            self.lemma_sectors_per_side_bound();
        }
        let slot = track as usize * 2 + if side_2 { 1usize } else { 0usize };
        if let Some(geom) = self.track_geometry[slot] {
            let size = sector_size_for_code(geom.n);
            if geom.n > 8 || sector < geom.sector_base {
                return (false, 0, 0);
            }
            let adjusted = sector - geom.sector_base;
            if adjusted >= geom.sector_count {
                return (false, 0, 0);
            }
            let stride = self.track_stride_per_side();
            if stride == 0 {
                return (false, 0, 0);
            }
            let sides: usize = if self.double_sided() { 2 } else { 1 };
            let side_idx: usize = if side_2 { 1 } else { 0 };
            proof {
                vstd::arithmetic::mul::lemma_mul_upper_bound(
                    stride as int, 32640int, track as int * sides as int + side_idx as int, 80);
                vstd::arithmetic::mul::lemma_mul_upper_bound(adjusted as int, 255, size as int, 32768);
            }
            let first = stride * (track as usize * sides + side_idx) + adjusted as usize * size;
            if first + size > self.content.len() {
                return (false, 0, 0);
            }
            return (true, first, first + size);
        }
        let base = self.sector_id_base();
        if sector < base {
            return (false, 0, 0);
        }
        if let Some(n) = self.learned_n {
            if n > 8 {
                return (false, 0, 0);
            }
        }
        let adjusted = sector - base;
        let spt = self.sectors_per_side();
        let sectors = self.sectors();
        let mapped: usize = if side_2 && adjusted < spt {
            adjusted as usize + spt as usize
        } else {
            adjusted as usize
        };
        if !side_2 && mapped >= spt as usize {
            return (false, 0, 0);
        }
        if side_2 && mapped >= sectors as usize {
            return (false, 0, 0);
        }
        let size = self.sector_size();
        proof {
            vstd::arithmetic::mul::lemma_mul_upper_bound(track as int, 40, sectors as int, 255);
            vstd::arithmetic::mul::lemma_mul_upper_bound(
                track as int * sectors as int + mapped as int, 10455int, size as int, 32768);
        }
        let first = (track as usize * sectors as usize + mapped) * size;
        if first + size > self.content.len() {
            return (false, 0, 0);
        }
        (true, first, first + size)
    }

    pub fn read_address(&self, side_2: bool, track: u8, sector: u8) -> (r: (bool, u8))
        ensures
            r == self.read_address_spec(side_2, track),
    {
        if track >= self.tracks() || (side_2 && !self.double_sided()) {
            return (false, 0);
        }
        let base = if self.format == MediaFormat::SsSd {
            self.sector_id_base()
        } else if side_2 {
            self.side1_sector_base
        } else {
            0
        };
        (true, base)
    }

    pub fn read_byte(&self, index: usize) -> (r: u8)
        requires
            index < self.content@.len(),
        ensures
            r == self.content@[index as int],
    {
        self.content[index]
    }

    pub fn write_byte(&mut self, index: usize, value: u8)
        requires
            old(self).wf(),
            index < old(self).content@.len(),
        ensures
            final(self).wf(),
            final(self).same_layout(old(self)),
            final(self).content@ == old(self).content@.update(index as int, value),
            final(self).write_min == if index < old(self).write_min { index } else { old(self).write_min },
            final(self).write_max == if index > old(self).write_max { index } else { old(self).write_max },
    {
        self.content.set(index, value);
        if index < self.write_min {
            self.write_min = index;
        }
        if index > self.write_max {
            self.write_max = index;
        }
    }

    /// Hands out the dirty range (its first offset and its bytes) and empties it.
    pub fn flush_disk(&mut self) -> (r: Option<(usize, Vec<u8>)>)
        requires
            old(self).wf(),
        ensures
            final(self).wf(),
            final(self).same_layout(old(self)),
            final(self).content@ == old(self).content@,
            final(self).write_min == usize::MAX,
            final(self).write_max == 0,
            old(self).write_max < old(self).write_min ==> r.is_none(),
            old(self).write_min <= old(self).write_max ==> r.is_some()
                && r.unwrap().0 == old(self).write_min
                && r.unwrap().1@ == old(self).content@.subrange(
                    old(self).write_min as int, old(self).write_max as int + 1),
    {
        if self.write_max < self.write_min {
            self.write_max = 0;
            self.write_min = usize::MAX;
            return None;
        }
        let start = self.write_min;
        let end = self.write_max;
        let mut bytes: Vec<u8> = Vec::new();
        let mut i: usize = start;
        while i <= end
            invariant
                start <= i <= end + 1,
                end < self.content@.len(),
                self.content@.len() <= MAX_IMAGE_LEN,
                bytes@ == self.content@.subrange(start as int, i as int),
            decreases end + 1 - i,
        {
            bytes.push(self.content[i]);
            i = i + 1;
        }
        self.write_max = 0;
        self.write_min = usize::MAX;
        Some((start, bytes))
    }

    /// Re-lays a single-sided image out as double-sided: each track keeps its
    /// data on side 0 and gets a blank side 1. The whole image becomes dirty.
    /// An image that is double-sided already, has no tracks, or would grow
    /// past `MAX_IMAGE_LEN` is left as it is.
    pub fn upgrade_to_double_sided(&mut self)
        requires
            old(self).wf(),
        ensures
            final(self).wf(),
            ({
                let stride = old(self).stride_spec();
                let new_len = old(self).tracks_spec() * 2 * stride;
                if old(self).is_double_sided() || new_len == 0 || new_len > MAX_IMAGE_LEN {
                    *final(self) == *old(self)
                } else {
                    &&& final(self).format == MediaFormat::DsDd
                    &&& final(self).content@.len() == new_len
                    &&& forall|j: int| 0 <= j < new_len ==>
                        #[trigger] final(self).content@[j] == upgraded_byte(old(self).content@, stride, j)
                    &&& final(self).write_min == 0
                    &&& final(self).write_max == new_len - 1
                    &&& final(self).persistent == old(self).persistent
                    &&& final(self).name@ == old(self).name@
                    &&& final(self).write_protected == old(self).write_protected
                    &&& final(self).side1_sector_base == old(self).side1_sector_base
                    &&& final(self).learned_n == old(self).learned_n
                    &&& final(self).learned_sector_base == old(self).learned_sector_base
                    &&& final(self).track_geometry@ == old(self).track_geometry@
                }
            }),
    {
        if self.double_sided() {
            return;
        }
        let tracks = self.tracks() as usize;
        let stride = self.track_stride_per_side();
        proof {
            vstd::arithmetic::mul::lemma_mul_upper_bound(tracks as int * 2, 80, stride as int, 32640);
        }
        let new_len = tracks * 2 * stride;
        if new_len == 0 || new_len > MAX_IMAGE_LEN {
            return;
        }
        let width = 2 * stride;
        assert(width > 0) by (nonlinear_arith)
            requires new_len == tracks * 2 * stride, new_len > 0, width == 2 * stride;
        let mut content: Vec<u8> = Vec::new();
        let mut j: usize = 0;
        while j < new_len
            invariant
                j <= new_len,
                new_len <= MAX_IMAGE_LEN,
                width == 2 * stride,
                width > 0,
                content@.len() == j,
                forall|k: int| 0 <= k < j ==> #[trigger] content@[k] == upgraded_byte(self.content@, stride as nat, k),
            decreases new_len - j,
        {
            let t = j / width;
            let o = j % width;
            proof {
                vstd::arithmetic::div_mod::lemma_fundamental_div_mod(j as int, width as int);
                assert(t * stride + o <= j) by (nonlinear_arith)
                    requires j == width * t + o, width == 2 * stride, t >= 0, o >= 0;
            }
            let src = t * stride + o;
            let b = if o < stride && src < self.content.len() { self.content[src] } else { 0xE5u8 };
            content.push(b);
            j = j + 1;
        }
        self.content = content;
        self.format = MediaFormat::DsDd;
        self.write_min = 0;
        self.write_max = new_len - 1;
    }

    /// Name, persistence and format of the image, for display.
    pub fn info(&self) -> (r: String) {
        let mut s = self.name.clone();
        s.append(" (");
        s.append(if self.persistent { "persistent" } else { "transient" });
        s.append(" ");
        s.append(match self.format {
            MediaFormat::Unformatted => " (unformatted)",
            MediaFormat::SsSd => " (SSSD)",
            MediaFormat::SsDd => " (SSDD)",
            MediaFormat::DsDd => " (DSDD)",
        });
        s.append(")");
        s
    }
} // impl Media

/// Every sector that the mapping accepts lies inside the image and spans
/// exactly one sector of the size that its track uses.
pub proof fn lemma_sector_index_in_bounds(m: &Media, side_2: bool, track: u8, sector: u8)
    requires
        m.wf(),
        m.sector_index_spec(side_2, track, sector).0,
    ensures
        ({
            let (ok, first, last) = m.sector_index_spec(side_2, track, sector);
            &&& first < last <= m.content@.len()
            &&& last - first == m.sector_size_at(track, side_2)
        }),
{
    m.lemma_sectors_per_side_bound();
}

} // verus!
