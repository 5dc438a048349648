//! WD1002-05 Winchester controller of the Kaypro 10: a task-file register
//! set, read / write / format / seek commands with multi-sector chaining, and
//! an INTRQ line raised when a transfer command completes.

use vstd::prelude::*;
use crate::hard_disk_image::{ControllerWriteSource, HardDiskImage, CYLINDERS, HEADS, SECTORS_PER_TRACK, SECTOR_SIZE, DATA_SIZE};

verus! {

pub const REG_DATA: usize = 0;
pub const REG_ERROR: usize = 1;
pub const REG_PRECOMP: usize = 1;
pub const REG_SEC_COUNT: usize = 2;
pub const REG_SECTOR: usize = 3;
pub const REG_CYL_LO: usize = 4;
pub const REG_CYL_HI: usize = 5;
pub const REG_SDH: usize = 6;
pub const REG_STATUS: usize = 7;
pub const REG_CMD: usize = 7;

pub const STS_BUSY: u8 = 0x80;
pub const STS_READY: u8 = 0x40;
pub const STS_WRITE_FAULT: u8 = 0x20;
pub const STS_SEEK_DONE: u8 = 0x10;
pub const STS_DRQ: u8 = 0x08;
pub const STS_CORR: u8 = 0x04;
pub const STS_ERROR: u8 = 0x01;

pub const ERR_CRC: u8 = 0x20;
pub const ERR_ID_NOT_FOUND: u8 = 0x10;
pub const ERR_ABORTED: u8 = 0x04;
pub const ERR_DAM_NOT_FOUND: u8 = 0x01;

/// Power-up diagnostic code: the WD2797 floppy chip is missing.
pub const DIAG_WD2797_ERR: u8 = 0x01;

pub const CMD_RESTORE: u8 = 0x10;
pub const CMD_READ: u8 = 0x20;
pub const CMD_WRITE: u8 = 0x30;
pub const CMD_FORMAT_TRACK: u8 = 0x50;
pub const CMD_SEEK: u8 = 0x70;
pub const CMD_TEST: u8 = 0x90;
pub const CMD_MULTI: u8 = 0x04;
pub const CMD_LONG: u8 = 0x02;

/// Status reads after a reset before the power-up diagnostics complete.
pub const RESET_DIAG_POLLS: u32 = 1024;
/// The Kaypro 10 wires drive select 2 (LUN 1).
pub const ACTIVE_DRIVE_SELECT: u8 = 0x01;
/// Room for the largest sector and its four ECC bytes.
pub const DATA_BUF_SIZE: usize = 1028;

#[derive(Clone, Copy, PartialEq, Eq, Structural, Debug)]
pub enum TransferPhase {
    Idle,
    ReadData,
    WriteData,
    FormatData,
}

#[derive(Clone, Copy, PartialEq, Eq, Structural, Debug)]
pub enum PendingCompletion {
    SeekOk,
    SeekErr(u8),
}

#[derive(Clone, Copy, Debug)]
pub struct WdDebugSnapshot {
    pub cmd: u8,
    pub status: u8,
    pub sec_count: u8,
    pub sector: u8,
    pub cyl: u16,
    pub sdh: u8,
    pub xfer_size: usize,
    pub data_ix: usize,
    pub phase: u8,
    pub pending_offset: u64,
    pub logical_spt: u8,
    pub last_load_offset: u64,
    pub last_load_sum128: u16,
    pub last_load_sum_full: u16,
}

/// Sector size selected by SDH bits 6:5.
pub open spec fn sector_size_of(sdh: u8) -> nat {
    let code = (sdh / 32) % 4;
    if code == 0 { 256 } else if code == 1 { 512 } else if code == 2 { 1024 } else { 128 }
}

/// Sectors per track for a sector size.
pub open spec fn spt_of(size: nat) -> nat {
    if size == 256 { 32 } else if size == 512 { 17 } else if size == 1024 { 8 } else if size == 128 { 64 } else { 17 }
}

/// Physical sector (1-based) that holds each group of four 128-byte records.
pub open spec fn interleave(i: int) -> int {
    seq![1int, 6, 11, 16, 4, 9, 14, 2, 7, 12, 17, 5, 10, 15, 3, 8][i]
}

pub open spec fn track_base_spec(cyl: int, head: int) -> int {
    (cyl * 4 + head) * 17 * 512
}

/// Byte offset of a sector in the image, or `None` when the address is not
/// valid for the sector size.
pub open spec fn chs_offset(cyl: int, head: int, sec: int, size: nat) -> Option<int> {
    if cyl >= 306 || head >= 4 || sec >= spt_of(size) {
        None
    } else {
        let base = track_base_spec(cyl, head);
        let off = if size == 128 {
            base + (interleave(sec / 4) - 1) * 512 + (sec % 4) * 128
        } else {
            base + sec * size
        };
        if off + size > base + 17 * 512 { None } else { Some(off) }
    }
}

/// Status after a command ends: BUSY, DRQ, WRITE FAULT and CORRECTED
/// cleared, SEEK DONE set, READY from the drive select, ERROR set on failure.
pub open spec fn done_status(old: u8, ready: bool, error: bool) -> u8 {
    (old & 0x13) | 0x10 | (if ready { 0x40u8 } else { 0u8 }) | (if error { 0x01u8 } else { 0u8 })
}

fn done_status_exec(old: u8, ready: bool, error: bool) -> (r: u8)
    ensures
        r == done_status(old, ready, error),
        r & STS_BUSY == 0,
        r & STS_DRQ == 0,
        r & STS_SEEK_DONE != 0,
        (r & STS_READY != 0) == ready,
        (r & STS_ERROR != 0) == (error || old & STS_ERROR != 0),
{
    let a: u8 = if ready { 0x40 } else { 0 };
    let e: u8 = if error { 0x01 } else { 0 };
    let r = (old & 0x13) | 0x10 | a | e;
    assert(r & 0x80 == 0 && r & 0x08 == 0 && r & 0x10 != 0) by (bit_vector)
        requires r == (old & 0x13) | 0x10 | a | e, a == 0 || a == 0x40, e == 0 || e == 1;
    assert((r & 0x40 != 0) == (a == 0x40)) by (bit_vector)
        requires r == (old & 0x13) | 0x10 | a | e, a == 0 || a == 0x40, e == 0 || e == 1;
    assert((r & 0x01 != 0) == (e == 1 || old & 0x01 != 0)) by (bit_vector)
        requires r == (old & 0x13) | 0x10 | a | e, a == 0 || a == 0x40, e == 0 || e == 1;
    r
}

/// Address after a sector of a multi-sector command: the next sector, then
/// the next head, then the next cylinder.
pub open spec fn next_chs(cyl: int, head: int, sec: int, spt: int) -> (int, int, int) {
    if sec + 1 < spt && sec + 1 < 256 {
        (cyl, head, sec + 1)
    } else if head + 1 < 4 {
        (cyl, head + 1, 0)
    } else {
        ((cyl + 1) % 65536, 0, 0)
    }
}

/// Sectors that FORMAT TRACK formats: the sector count, 0 meaning a whole
/// track, at most a track.
pub open spec fn format_count_spec(count: u8, spt: u8) -> nat {
    if count == 0 || count > spt { spt as nat } else { count as nat }
}

pub fn format_count(count: u8, spt: u8) -> (r: usize)
    ensures
        r == format_count_spec(count, spt),
{
    if count == 0 || count > spt { spt as usize } else { count as usize }
}

pub open spec fn cyl_of(regs: Seq<u8>) -> int {
    regs[REG_CYL_HI as int] as int * 256 + regs[REG_CYL_LO as int] as int
}

pub open spec fn head_of(regs: Seq<u8>) -> int {
    regs[REG_SDH as int] as int % 8
}

/// The checks made before a command runs: diagnostics done, a Winchester
/// selected on the Kaypro 10's drive select, no write fault.
pub open spec fn may_run_regs(regs: Seq<u8>, diag: u32) -> bool {
    let lun = (regs[REG_SDH as int] as int / 8) % 4;
    &&& diag == 0
    &&& lun != 3
    &&& lun == ACTIVE_DRIVE_SELECT
    &&& regs[REG_STATUS as int] & STS_WRITE_FAULT == 0
}

/// Offset of the sector that FORMAT TRACK entry `id` names (0-based or
/// 1-based IDs are both taken), or `None` for an ID out of range.
pub open spec fn format_offset(track_base: int, id: u8, spt: nat, size: nat) -> Option<int> {
    if (id as nat) < spt {
        Some(track_base + id as int * size)
    } else if 1 <= id && (id as nat) <= spt {
        Some(track_base + (id as int - 1) * size)
    } else {
        None
    }
}

/// After FORMAT TRACK: each of the first `n` entries of the interleave table
/// names a sector that is zero-filled, unless it is a protected sector.
pub open spec fn formatted_zero(data: Seq<u8>, table: Seq<u8>, n: int, track_base: int, spt: nat, size: nat) -> bool {
    forall|i: int, k: int| #![trigger table[i], data[k]] 0 <= i < n && format_offset(track_base, table[i], spt, size).is_some()
        && !crate::hard_disk_image::touches_protected(format_offset(track_base, table[i], spt, size).unwrap(), size as int)
        && format_offset(track_base, table[i], spt, size).unwrap() <= k < format_offset(track_base, table[i], spt, size).unwrap() + size
        ==> data[k] == 0
}

pub struct Wd1002Controller {
    /// Task file: data, error/precomp, sector count, sector, cylinder low,
    /// cylinder high, SDH, status/command.
    pub regs: Vec<u8>,
    pub cur_cmd: u8,
    pub precomp: u8,
    pub image: HardDiskImage,
    pub data_buf: Vec<u8>,
    pub data_len: usize,
    pub data_ix: usize,
    pub phase: TransferPhase,
    pub pending_offset: u64,
    pub intrq: bool,
    pub reset_gate_high: bool,
    pub xfer_size: usize,
    pub remaining_sectors: u16,
    pub diag_polls_remaining: u32,
    pub complete_polls_remaining: u8,
    pub pending_completion: Option<PendingCompletion>,
    pub last_load_offset: u64,
    pub last_load_sum128: u16,
    pub last_load_sum_full: u16,
}

impl Wd1002Controller {
    pub open spec fn wf(&self) -> bool {
        &&& self.regs@.len() == 8
        &&& self.image.wf()
        &&& self.data_buf@.len() == DATA_BUF_SIZE
        &&& self.data_ix <= self.data_len <= DATA_BUF_SIZE
        &&& (self.xfer_size == 128 || self.xfer_size == 256 || self.xfer_size == 512 || self.xfer_size == 1024)
        &&& self.phase == TransferPhase::WriteData ==> self.pending_offset + self.xfer_size <= DATA_SIZE
    }

    pub open spec fn sdh(&self) -> u8 {
        self.regs@[REG_SDH as int]
    }

    pub open spec fn cyl_spec(&self) -> int {
        self.regs@[REG_CYL_HI as int] as int * 256 + self.regs@[REG_CYL_LO as int] as int
    }

    pub open spec fn head_spec(&self) -> int {
        self.sdh() as int % 8
    }

    pub open spec fn lun_spec(&self) -> int {
        (self.sdh() as int / 8) % 4
    }

    pub open spec fn drive_ready_spec(&self) -> bool {
        self.lun_spec() == ACTIVE_DRIVE_SELECT
    }

    /// The controller has no deferred event to run on the next tick.
    pub open spec fn quiescent(&self) -> bool {
        self.diag_polls_remaining == 0 && self.complete_polls_remaining == 0
    }

    /// A controller over an image, in the state of a hardware reset.
    pub fn new(image: HardDiskImage) -> (r: Wd1002Controller)
        requires
            image.wf(),
        ensures
            r.wf(),
            r.image == image,
            r.regs@[REG_STATUS as int] == STS_BUSY,
            r.diag_polls_remaining == RESET_DIAG_POLLS,
            r.phase == TransferPhase::Idle,
            !r.intrq,
    {
        let mut me = Wd1002Controller {
            regs: vec![0u8; 8],
            cur_cmd: 0,
            precomp: 0,
            image,
            data_buf: vec![0u8; DATA_BUF_SIZE],
            data_len: 0,
            data_ix: 0,
            phase: TransferPhase::Idle,
            pending_offset: 0,
            intrq: false,
            reset_gate_high: false,
            xfer_size: 512,
            remaining_sectors: 1,
            diag_polls_remaining: 0,
            complete_polls_remaining: 0,
            pending_completion: None,
            last_load_offset: 0,
            last_load_sum128: 0,
            last_load_sum_full: 0,
        };
        me.reset();
        me
    }

    /// Hardware reset: registers cleared, BUSY until the power-up diagnostics
    /// have seen `RESET_DIAG_POLLS` status polls.
    pub fn reset(&mut self)
        requires
            old(self).wf(),
        ensures
            final(self).wf(),
            final(self).image == old(self).image,
            final(self).reset_gate_high == old(self).reset_gate_high,
            forall|i: int| 0 <= i < 8 && i != REG_STATUS ==> final(self).regs@[i] == 0,
            final(self).regs@[REG_STATUS as int] == STS_BUSY,
            final(self).cur_cmd == 0,
            final(self).phase == TransferPhase::Idle,
            final(self).data_ix == 0 && final(self).data_len == 0,
            !final(self).intrq,
            final(self).xfer_size == 512,
            final(self).remaining_sectors == 1,
            final(self).diag_polls_remaining == RESET_DIAG_POLLS,
            final(self).complete_polls_remaining == 0,
            final(self).pending_completion.is_none(),
    {
        self.regs = vec![0u8; 8];
        self.cur_cmd = 0;
        self.precomp = 0;
        self.data_ix = 0;
        self.data_len = 0;
        self.phase = TransferPhase::Idle;
        self.pending_offset = 0;
        self.intrq = false;
        self.xfer_size = 512;
        self.remaining_sectors = 1;
        self.regs.set(REG_STATUS, STS_BUSY);
        self.diag_polls_remaining = RESET_DIAG_POLLS;
        self.complete_polls_remaining = 0;
        self.pending_completion = None;
        self.last_load_offset = 0;
        self.last_load_sum128 = 0;
        self.last_load_sum_full = 0;
    }

    /// Bit 1 of the system port: a low-to-high edge resets the controller.
    pub fn on_system_port_write(&mut self, bits: u8)
        requires
            old(self).wf(),
        ensures
            final(self).wf(),
            final(self).reset_gate_high == (bits & 0x02 != 0),
            (bits & 0x02 != 0 && !old(self).reset_gate_high) ==> final(self).diag_polls_remaining == RESET_DIAG_POLLS
                && final(self).regs@[REG_STATUS as int] == STS_BUSY && !final(self).intrq,
            !(bits & 0x02 != 0 && !old(self).reset_gate_high) ==> *final(self) == (Wd1002Controller {
                reset_gate_high: bits & 0x02 != 0, ..*old(self)
            }),
    {
        let high = bits & 0x02 != 0;
        if high && !self.reset_gate_high {
            self.reset();
        }
        self.reset_gate_high = high;
    }

    /// Takes the INTRQ line: returns it and clears it.
    pub fn take_intrq(&mut self) -> (r: bool)
        ensures
            r == old(self).intrq,
            *final(self) == (Wd1002Controller { intrq: false, ..*old(self) }),
    {
        let pending = self.intrq;
        if pending {
            self.intrq = false;
        }
        pending
    }

    fn get_head(&self) -> (r: u8)
        requires
            self.wf(),
        ensures
            r == self.head_spec(),
    {
        self.regs[REG_SDH] % 8
    }

    fn get_lun(&self) -> (r: u8)
        requires
            self.wf(),
        ensures
            r == self.lun_spec(),
    {
        (self.regs[REG_SDH] / 8) % 4
    }

    fn selected_winchester(&self) -> (r: bool)
        requires
            self.wf(),
        ensures
            r == (self.lun_spec() != 3),
    {
        self.get_lun() != 3
    }

    fn drive_ready(&self) -> (r: bool)
        requires
            self.wf(),
        ensures
            r == self.drive_ready_spec(),
    {
        self.selected_winchester() && self.get_lun() == ACTIVE_DRIVE_SELECT
    }

    fn get_sector_size(&self) -> (r: usize)
        requires
            self.wf(),
        ensures
            r == sector_size_of(self.sdh()),
    {
        let code = (self.regs[REG_SDH] / 32) % 4;
        if code == 0 { 256 } else if code == 1 { 512 } else if code == 2 { 1024 } else { 128 }
    }

    fn get_sectors_per_track(&self) -> (r: u8)
        requires
            self.wf(),
        ensures
            r == spt_of(self.xfer_size as nat),
    {
        let size = self.xfer_size;
        if size == 256 { 32 } else if size == 512 { 17 } else if size == 1024 { 8 } else if size == 128 { 64 } else { 17 }
    }

    fn get_cyl(&self) -> (r: u16)
        requires
            self.wf(),
        ensures
            r == self.cyl_spec(),
    {
        self.regs[REG_CYL_HI] as u16 * 256 + self.regs[REG_CYL_LO] as u16
    }

    fn is_valid_ch(&self) -> (r: bool)
        requires
            self.wf(),
        ensures
            r == (self.cyl_spec() < 306 && self.head_spec() < 4),
    {
        (self.get_cyl() as u64) < CYLINDERS && (self.get_head() as u64) < HEADS
    }

    /// Byte offset of the addressed sector.
    fn compute_offset(&self) -> (r: Option<u64>)
        requires
            self.wf(),
        ensures
            r.is_some() == chs_offset(self.cyl_spec(), self.head_spec(), self.regs@[REG_SECTOR as int] as int, self.xfer_size as nat).is_some(),
            r.is_some() ==> r.unwrap() == chs_offset(self.cyl_spec(), self.head_spec(), self.regs@[REG_SECTOR as int] as int, self.xfer_size as nat).unwrap(),
            r.is_some() ==> r.unwrap() + self.xfer_size <= DATA_SIZE,
    {
        let cyl = self.get_cyl() as u64;
        let head = self.get_head() as u64;
        if cyl >= CYLINDERS || head >= HEADS {
            return None;
        }
        let sec = self.regs[REG_SECTOR] as u64;
        let spt = self.get_sectors_per_track() as u64;
        if sec >= spt {
            return None;
        }
        let track_base = (cyl * HEADS + head) * SECTORS_PER_TRACK * SECTOR_SIZE;
        let table: [u64; 16] = [1, 6, 11, 16, 4, 9, 14, 2, 7, 12, 17, 5, 10, 15, 3, 8];
        let offset = if self.xfer_size == 128 {
            let phys = table[(sec / 4) as usize];
            proof {
                assert(table@ =~= seq![1u64, 6, 11, 16, 4, 9, 14, 2, 7, 12, 17, 5, 10, 15, 3, 8]);
                assert(phys as int == interleave(sec as int / 4));
            }
            track_base + (phys - 1) * SECTOR_SIZE + (sec % 4) * 128
        } else {
            track_base + sec * (self.xfer_size as u64)
        };
        if offset + (self.xfer_size as u64) > track_base + SECTORS_PER_TRACK * SECTOR_SIZE {
            return None;
        }
        Some(offset)
    }

    /// Ends a command successfully. INTRQ is raised for every command but SEEK,
    /// whose completion the host polls.
    fn complete_ok(&mut self)
        requires
            old(self).wf(),
        ensures
            final(self).wf(),
            final(self).phase == TransferPhase::Idle,
            final(self).data_ix == 0 && final(self).data_len == 0,
            final(self).regs@ == old(self).regs@.update(REG_STATUS as int,
                done_status(old(self).regs@[REG_STATUS as int], old(self).drive_ready_spec(), false)),
            final(self).intrq == (old(self).cur_cmd & 0xF0 != CMD_SEEK),
            final(self).image == old(self).image,
            final(self).cur_cmd == old(self).cur_cmd,
            final(self).xfer_size == old(self).xfer_size,
            final(self).remaining_sectors == old(self).remaining_sectors,
            final(self).diag_polls_remaining == old(self).diag_polls_remaining,
            final(self).complete_polls_remaining == old(self).complete_polls_remaining,
            final(self).pending_completion == old(self).pending_completion,
            final(self).data_buf == old(self).data_buf,
    {
        self.phase = TransferPhase::Idle;
        self.data_ix = 0;
        self.data_len = 0;
        let ready = self.drive_ready();
        let st = done_status_exec(self.regs[REG_STATUS], ready, false);
        self.regs.set(REG_STATUS, st);
        self.intrq = (self.cur_cmd & 0xF0) != CMD_SEEK;
    }

    /// Ends a command with an error code; INTRQ is raised.
    fn fail(&mut self, code: u8)
        requires
            old(self).wf(),
        ensures
            final(self).wf(),
            final(self).phase == TransferPhase::Idle,
            final(self).data_ix == 0 && final(self).data_len == 0,
            final(self).regs@ == old(self).regs@.update(REG_ERROR as int, code).update(REG_STATUS as int,
                done_status(old(self).regs@[REG_STATUS as int], old(self).drive_ready_spec(), true)),
            final(self).intrq,
            final(self).remaining_sectors == old(self).remaining_sectors,
            final(self).pending_offset == old(self).pending_offset,
            final(self).image == old(self).image,
            final(self).cur_cmd == old(self).cur_cmd,
            final(self).xfer_size == old(self).xfer_size,
            final(self).diag_polls_remaining == old(self).diag_polls_remaining,
            final(self).complete_polls_remaining == old(self).complete_polls_remaining,
            final(self).pending_completion == old(self).pending_completion,
            final(self).data_buf == old(self).data_buf,
    {
        self.phase = TransferPhase::Idle;
        self.data_ix = 0;
        self.data_len = 0;
        self.regs.set(REG_ERROR, code);
        let ready = self.drive_ready();
        let st = done_status_exec(self.regs[REG_STATUS], ready, true);
        self.regs.set(REG_STATUS, st);
        self.intrq = true;
    }

    /// What one time quantum does: the last diagnostics poll clears BUSY and
    /// leaves the missing-WD2797 code in the error register; the last poll of
    /// a deferred SEEK completes it (SEEK DONE, or the error code).
    pub open spec fn ticked(o: Wd1002Controller, f: Wd1002Controller) -> bool {
        let ready = o.drive_ready_spec();
        &&& (o.diag_polls_remaining == 1 && o.complete_polls_remaining == 0) ==>
            f.regs@ == o.regs@.update(REG_STATUS as int, done_status(o.regs@[REG_STATUS as int], ready, false))
                .update(REG_ERROR as int, DIAG_WD2797_ERR)
        &&& o.diag_polls_remaining == 0 && o.complete_polls_remaining > 1 ==>
            f.complete_polls_remaining == o.complete_polls_remaining - 1 && f == (Wd1002Controller {
                complete_polls_remaining: f.complete_polls_remaining, ..o
            })
        &&& o.diag_polls_remaining == 0 && o.complete_polls_remaining == 1 ==> {
            &&& f.complete_polls_remaining == 0
            &&& f.pending_completion.is_none()
            &&& match o.pending_completion {
                Some(PendingCompletion::SeekOk) => f.phase == TransferPhase::Idle
                    && f.regs@[REG_STATUS as int] == done_status(o.regs@[REG_STATUS as int] | STS_SEEK_DONE, ready, false),
                Some(PendingCompletion::SeekErr(c)) => f.phase == TransferPhase::Idle && f.intrq
                    && f.regs@[REG_ERROR as int] == c
                    && f.regs@[REG_STATUS as int] == done_status(o.regs@[REG_STATUS as int], ready, true),
                None => f.regs == o.regs && f.phase == o.phase,
            }
        }
    }

    /// One time quantum: runs down the power-up diagnostics and a deferred
    /// SEEK completion.
    fn tick(&mut self)
        requires
            old(self).wf(),
        ensures
            final(self).wf(),
            old(self).quiescent() ==> *final(self) == *old(self),
            final(self).image == old(self).image,
            final(self).cur_cmd == old(self).cur_cmd,
            final(self).xfer_size == old(self).xfer_size,
            final(self).data_buf == old(self).data_buf,
            final(self).diag_polls_remaining == if old(self).diag_polls_remaining > 0 {
                (old(self).diag_polls_remaining - 1) as u32
            } else {
                0
            },
            Self::ticked(*old(self), *final(self)),
    {
        if self.diag_polls_remaining > 0 {
            self.diag_polls_remaining = self.diag_polls_remaining - 1;
            if self.diag_polls_remaining == 0 {
                let ready = self.drive_ready();
                let st = done_status_exec(self.regs[REG_STATUS], ready, false);
                self.regs.set(REG_STATUS, st);
                self.regs.set(REG_ERROR, DIAG_WD2797_ERR);
            }
        }
        if self.complete_polls_remaining > 0 {
            self.complete_polls_remaining = self.complete_polls_remaining - 1;
            if self.complete_polls_remaining == 0 {
                let done = self.pending_completion;
                self.pending_completion = None;
                match done {
                    Some(PendingCompletion::SeekOk) => {
                        let st = self.regs[REG_STATUS] | STS_SEEK_DONE;
                        self.regs.set(REG_STATUS, st);
                        self.complete_ok();
                    },
                    Some(PendingCompletion::SeekErr(code)) => {
                        self.fail(code);
                    },
                    None => {},
                }
            }
        }
    }

    /// Advances the controller's deferred work by one instruction quantum.
    pub fn step(&mut self)
        requires
            old(self).wf(),
        ensures
            final(self).wf(),
            old(self).quiescent() ==> *final(self) == *old(self),
            final(self).image == old(self).image,
    {
        self.tick();
    }

    fn init_sector_count(&self) -> (r: u16)
        requires
            self.wf(),
        ensures
            r == if self.cur_cmd & CMD_MULTI == 0 {
                1
            } else if self.regs@[REG_SEC_COUNT as int] == 0 {
                256
            } else {
                self.regs@[REG_SEC_COUNT as int] as int
            },
    {
        if self.cur_cmd & CMD_MULTI == 0 {
            1
        } else if self.regs[REG_SEC_COUNT] == 0 {
            256
        } else {
            self.regs[REG_SEC_COUNT] as u16
        }
    }

    fn increment_chs(&mut self)
        requires
            old(self).wf(),
        ensures
            final(self).wf(),
            ({
                let n = next_chs(old(self).cyl_spec(), old(self).head_spec(),
                    old(self).regs@[REG_SECTOR as int] as int, spt_of(old(self).xfer_size as nat) as int);
                &&& final(self).cyl_spec() == n.0
                &&& final(self).head_spec() == n.1
                &&& final(self).regs@[REG_SECTOR as int] == n.2
                &&& (final(self).sdh() / 8) == (old(self).sdh() / 8)
            }),
            final(self).regs@[REG_STATUS as int] == old(self).regs@[REG_STATUS as int],
            final(self).regs@[REG_SEC_COUNT as int] == old(self).regs@[REG_SEC_COUNT as int],
            final(self).regs@[REG_DATA as int] == old(self).regs@[REG_DATA as int],
            *final(self) == (Wd1002Controller { regs: final(self).regs, ..*old(self) }),
    {
        let spt = self.get_sectors_per_track();
        let sec = self.regs[REG_SECTOR];
        if sec < 255 && sec + 1 < spt {
            self.regs.set(REG_SECTOR, sec + 1);
            return;
        }
        self.regs.set(REG_SECTOR, 0);
        let head = self.get_head();
        let sdh = self.regs[REG_SDH];
        if head + 1 < 4 {
            self.regs.set(REG_SDH, sdh - head + (head + 1));
        } else {
            let cyl = self.get_cyl().wrapping_add(1);
            self.regs.set(REG_CYL_LO, (cyl % 256) as u8);
            self.regs.set(REG_CYL_HI, (cyl / 256) as u8);
            self.regs.set(REG_SDH, sdh - head);
        }
    }

    /// Copies the sector at `offset` into the data buffer and records its sums.
    fn load_sector(&mut self, offset: u64)
        requires
            old(self).wf(),
            offset + old(self).xfer_size <= DATA_SIZE,
        ensures
            final(self).wf(),
            final(self).data_buf@.subrange(0, old(self).xfer_size as int)
                == old(self).image.data@.subrange(offset as int, offset as int + old(self).xfer_size),
            final(self).regs == old(self).regs,
            final(self).image == old(self).image,
            final(self).cur_cmd == old(self).cur_cmd,
            final(self).xfer_size == old(self).xfer_size,
            final(self).intrq == old(self).intrq,
            final(self).phase == old(self).phase,
            final(self).data_ix == old(self).data_ix,
            final(self).data_len == old(self).data_len,
            final(self).remaining_sectors == old(self).remaining_sectors,
            final(self).diag_polls_remaining == old(self).diag_polls_remaining,
            final(self).complete_polls_remaining == old(self).complete_polls_remaining,
            final(self).pending_completion == old(self).pending_completion,
            final(self).pending_offset == old(self).pending_offset,
    {
        let size = self.xfer_size;
        let start = offset as usize;
        let mut i: usize = 0;
        let mut sum_full: u16 = 0;
        let mut sum128: u16 = 0;
        while i < size
            invariant
                self.wf(),
                size == self.xfer_size,
                size == old(self).xfer_size,
                start + size <= DATA_SIZE,
                i <= size,
                self.image == old(self).image,
                self.regs == old(self).regs,
                self.data_ix == old(self).data_ix,
                self.data_len == old(self).data_len,
                self.cur_cmd == old(self).cur_cmd,
                self.intrq == old(self).intrq,
                self.phase == old(self).phase,
                self.remaining_sectors == old(self).remaining_sectors,
                self.diag_polls_remaining == old(self).diag_polls_remaining,
                self.complete_polls_remaining == old(self).complete_polls_remaining,
                self.pending_completion == old(self).pending_completion,
                self.pending_offset == old(self).pending_offset,
                forall|k: int| 0 <= k < i ==> self.data_buf@[k] == self.image.data@[start + k],
            decreases size - i,
        {
            let b = self.image.data[start + i];
            self.data_buf.set(i, b);
            sum_full = sum_full.wrapping_add(b as u16);
            if i < 128 {
                sum128 = sum128.wrapping_add(b as u16);
            }
            i = i + 1;
        }
        assert(self.data_buf@.subrange(0, size as int) =~= self.image.data@.subrange(start as int, start + size));
        self.last_load_offset = offset;
        self.last_load_sum_full = sum_full;
        self.last_load_sum128 = sum128;
    }

    /// Checks made before any command runs.
    pub open spec fn may_run(&self) -> bool {
        &&& self.diag_polls_remaining == 0
        &&& self.lun_spec() != 3
        &&& self.drive_ready_spec()
        &&& self.regs@[REG_STATUS as int] & STS_WRITE_FAULT == 0
    }

    fn start_read(&mut self)
        requires
            old(self).wf(),
        ensures
            final(self).wf(),
            final(self).image == old(self).image,
            final(self).cur_cmd == old(self).cur_cmd,
            final(self).xfer_size == old(self).xfer_size,
            final(self).diag_polls_remaining == old(self).diag_polls_remaining,
            ({
                let off = chs_offset(old(self).cyl_spec(), old(self).head_spec(),
                    old(self).regs@[REG_SECTOR as int] as int, old(self).xfer_size as nat);
                let size = old(self).xfer_size as int;
                if off.is_none() {
                    final(self).regs@[REG_ERROR as int] == ERR_ID_NOT_FOUND && final(self).intrq
                        && final(self).phase == TransferPhase::Idle
                } else {
                    &&& final(self).phase == TransferPhase::ReadData
                    &&& final(self).data_ix == 0
                    &&& final(self).data_len == size + if old(self).cur_cmd & CMD_LONG != 0 { 4int } else { 0int }
                    &&& final(self).data_buf@.subrange(0, size) == old(self).image.data@.subrange(off.unwrap(), off.unwrap() + size)
                    &&& final(self).pending_offset == off.unwrap()
                    &&& final(self).intrq == old(self).intrq
                    &&& final(self).remaining_sectors == if old(self).cur_cmd & CMD_MULTI == 0 {
                        1
                    } else if old(self).regs@[REG_SEC_COUNT as int] == 0 {
                        256
                    } else {
                        old(self).regs@[REG_SEC_COUNT as int] as int
                    }
                    &&& final(self).regs@ == old(self).regs@.update(REG_STATUS as int,
                        ((old(self).regs@[REG_STATUS as int] | STS_BUSY) & !STS_BUSY) | STS_DRQ)
                }
            }),
    {
        let offset = match self.compute_offset() {
            Some(o) => o,
            None => {
                self.fail(ERR_ID_NOT_FOUND);
                return;
            },
        };
        let st = self.regs[REG_STATUS] | STS_BUSY;
        self.regs.set(REG_STATUS, st);
        self.load_sector(offset);
        self.pending_offset = offset;
        self.remaining_sectors = self.init_sector_count();
        self.data_ix = 0;
        self.data_len = self.xfer_size;
        if self.cur_cmd & CMD_LONG != 0 {
            self.append_ecc();
        }
        self.phase = TransferPhase::ReadData;
        let st = (self.regs[REG_STATUS] & !STS_BUSY) | STS_DRQ;
        self.regs.set(REG_STATUS, st);
    }

    /// Appends four zero ECC bytes after the sector in the data buffer.
    fn append_ecc(&mut self)
        requires
            old(self).wf(),
            old(self).data_len == old(self).xfer_size,
        ensures
            final(self).wf(),
            final(self).data_len == old(self).data_len + 4,
            final(self).data_buf@.subrange(0, old(self).xfer_size as int)
                == old(self).data_buf@.subrange(0, old(self).xfer_size as int),
            forall|k: int| old(self).xfer_size <= k < old(self).xfer_size + 4 ==> final(self).data_buf@[k] == 0,
            *final(self) == (Wd1002Controller { data_buf: final(self).data_buf, data_len: final(self).data_len, ..*old(self) }),
    {
        let size = self.xfer_size;
        self.data_buf.set(size, 0);
        self.data_buf.set(size + 1, 0);
        self.data_buf.set(size + 2, 0);
        self.data_buf.set(size + 3, 0);
        self.data_len = size + 4;
        assert(self.data_buf@.subrange(0, size as int) =~= old(self).data_buf@.subrange(0, size as int));
    }

    /// Runs the command in `cur_cmd`.
    /// The effect of starting command `cmd` on a controller whose task file
    /// is `regs`: refused with ABORTED while the diagnostics run, for another
    /// drive, or on a write fault; otherwise READ loads the addressed sector,
    /// WRITE and FORMAT wait for data, SEEK completes later, RESTORE at once.
    pub open spec fn command_started(cmd: u8, regs: Seq<u8>, diag: u32, image: HardDiskImage, intrq: bool, f: Wd1002Controller) -> bool {
        &&& (!may_run_regs(regs, diag) ==> f.regs@[REG_ERROR as int] == ERR_ABORTED && f.intrq
                && f.phase == TransferPhase::Idle && f.image == image)
        &&& (may_run_regs(regs, diag) ==> f.xfer_size == sector_size_of(regs[REG_SDH as int]))
        &&& (may_run_regs(regs, diag) && cmd & 0xF0 == CMD_READ ==> {
                let off = chs_offset(cyl_of(regs), head_of(regs),
                    regs[REG_SECTOR as int] as int, f.xfer_size as nat);
                let size = f.xfer_size as int;
                &&& f.image == image
                &&& off.is_none() ==> f.regs@[REG_ERROR as int] == ERR_ID_NOT_FOUND && f.intrq
                &&& off.is_some() ==> {
                    &&& f.phase == TransferPhase::ReadData
                    &&& f.data_ix == 0
                    &&& f.data_len == size + if cmd & CMD_LONG != 0 { 4int } else { 0int }
                    &&& f.data_buf@.subrange(0, size) == image.data@.subrange(off.unwrap(), off.unwrap() + size)
                    &&& f.intrq == intrq
                    &&& f.remaining_sectors == (if cmd & CMD_MULTI == 0 { 1int } else if regs[REG_SEC_COUNT as int] == 0 { 256int } else { regs[REG_SEC_COUNT as int] as int })
                    && cyl_of(f.regs@) == cyl_of(regs) && head_of(f.regs@) == head_of(regs)
                    && f.regs@[REG_SECTOR as int] == regs[REG_SECTOR as int] && f.regs@[REG_SEC_COUNT as int] == regs[REG_SEC_COUNT as int]
                }
            })
        &&& (may_run_regs(regs, diag) && cmd & 0xF0 == CMD_WRITE ==> {
                let off = chs_offset(cyl_of(regs), head_of(regs),
                    regs[REG_SECTOR as int] as int, f.xfer_size as nat);
                &&& f.image == image
                &&& off.is_none() ==> f.regs@[REG_ERROR as int] == ERR_ID_NOT_FOUND && f.intrq
                &&& off.is_some() ==> f.phase == TransferPhase::WriteData && f.data_ix == 0
                    && f.pending_offset == off.unwrap() && f.intrq == intrq
                    && f.data_len == f.xfer_size + (if cmd & CMD_LONG != 0 { 4int } else { 0int })
                    && f.remaining_sectors == (if cmd & CMD_MULTI == 0 { 1int } else if regs[REG_SEC_COUNT as int] == 0 { 256int } else { regs[REG_SEC_COUNT as int] as int })
                    && cyl_of(f.regs@) == cyl_of(regs) && head_of(f.regs@) == head_of(regs)
                    && f.regs@[REG_SECTOR as int] == regs[REG_SECTOR as int] && f.regs@[REG_SEC_COUNT as int] == regs[REG_SEC_COUNT as int]
            })
        &&& (may_run_regs(regs, diag) && cmd & 0xF0 == CMD_FORMAT_TRACK ==> {
                &&& f.image == image
                &&& (cyl_of(regs) < 306 && head_of(regs) < 4) ==> f.phase == TransferPhase::FormatData
                    && f.data_ix == 0 && f.data_len == f.xfer_size
                &&& !(cyl_of(regs) < 306 && head_of(regs) < 4) ==> f.regs@[REG_ERROR as int] == ERR_ID_NOT_FOUND
            })
        &&& (may_run_regs(regs, diag) && cmd & 0xF0 == CMD_SEEK ==> {
                &&& f.complete_polls_remaining == 2
                &&& f.pending_completion == Some(if cyl_of(regs) < 306 && head_of(regs) < 4 {
                    PendingCompletion::SeekOk
                } else {
                    PendingCompletion::SeekErr(ERR_ID_NOT_FOUND)
                })
            })
        &&& (may_run_regs(regs, diag) && cmd & 0xF0 == CMD_RESTORE ==> {
                &&& f.regs@[REG_CYL_LO as int] == 0 && f.regs@[REG_CYL_HI as int] == 0
                &&& f.intrq
                &&& f.phase == TransferPhase::Idle
            })
    }

    fn process_cmd(&mut self)
        requires
            old(self).wf(),
        ensures
            final(self).wf(),
            final(self).cur_cmd == old(self).cur_cmd,
            Self::command_started(old(self).cur_cmd, old(self).regs@, old(self).diag_polls_remaining,
                old(self).image, old(self).intrq, *final(self)),
    {
        self.phase = TransferPhase::Idle;
        self.data_ix = 0;
        self.data_len = 0;
        if self.diag_polls_remaining > 0 || !self.selected_winchester() || !self.drive_ready()
            || self.regs[REG_STATUS] & STS_WRITE_FAULT != 0
        {
            self.fail(ERR_ABORTED);
            return;
        }
        self.xfer_size = self.get_sector_size();
        let cmd = self.cur_cmd & 0xF0;
        if cmd == CMD_TEST {
            let st = self.regs[REG_STATUS] | STS_BUSY;
            self.regs.set(REG_STATUS, st);
            self.regs.set(REG_ERROR, 0);
            self.complete_ok();
        } else if cmd == CMD_RESTORE {
            let st = self.regs[REG_STATUS] | STS_BUSY | STS_SEEK_DONE;
            self.regs.set(REG_STATUS, st);
            self.regs.set(REG_CYL_LO, 0);
            self.regs.set(REG_CYL_HI, 0);
            self.complete_ok();
        } else if cmd == CMD_SEEK {
            let st = self.regs[REG_STATUS] | STS_BUSY;
            self.regs.set(REG_STATUS, st);
            self.complete_polls_remaining = 2;
            self.pending_completion = Some(if self.is_valid_ch() {
                PendingCompletion::SeekOk
            } else {
                PendingCompletion::SeekErr(ERR_ID_NOT_FOUND)
            });
        } else if cmd == CMD_READ {
            self.start_read();
        } else if cmd == CMD_WRITE {
            let offset = match self.compute_offset() {
                Some(o) => o,
                None => {
                    self.fail(ERR_ID_NOT_FOUND);
                    return;
                },
            };
            self.pending_offset = offset;
            self.remaining_sectors = self.init_sector_count();
            self.data_ix = 0;
            self.data_len = self.xfer_size + if self.cur_cmd & CMD_LONG != 0 { 4 } else { 0 };
            self.phase = TransferPhase::WriteData;
            let st = self.regs[REG_STATUS] | STS_BUSY | STS_DRQ;
            self.regs.set(REG_STATUS, st);
        } else if cmd == CMD_FORMAT_TRACK {
            if self.compute_track_base_offset().is_none() {
                self.fail(ERR_ID_NOT_FOUND);
                return;
            }
            self.data_ix = 0;
            self.data_len = self.xfer_size;
            self.phase = TransferPhase::FormatData;
            let st = self.regs[REG_STATUS] | STS_BUSY | STS_DRQ;
            self.regs.set(REG_STATUS, st);
        } else {
            self.fail(ERR_ABORTED);
        }
    }

    /// After the last byte of a sector of a multi-sector READ: `Ok(true)`
    /// with the next sector loaded, `Ok(false)` when no sector remains, or
    /// the error code when the next address is not valid.
    fn advance_multi_read(&mut self) -> (r: Result<bool, u8>)
        requires
            old(self).wf(),
        ensures
            final(self).wf(),
            final(self).image == old(self).image,
            final(self).cur_cmd == old(self).cur_cmd,
            final(self).intrq == old(self).intrq,
            final(self).xfer_size == old(self).xfer_size,
            final(self).phase == old(self).phase,
            final(self).diag_polls_remaining == old(self).diag_polls_remaining,
            final(self).regs@[REG_DATA as int] == old(self).regs@[REG_DATA as int],
            final(self).remaining_sectors == if old(self).remaining_sectors > 0 {
                (old(self).remaining_sectors - 1) as u16
            } else {
                0
            },
            final(self).remaining_sectors == 0 <==> r == Ok::<bool, u8>(false),
            r == Ok::<bool, u8>(true) ==> {
                let off = chs_offset(final(self).cyl_spec(), final(self).head_spec(),
                    final(self).regs@[REG_SECTOR as int] as int, final(self).xfer_size as nat);
                let size = final(self).xfer_size as int;
                &&& off.is_some()
                &&& final(self).data_ix == 0
                &&& final(self).pending_offset == off.unwrap()
                &&& final(self).data_buf@.subrange(0, size) == old(self).image.data@.subrange(off.unwrap(), off.unwrap() + size)
                &&& final(self).data_len == size + if old(self).cur_cmd & CMD_LONG != 0 { 4int } else { 0int }
            },
            final(self).remaining_sectors > 0 ==> {
                let n = next_chs(old(self).cyl_spec(), old(self).head_spec(),
                    old(self).regs@[REG_SECTOR as int] as int, spt_of(old(self).xfer_size as nat) as int);
                &&& final(self).cyl_spec() == n.0 && final(self).head_spec() == n.1
                &&& final(self).regs@[REG_SECTOR as int] == n.2
                &&& (r.is_err() <==> chs_offset(n.0, n.1, n.2, old(self).xfer_size as nat).is_none())
            },
            r.is_err() ==> r == Err::<bool, u8>(ERR_ID_NOT_FOUND),
    {
        if self.remaining_sectors > 0 {
            self.remaining_sectors = self.remaining_sectors - 1;
        }
        let count = self.regs[REG_SEC_COUNT].wrapping_sub(1);
        self.regs.set(REG_SEC_COUNT, count);
        if self.remaining_sectors == 0 {
            return Ok(false);
        }
        self.increment_chs();
        let offset = match self.compute_offset() {
            Some(o) => o,
            None => {
                return Err(ERR_ID_NOT_FOUND);
            },
        };
        self.load_sector(offset);
        self.pending_offset = offset;
        self.data_ix = 0;
        self.data_len = self.xfer_size;
        if self.cur_cmd & CMD_LONG != 0 {
            self.append_ecc();
        }
        let st = (self.regs[REG_STATUS] & !STS_BUSY) | STS_DRQ;
        self.regs.set(REG_STATUS, st);
        Ok(true)
    }

    /// A read of the data port: the next buffered byte of a READ; the last
    /// byte of the last sector completes the command with INTRQ, the others
    /// leave INTRQ alone; outside a READ, the data register.
    pub open spec fn data_read_done(o: Wd1002Controller, f: Wd1002Controller, r: u8) -> bool {
        &&& f.image == o.image
        &&& f.data_buf@.len() == o.data_buf@.len()
        &&& (o.phase != TransferPhase::ReadData || o.data_ix >= o.data_len ==>
                r == o.regs@[REG_DATA as int] && f == o)
        &&& (o.phase == TransferPhase::ReadData && o.data_ix < o.data_len ==> {
                &&& r == o.data_buf@[o.data_ix as int]
                &&& f.regs@[REG_DATA as int] == r
                &&& o.data_ix + 1 < o.data_len ==> f.data_ix == o.data_ix + 1
                    && f.intrq == o.intrq && f.phase == TransferPhase::ReadData
                    && f.data_buf == o.data_buf
                    && f.data_len == o.data_len && f.remaining_sectors == o.remaining_sectors
                    && f.cyl_spec() == o.cyl_spec() && f.head_spec() == o.head_spec()
                    && f.regs@[REG_SECTOR as int] == o.regs@[REG_SECTOR as int]
                &&& f.cur_cmd == o.cur_cmd && f.xfer_size == o.xfer_size
                &&& o.data_ix + 1 == o.data_len && o.cur_cmd & CMD_MULTI != 0
                    && o.remaining_sectors > 1 ==> {
                        let n = next_chs(o.cyl_spec(), o.head_spec(), o.regs@[REG_SECTOR as int] as int,
                            spt_of(o.xfer_size as nat) as int);
                        let off = chs_offset(n.0, n.1, n.2, o.xfer_size as nat);
                        let size = o.xfer_size as int;
                        &&& f.cyl_spec() == n.0 && f.head_spec() == n.1 && f.regs@[REG_SECTOR as int] == n.2
                        &&& f.remaining_sectors == o.remaining_sectors - 1
                        &&& off.is_some() ==> f.phase == TransferPhase::ReadData && f.data_ix == 0
                            && f.intrq == o.intrq && f.pending_offset == off.unwrap()
                            && f.data_buf@.subrange(0, size) == o.image.data@.subrange(off.unwrap(), off.unwrap() + size)
                            && f.data_len == size + if o.cur_cmd & CMD_LONG != 0 { 4int } else { 0int }
                        &&& off.is_none() ==> f.phase == TransferPhase::Idle && f.intrq
                            && f.regs@[REG_ERROR as int] == ERR_ID_NOT_FOUND
                    }
                &&& o.data_ix + 1 == o.data_len
                    && (o.cur_cmd & CMD_MULTI == 0 || o.remaining_sectors <= 1) ==>
                        f.phase == TransferPhase::Idle
                        && f.intrq == (o.cur_cmd & 0xF0 != CMD_SEEK)
            })
    }

    /// A write of the data port: buffered during WRITE and FORMAT; the last
    /// byte of a WRITE sector commits it to the image.
    pub open spec fn data_write_done(o: Wd1002Controller, f: Wd1002Controller, value: u8) -> bool {
        &&& (o.phase == TransferPhase::Idle ==> f.regs@ == o.regs@.update(REG_DATA as int, value)
                && f == (Wd1002Controller { regs: f.regs, ..o }))
        &&& (o.phase != TransferPhase::Idle && o.data_ix + 1 < o.data_len ==>
                f.data_buf@ == o.data_buf@.update(o.data_ix as int, value)
                && f.data_ix == o.data_ix + 1
                && f.image == o.image
                && f.intrq == o.intrq)
        &&& (o.phase == TransferPhase::WriteData && o.data_ix + 1 == o.data_len ==> {
                let buf = o.data_buf@.update(o.data_ix as int, value).subrange(0, o.xfer_size as int);
                let off = o.pending_offset as int;
                f.image.data@.subrange(off, off + o.xfer_size as int) == buf
            })
        &&& (o.phase == TransferPhase::WriteData && o.data_ix + 1 == o.data_len
            && (o.cur_cmd & CMD_MULTI == 0 || o.remaining_sectors <= 1) ==>
                f.phase == TransferPhase::Idle && f.intrq == (o.cur_cmd & 0xF0 != CMD_SEEK))
        &&& (o.phase == TransferPhase::WriteData && o.data_ix + 1 == o.data_len
            && o.cur_cmd & CMD_MULTI != 0 && o.remaining_sectors > 1 ==> {
                let n = next_chs(o.cyl_spec(), o.head_spec(), o.regs@[REG_SECTOR as int] as int,
                    spt_of(o.xfer_size as nat) as int);
                let off = chs_offset(n.0, n.1, n.2, o.xfer_size as nat);
                &&& f.cyl_spec() == n.0 && f.head_spec() == n.1 && f.regs@[REG_SECTOR as int] == n.2
                &&& f.remaining_sectors == o.remaining_sectors - 1
                &&& off.is_some() ==> f.phase == TransferPhase::WriteData && f.data_ix == 0
                    && f.intrq == o.intrq && f.pending_offset == off.unwrap()
                &&& off.is_none() ==> f.phase == TransferPhase::Idle && f.intrq
                    && f.regs@[REG_ERROR as int] == ERR_ID_NOT_FOUND
            })
        &&& (o.phase == TransferPhase::FormatData && o.data_ix + 1 == o.data_len ==> {
                &&& f.phase == TransferPhase::Idle
                &&& Self::format_table_valid(o, o.data_buf@.update(o.data_ix as int, value)) ==> {
                    &&& f.intrq == (o.cur_cmd & 0xF0 != CMD_SEEK)
                    &&& f.image.formatted_tracks@[o.cyl_spec() * 4 + o.head_spec()]
                    &&& formatted_zero(f.image.data@, o.data_buf@.update(o.data_ix as int, value),
                        format_count_spec(o.regs@[REG_SEC_COUNT as int], spt_of(o.xfer_size as nat) as u8) as int,
                        track_base_spec(o.cyl_spec(), o.head_spec()), spt_of(o.xfer_size as nat), o.xfer_size as nat)
                    &&& f.regs@[REG_SEC_COUNT as int] == 0
                }
                &&& ((f.regs@[REG_ERROR as int] == ERR_ID_NOT_FOUND || f.regs@[REG_ERROR as int] == ERR_DAM_NOT_FOUND)
                    && f.intrq) || {
                    &&& f.intrq == (o.cur_cmd & 0xF0 != CMD_SEEK)
                    &&& f.image.formatted_tracks@[o.cyl_spec() * 4 + o.head_spec()]
                    &&& formatted_zero(f.image.data@, o.data_buf@.update(o.data_ix as int, value),
                        format_count_spec(o.regs@[REG_SEC_COUNT as int], spt_of(o.xfer_size as nat) as u8) as int,
                        track_base_spec(o.cyl_spec(), o.head_spec()), spt_of(o.xfer_size as nat), o.xfer_size as nat)
                }
            })
    }

    /// Reads the data port: during a READ, the next buffered byte; the last
    /// byte of the last sector completes the command and raises INTRQ.
    fn read_data_port(&mut self) -> (r: u8)
        requires
            old(self).wf(),
        ensures
            final(self).wf(),
            final(self).image == old(self).image,
            Self::data_read_done(*old(self), *final(self), r),
    {
        if self.phase != TransferPhase::ReadData || self.data_ix >= self.data_len {
            return self.regs[REG_DATA];
        }
        let v = self.data_buf[self.data_ix];
        self.regs.set(REG_DATA, v);
        self.data_ix = self.data_ix + 1;
        if self.data_ix < self.data_len {
            let st = self.regs[REG_STATUS] | STS_DRQ;
            self.regs.set(REG_STATUS, st);
            return v;
        }
        if self.cur_cmd & CMD_MULTI != 0 {
            match self.advance_multi_read() {
                Ok(true) => {
                    return v;
                },
                Ok(false) => {},
                Err(code) => {
                    self.fail(code);
                    return v;
                },
            }
        }
        self.complete_ok();
        v
    }

    /// After the last byte of a sector of a multi-sector WRITE: `Ok(true)`
    /// with the next sector addressed, `Ok(false)` when none remains.
    fn advance_multi_write(&mut self) -> (r: Result<bool, u8>)
        requires
            old(self).wf(),
        ensures
            final(self).wf(),
            final(self).image == old(self).image,
            final(self).cur_cmd == old(self).cur_cmd,
            final(self).intrq == old(self).intrq,
            final(self).xfer_size == old(self).xfer_size,
            final(self).phase == old(self).phase,
            final(self).diag_polls_remaining == old(self).diag_polls_remaining,
            final(self).regs@[REG_DATA as int] == old(self).regs@[REG_DATA as int],
            final(self).remaining_sectors == if old(self).remaining_sectors > 0 {
                (old(self).remaining_sectors - 1) as u16
            } else {
                0
            },
            final(self).remaining_sectors == 0 <==> r == Ok::<bool, u8>(false),
            r == Ok::<bool, u8>(true) ==> {
                let off = chs_offset(final(self).cyl_spec(), final(self).head_spec(),
                    final(self).regs@[REG_SECTOR as int] as int, final(self).xfer_size as nat);
                &&& off.is_some()
                &&& final(self).data_ix == 0
                &&& final(self).pending_offset == off.unwrap()
            },
            final(self).remaining_sectors > 0 ==> {
                let n = next_chs(old(self).cyl_spec(), old(self).head_spec(),
                    old(self).regs@[REG_SECTOR as int] as int, spt_of(old(self).xfer_size as nat) as int);
                &&& final(self).cyl_spec() == n.0 && final(self).head_spec() == n.1
                &&& final(self).regs@[REG_SECTOR as int] == n.2
                &&& (r.is_err() <==> chs_offset(n.0, n.1, n.2, old(self).xfer_size as nat).is_none())
            },
            r.is_err() ==> r == Err::<bool, u8>(ERR_ID_NOT_FOUND),
    {
        if self.remaining_sectors > 0 {
            self.remaining_sectors = self.remaining_sectors - 1;
        }
        let count = self.regs[REG_SEC_COUNT].wrapping_sub(1);
        self.regs.set(REG_SEC_COUNT, count);
        if self.remaining_sectors == 0 {
            return Ok(false);
        }
        self.increment_chs();
        let offset = match self.compute_offset() {
            Some(o) => o,
            None => {
                return Err(ERR_ID_NOT_FOUND);
            },
        };
        self.pending_offset = offset;
        self.data_ix = 0;
        self.data_len = self.xfer_size + if self.cur_cmd & CMD_LONG != 0 { 4 } else { 0 };
        let st = self.regs[REG_STATUS] | STS_BUSY | STS_DRQ;
        self.regs.set(REG_STATUS, st);
        Ok(true)
    }

    /// The first `xfer_size` bytes of the data buffer.
    fn sector_payload(&self) -> (r: Vec<u8>)
        requires
            self.wf(),
        ensures
            r@ == self.data_buf@.subrange(0, self.xfer_size as int),
    {
        let mut out: Vec<u8> = Vec::new();
        let mut i: usize = 0;
        while i < self.xfer_size
            invariant
                self.wf(),
                i <= self.xfer_size,
                out@ == self.data_buf@.subrange(0, i as int),
            decreases self.xfer_size - i,
        {
            out.push(self.data_buf[i]);
            i = i + 1;
        }
        out
    }

    /// FORMAT TRACK after its interleave table has arrived: zero-fills each
    /// listed sector through the format path, which spares protected sectors,
    /// and marks the track formatted.
    fn finish_format_track(&mut self) -> (r: Result<(), u8>)
        requires
            old(self).wf(),
        ensures
            final(self).wf(),
            final(self).cur_cmd == old(self).cur_cmd,
            final(self).intrq == old(self).intrq,
            final(self).diag_polls_remaining == old(self).diag_polls_remaining,
            r.is_ok() ==> final(self).image.formatted_tracks@[old(self).cyl_spec() * 4 + old(self).head_spec()]
                && final(self).regs@[REG_SEC_COUNT as int] == 0,
            r.is_ok() ==> formatted_zero(final(self).image.data@, old(self).data_buf@,
                format_count_spec(old(self).regs@[REG_SEC_COUNT as int], spt_of(old(self).xfer_size as nat) as u8) as int,
                track_base_spec(old(self).cyl_spec(), old(self).head_spec()), spt_of(old(self).xfer_size as nat),
                old(self).xfer_size as nat),
            final(self).data_buf == old(self).data_buf,
            final(self).xfer_size == old(self).xfer_size,
            !(old(self).cyl_spec() < 306 && old(self).head_spec() < 4) ==> r == Err::<(), u8>(ERR_ID_NOT_FOUND),
            r.is_err() ==> r == Err::<(), u8>(ERR_ID_NOT_FOUND) || r == Err::<(), u8>(ERR_DAM_NOT_FOUND),
            Self::format_table_valid(*old(self), old(self).data_buf@) ==> r.is_ok(),
    {
        let track_base = match self.compute_track_base_offset() {
            Some(b) => b,
            None => {
                return Err(ERR_ID_NOT_FOUND);
            },
        };
        let spt = self.get_sectors_per_track();
        let n = format_count(self.regs[REG_SEC_COUNT], spt);
        let fill: Vec<u8> = vec![0u8; self.xfer_size];
        let cyl = self.get_cyl();
        let head = self.get_head();
        let mut i: usize = 0;
        while i < n
            invariant
                self.wf(),
                n <= 64,
                i <= n,
                fill@.len() == self.xfer_size,
                spt == spt_of(self.xfer_size as nat),
                track_base == track_base_spec(cyl as int, head as int),
                cyl == old(self).cyl_spec(),
                head == old(self).head_spec(),
                cyl < 306 && head < 4,
                self.regs == old(self).regs,
                self.cur_cmd == old(self).cur_cmd,
                self.intrq == old(self).intrq,
                self.xfer_size == old(self).xfer_size,
                self.diag_polls_remaining == old(self).diag_polls_remaining,
                self.data_buf == old(self).data_buf,
                n == format_count_spec(old(self).regs@[REG_SEC_COUNT as int], spt),
                forall|q: int| 0 <= q < fill@.len() ==> fill@[q] == 0,
                formatted_zero(self.image.data@, self.data_buf@, i as int, track_base as int, spt as nat, self.xfer_size as nat),
            decreases n - i,
        {
            let id = self.data_buf[i];
            let ghost before = self.image.data@;
            let ghost tb = track_base as int;
            let sec: u64 = if id < spt {
                id as u64
            } else if id >= 1 && id <= spt {
                (id - 1) as u64
            } else {
                assert(format_offset(track_base as int, self.data_buf@[i as int], spt as nat, self.xfer_size as nat).is_none());
                proof {
                    if Self::format_table_valid(*old(self), old(self).data_buf@) {
                        assert(format_offset(track_base_spec(old(self).cyl_spec(), old(self).head_spec()),
                            old(self).data_buf@[i as int], spt_of(old(self).xfer_size as nat), old(self).xfer_size as nat).is_some());
                    }
                }
                return Err(ERR_ID_NOT_FOUND);
            };
            proof {
                assert(sec < spt);
                assert(sec * self.xfer_size + self.xfer_size <= 8704) by (nonlinear_arith)
                    requires sec < spt, spt == spt_of(self.xfer_size as nat),
                        self.xfer_size == 128 || self.xfer_size == 256 || self.xfer_size == 512 || self.xfer_size == 1024;
                assert(sec <= 64);
                vstd::arithmetic::mul::lemma_mul_upper_bound(sec as int, 64, self.xfer_size as int, 1024);
                vstd::arithmetic::mul::lemma_mul_upper_bound(cyl as int * 4 + head as int, 1224, 8704, 8704);
            }
            let off = track_base + sec * (self.xfer_size as u64);
            assert(off + self.xfer_size <= DATA_SIZE) by (nonlinear_arith)
                requires off == track_base + sec * self.xfer_size, track_base == (cyl * 4 + head) * 17 * 512,
                    cyl < 306, head < 4, sec * self.xfer_size + self.xfer_size <= 8704;
            match self.image.write_controller_sector(off, fill.as_slice(), ControllerWriteSource::FormatTrack) {
                Ok(_) => {},
                Err(_) => {
                    return Err(ERR_DAM_NOT_FOUND);
                },
            }
            assert(format_offset(track_base as int, id, spt as nat, self.xfer_size as nat) == Some(off as int));
            assert forall|q: int, k: int| #![trigger self.data_buf@[q], self.image.data@[k]] 0 <= q < i + 1
                && format_offset(track_base as int, self.data_buf@[q], spt as nat, self.xfer_size as nat).is_some()
                && !crate::hard_disk_image::touches_protected(format_offset(track_base as int, self.data_buf@[q], spt as nat, self.xfer_size as nat).unwrap(), self.xfer_size as int)
                && format_offset(track_base as int, self.data_buf@[q], spt as nat, self.xfer_size as nat).unwrap() <= k
                && k < format_offset(track_base as int, self.data_buf@[q], spt as nat, self.xfer_size as nat).unwrap() + self.xfer_size
                implies self.image.data@[k] == 0 by {
                if q < i {
                    assert(before[k] == 0);
                }
            }
            i = i + 1;
        }
        self.image.set_track_formatted(cyl, head, true);
        self.regs.set(REG_SEC_COUNT, 0);
        Ok(())
    }

    /// The address is valid and each of the first `format_count` entries of
    /// the interleave table names a sector of the track.
    pub open spec fn format_table_valid(o: Wd1002Controller, table: Seq<u8>) -> bool {
        let spt = spt_of(o.xfer_size as nat);
        let n = format_count_spec(o.regs@[REG_SEC_COUNT as int], spt as u8) as int;
        &&& o.cyl_spec() < 306 && o.head_spec() < 4
        &&& forall|i: int| 0 <= i < n ==> #[trigger] format_offset(track_base_spec(o.cyl_spec(), o.head_spec()),
            table[i], spt, o.xfer_size as nat).is_some()
    }

    /// Writes the data port: during a WRITE or FORMAT, the next buffered byte;
    /// a full sector is committed through the image's controller write path.
    fn write_data_port(&mut self, value: u8)
        requires
            old(self).wf(),
        ensures
            final(self).wf(),
            Self::data_write_done(*old(self), *final(self), value),
    {
        if self.phase == TransferPhase::Idle {
            self.regs.set(REG_DATA, value);
            return;
        }
        if self.data_ix >= self.data_len {
            self.complete_ok();
            return;
        }
        self.data_buf.set(self.data_ix, value);
        self.data_ix = self.data_ix + 1;
        if self.data_ix < self.data_len {
            let st = self.regs[REG_STATUS] | STS_DRQ;
            self.regs.set(REG_STATUS, st);
            return;
        }
        if self.phase == TransferPhase::WriteData {
            let payload = self.sector_payload();
            let off = self.pending_offset;
            match self.image.write_controller_sector(off, payload.as_slice(), ControllerWriteSource::WriteData) {
                Ok(_) => {},
                Err(_) => {
                    self.fail(ERR_DAM_NOT_FOUND);
                    return;
                },
            }
            proof {
                crate::hard_disk_image::lemma_write_then_read(old(self).image.data@, off as int, payload@);
            }
            if self.cur_cmd & CMD_MULTI != 0 {
                match self.advance_multi_write() {
                    Ok(true) => {
                        return;
                    },
                    Ok(false) => {},
                    Err(code) => {
                        self.fail(code);
                        return;
                    },
                }
            }
            self.complete_ok();
        } else if self.phase == TransferPhase::FormatData {
            match self.finish_format_track() {
                Ok(()) => {},
                Err(code) => {
                    self.fail(code);
                    return;
                },
            }
            self.complete_ok();
        } else {
            self.complete_ok();
        }
    }

    /// Reads one of the eight ports. Reading the status register clears INTRQ.
    pub fn port_in(&mut self, port: u8) -> (r: u8)
        requires
            old(self).wf(),
        ensures
            final(self).wf(),
            old(self).quiescent() && port % 8 != 0 ==> r == old(self).regs@[(port % 8) as int],
            old(self).quiescent() && port % 8 == 7 ==> !final(self).intrq,
            old(self).diag_polls_remaining == 1 && old(self).complete_polls_remaining == 0 && port % 8 == 7 ==>
                r == done_status(old(self).regs@[REG_STATUS as int], old(self).drive_ready_spec(), false) && !final(self).intrq,
            old(self).diag_polls_remaining == 1 && old(self).complete_polls_remaining == 0 && port % 8 == 1 ==>
                r == DIAG_WD2797_ERR,
            old(self).diag_polls_remaining == 0 && old(self).complete_polls_remaining == 1 && port % 8 == 7 ==> {
                let ready = old(self).drive_ready_spec();
                &&& !final(self).intrq
                &&& match old(self).pending_completion {
                    Some(PendingCompletion::SeekOk) => r == done_status(old(self).regs@[REG_STATUS as int] | STS_SEEK_DONE, ready, false),
                    Some(PendingCompletion::SeekErr(c)) => r == done_status(old(self).regs@[REG_STATUS as int], ready, true),
                    None => r == old(self).regs@[REG_STATUS as int],
                }
            },
            old(self).diag_polls_remaining == 0 && old(self).complete_polls_remaining > 1 && port % 8 == 7 ==>
                r == old(self).regs@[REG_STATUS as int] && final(self).complete_polls_remaining == old(self).complete_polls_remaining - 1,
            old(self).quiescent() && port % 8 == 0 ==> Self::data_read_done(*old(self), *final(self), r),
    {
        self.tick();
        let reg = (port % 8) as usize;
        if reg == REG_DATA {
            self.read_data_port()
        } else if reg == REG_STATUS {
            self.intrq = false;
            self.regs[reg]
        } else {
            self.regs[reg]
        }
    }

    /// Writes one of the eight ports. A command written while BUSY is aborted.
    pub fn port_out(&mut self, port: u8, value: u8)
        requires
            old(self).wf(),
        ensures
            final(self).wf(),
            old(self).quiescent() && port % 8 == 7 && old(self).regs@[REG_STATUS as int] & STS_BUSY != 0 ==>
                final(self).regs@[REG_ERROR as int] == ERR_ABORTED && final(self).intrq
                && final(self).cur_cmd == old(self).cur_cmd,
            old(self).quiescent() && port % 8 == 7 && old(self).regs@[REG_STATUS as int] & STS_BUSY == 0 ==>
                final(self).cur_cmd == value && Self::command_started(value,
                    old(self).regs@.update(REG_STATUS as int, old(self).regs@[REG_STATUS as int] & !STS_ERROR & !STS_CORR)
                        .update(REG_ERROR as int, 0),
                    old(self).diag_polls_remaining, old(self).image, false, *final(self)),
            old(self).quiescent() && port % 8 == 6 ==> final(self).regs@[REG_SDH as int] == value,
            old(self).quiescent() && 2 <= port % 8 <= 5 ==>
                final(self).regs@ == old(self).regs@.update((port % 8) as int, value)
                && *final(self) == (Wd1002Controller { regs: final(self).regs, ..*old(self) }),
            old(self).quiescent() && port % 8 == 0 ==> Self::data_write_done(*old(self), *final(self), value),
            old(self).quiescent() && port % 8 == 1 ==> final(self).precomp == value
                && final(self).regs@ == old(self).regs@.update(REG_PRECOMP as int, value),
    {
        self.tick();
        let reg = (port % 8) as usize;
        if reg == REG_PRECOMP {
            self.precomp = value;
            self.regs.set(REG_PRECOMP, value);
        } else if reg == REG_CMD {
            if self.regs[REG_STATUS] & STS_BUSY != 0 {
                self.fail(ERR_ABORTED);
                return;
            }
            self.cur_cmd = value;
            let st = self.regs[REG_STATUS] & !STS_ERROR & !STS_CORR;
            self.regs.set(REG_STATUS, st);
            self.regs.set(REG_ERROR, 0);
            self.intrq = false;
            self.process_cmd();
        } else if reg == REG_DATA {
            self.write_data_port(value);
        } else if reg == REG_SDH {
            self.regs.set(REG_SDH, value);
            let st = if self.drive_ready() {
                self.regs[REG_STATUS] | STS_READY
            } else {
                self.regs[REG_STATUS] & !STS_READY
            };
            self.regs.set(REG_STATUS, st);
        } else {
            self.regs.set(reg, value);
        }
    }

    fn phase_code(&self) -> (r: u8)
        ensures
            r == match self.phase {
                TransferPhase::Idle => 0u8,
                TransferPhase::ReadData => 1u8,
                TransferPhase::WriteData => 2u8,
                TransferPhase::FormatData => 3u8,
            },
    {
        match self.phase {
            TransferPhase::Idle => 0,
            TransferPhase::ReadData => 1,
            TransferPhase::WriteData => 2,
            TransferPhase::FormatData => 3,
        }
    }

    /// Command, status, sector count, sector, cylinder low, SDH, transfer
    /// size, data index and phase code.
    pub fn debug_snapshot(&self) -> (r: (u8, u8, u8, u8, u8, u8, usize, usize, u8))
        requires
            self.wf(),
        ensures
            r.0 == self.cur_cmd && r.1 == self.regs@[REG_STATUS as int] && r.2 == self.regs@[REG_SEC_COUNT as int]
                && r.3 == self.regs@[REG_SECTOR as int] && r.4 == self.regs@[REG_CYL_LO as int]
                && r.5 == self.regs@[REG_SDH as int] && r.6 == self.xfer_size && r.7 == self.data_ix,
    {
        (
            self.cur_cmd,
            self.regs[REG_STATUS],
            self.regs[REG_SEC_COUNT],
            self.regs[REG_SECTOR],
            self.regs[REG_CYL_LO],
            self.regs[REG_SDH],
            self.xfer_size,
            self.data_ix,
            self.phase_code(),
        )
    }

    pub fn debug_snapshot_ext(&self) -> (r: WdDebugSnapshot)
        requires
            self.wf(),
        ensures
            r.cmd == self.cur_cmd,
            r.status == self.regs@[REG_STATUS as int],
            r.cyl == self.cyl_spec(),
            r.sdh == self.sdh(),
            r.xfer_size == self.xfer_size,
            r.data_ix == self.data_ix,
            r.pending_offset == self.pending_offset,
            r.logical_spt == spt_of(self.xfer_size as nat),
    {
        WdDebugSnapshot {
            cmd: self.cur_cmd,
            status: self.regs[REG_STATUS],
            sec_count: self.regs[REG_SEC_COUNT],
            sector: self.regs[REG_SECTOR],
            cyl: self.get_cyl(),
            sdh: self.regs[REG_SDH],
            xfer_size: self.xfer_size,
            data_ix: self.data_ix,
            phase: self.phase_code(),
            pending_offset: self.pending_offset,
            logical_spt: self.get_sectors_per_track(),
            last_load_offset: self.last_load_offset,
            last_load_sum128: self.last_load_sum128,
            last_load_sum_full: self.last_load_sum_full,
        }
    }

    fn compute_track_base_offset(&self) -> (r: Option<u64>)
        requires
            self.wf(),
        ensures
            r.is_some() == (self.cyl_spec() < 306 && self.head_spec() < 4),
            r.is_some() ==> r.unwrap() == track_base_spec(self.cyl_spec(), self.head_spec()),
    {
        let cyl = self.get_cyl() as u64;
        let head = self.get_head() as u64;
        if cyl >= CYLINDERS || head >= HEADS {
            return None;
        }
        Some((cyl * HEADS + head) * SECTORS_PER_TRACK * SECTOR_SIZE)
    }
}

/// Address of the `j`-th sector after `c` in a multi-sector transfer.
pub open spec fn chs_after(c: (int, int, int), spt: int, j: nat) -> (int, int, int)
    decreases j,
{
    if j == 0 {
        c
    } else {
        let p = chs_after(c, spt, (j - 1) as nat);
        next_chs(p.0, p.1, p.2, spt)
    }
}

/// State of a multi-sector READ of `n` sectors of `z` bytes after `k` data
/// bytes have been read.
pub open spec fn multi_read_at(s0: Wd1002Controller, s: Wd1002Controller, n: int, k: int) -> bool {
    let z = s0.xfer_size as int;
    let c0 = (s0.cyl_spec(), s0.head_spec(), s0.regs@[REG_SECTOR as int] as int);
    let p = chs_after(c0, spt_of(s0.xfer_size as nat) as int, (k / z) as nat);
    &&& s.phase == TransferPhase::ReadData
    &&& s.data_ix == k % z
    &&& s.data_len == z
    &&& s.remaining_sectors == n - k / z
    &&& !s.intrq
    &&& s.cur_cmd == s0.cur_cmd
    &&& s.xfer_size == s0.xfer_size
    &&& (s.cyl_spec(), s.head_spec(), s.regs@[REG_SECTOR as int] as int) == p
    &&& s.image == s0.image
    &&& s.data_buf@.len() == s0.data_buf@.len()
    &&& chs_offset(p.0, p.1, p.2, s0.xfer_size as nat).is_some()
    &&& s.data_buf@.subrange(0, z) == s0.image.data@.subrange(chs_offset(p.0, p.1, p.2, s0.xfer_size as nat).unwrap(),
        chs_offset(p.0, p.1, p.2, s0.xfer_size as nat).unwrap() + z)
}

/// Image offset of the `j`-th sector of a transfer that starts at the
/// address in `s0`'s task file.
pub open spec fn transfer_offset(s0: Wd1002Controller, j: int) -> int {
    let c0 = (s0.cyl_spec(), s0.head_spec(), s0.regs@[REG_SECTOR as int] as int);
    let p = chs_after(c0, spt_of(s0.xfer_size as nat) as int, j as nat);
    chs_offset(p.0, p.1, p.2, s0.xfer_size as nat).unwrap()
}

/// A multi-sector READ of `n` sectors whose addresses are all valid raises
/// INTRQ exactly once over its `n * z` data-port reads: after the last byte
/// of the last sector, when the controller is idle again.
pub proof fn lemma_multi_read_intrq(states: Seq<Wd1002Controller>, bytes: Seq<u8>, n: int)
    requires
        n >= 1,
        states.len() >= 1,
        ({
            let s0 = states[0];
            let z = s0.xfer_size as int;
            let c0 = (s0.cyl_spec(), s0.head_spec(), s0.regs@[REG_SECTOR as int] as int);
            &&& s0.wf()
            &&& states.len() == n * z + 1
            &&& bytes.len() == n * z
            &&& forall|k: int| 0 <= k < n * z ==> #[trigger] Wd1002Controller::data_read_done(states[k], states[k + 1], bytes[k])
            &&& s0.phase == TransferPhase::ReadData && s0.data_ix == 0 && s0.data_len == z && !s0.intrq
            &&& s0.cur_cmd & CMD_MULTI != 0 && s0.cur_cmd & CMD_LONG == 0 && s0.cur_cmd & 0xF0 != CMD_SEEK
            &&& s0.remaining_sectors == n
            &&& chs_offset(c0.0, c0.1, c0.2, s0.xfer_size as nat).is_some()
            &&& s0.data_buf@.subrange(0, z) == s0.image.data@.subrange(chs_offset(c0.0, c0.1, c0.2, s0.xfer_size as nat).unwrap(),
                chs_offset(c0.0, c0.1, c0.2, s0.xfer_size as nat).unwrap() + z)
            &&& forall|j: int| 1 <= j < n ==> #[trigger] chs_offset(chs_after(c0, spt_of(s0.xfer_size as nat) as int, j as nat).0,
                chs_after(c0, spt_of(s0.xfer_size as nat) as int, j as nat).1,
                chs_after(c0, spt_of(s0.xfer_size as nat) as int, j as nat).2, s0.xfer_size as nat).is_some()
        }),
    ensures
        forall|k: int| 1 <= k < n * states[0].xfer_size ==> !(#[trigger] states[k]).intrq,
        states[n * states[0].xfer_size as int].intrq,
        states[n * states[0].xfer_size as int].phase == TransferPhase::Idle,
        forall|k: int| 0 <= k < n * states[0].xfer_size ==> #[trigger] bytes[k]
            == states[0].image.data@[transfer_offset(states[0], k / states[0].xfer_size as int) + k % states[0].xfer_size as int],
{
    let s0 = states[0];
    let z = s0.xfer_size as int;
    assert(z > 0);
    assert(multi_read_at(s0, states[0], n, 0)) by {
        assert(0int / z == 0 && 0int % z == 0);
    }
    let k = n * z - 1;
    assert(k >= 0) by (nonlinear_arith) requires n >= 1, z > 0, k == n * z - 1;
    lemma_multi_read_upto(states, bytes, n, k);
    assert forall|j: int| 0 <= j < n * z implies #[trigger] bytes[j]
        == s0.image.data@[transfer_offset(s0, j / z) + j % z] by {
        lemma_multi_read_upto(states, bytes, n, j);
        assert(Wd1002Controller::data_read_done(states[j], states[j + 1], bytes[j]));
        vstd::arithmetic::div_mod::lemma_mod_bound(j, z);
        let sj = states[j];
        assert(sj.data_buf@.len() == DATA_BUF_SIZE);
        assert(sj.data_buf@.subrange(0, z)[j % z] == sj.data_buf@[j % z]);
    }
    assert(k == n * z - 1);
    let last = states[k];
    assert(Wd1002Controller::data_read_done(states[k], states[k + 1], bytes[k]));
    assert(k / z == n - 1 && k % z == z - 1) by {
        vstd::arithmetic::div_mod::lemma_fundamental_div_mod_converse(k, z, n - 1, z - 1);
    }
}

proof fn lemma_multi_read_upto(states: Seq<Wd1002Controller>, bytes: Seq<u8>, n: int, k: int)
    requires
        n >= 1,
        states.len() >= 1,
        ({
            let s0 = states[0];
            let z = s0.xfer_size as int;
            let c0 = (s0.cyl_spec(), s0.head_spec(), s0.regs@[REG_SECTOR as int] as int);
            &&& s0.wf()
            &&& states.len() == n * z + 1
            &&& bytes.len() == n * z
            &&& forall|q: int| 0 <= q < n * z ==> #[trigger] Wd1002Controller::data_read_done(states[q], states[q + 1], bytes[q])
            &&& s0.phase == TransferPhase::ReadData && s0.data_ix == 0 && s0.data_len == z && !s0.intrq
            &&& s0.cur_cmd & CMD_MULTI != 0 && s0.cur_cmd & CMD_LONG == 0
            &&& s0.remaining_sectors == n
            &&& chs_offset(c0.0, c0.1, c0.2, s0.xfer_size as nat).is_some()
            &&& s0.data_buf@.subrange(0, z) == s0.image.data@.subrange(chs_offset(c0.0, c0.1, c0.2, s0.xfer_size as nat).unwrap(),
                chs_offset(c0.0, c0.1, c0.2, s0.xfer_size as nat).unwrap() + z)
            &&& forall|j: int| 1 <= j < n ==> #[trigger] chs_offset(chs_after(c0, spt_of(s0.xfer_size as nat) as int, j as nat).0,
                chs_after(c0, spt_of(s0.xfer_size as nat) as int, j as nat).1,
                chs_after(c0, spt_of(s0.xfer_size as nat) as int, j as nat).2, s0.xfer_size as nat).is_some()
        }),
        0 <= k <= n * states[0].xfer_size - 1,
    ensures
        multi_read_at(states[0], states[k], n, k),
        forall|q: int| 1 <= q <= k ==> !(#[trigger] states[q]).intrq,
    decreases k,
{
    let s0 = states[0];
    let z = s0.xfer_size as int;
    assert(z > 0);
    if k == 0 {
        assert(0int / z == 0 && 0int % z == 0);
    } else {
        lemma_multi_read_upto(states, bytes, n, k - 1);
        lemma_multi_read_step(states, bytes, n, k - 1);
    }
}

proof fn lemma_multi_read_step(states: Seq<Wd1002Controller>, bytes: Seq<u8>, n: int, k: int)
    requires
        n >= 1,
        states.len() >= 1,
        ({
            let s0 = states[0];
            let z = s0.xfer_size as int;
            let c0 = (s0.cyl_spec(), s0.head_spec(), s0.regs@[REG_SECTOR as int] as int);
            &&& s0.wf()
            &&& states.len() == n * z + 1
            &&& bytes.len() == n * z
            &&& forall|q: int| 0 <= q < n * z ==> #[trigger] Wd1002Controller::data_read_done(states[q], states[q + 1], bytes[q])
            &&& s0.cur_cmd & CMD_MULTI != 0 && s0.cur_cmd & CMD_LONG == 0
            &&& forall|j: int| 1 <= j < n ==> #[trigger] chs_offset(chs_after(c0, spt_of(s0.xfer_size as nat) as int, j as nat).0,
                chs_after(c0, spt_of(s0.xfer_size as nat) as int, j as nat).1,
                chs_after(c0, spt_of(s0.xfer_size as nat) as int, j as nat).2, s0.xfer_size as nat).is_some()
        }),
        0 <= k < n * states[0].xfer_size - 1,
        multi_read_at(states[0], states[k], n, k),
    ensures
        multi_read_at(states[0], states[k + 1], n, k + 1),
{
    let s0 = states[0];
    let z = s0.xfer_size as int;
    assert(z > 0);
    assert(Wd1002Controller::data_read_done(states[k], states[k + 1], bytes[k]));
    let q = k / z;
    let r = k % z;
    vstd::arithmetic::div_mod::lemma_fundamental_div_mod(k, z);
    vstd::arithmetic::div_mod::lemma_mod_bound(k, z);
    assert(q < n) by (nonlinear_arith) requires k == z * q + r, 0 <= r, k < n * z, z > 0;
    assert(q >= 0) by (nonlinear_arith) requires k == z * q + r, r < z, k >= 0, z > 0;
    if r + 1 < z {
        vstd::arithmetic::div_mod::lemma_fundamental_div_mod_converse(k + 1, z, q, r + 1);
    } else {
        assert(r == z - 1);
        assert(k + 1 == (q + 1) * z + 0) by (nonlinear_arith) requires k == z * q + r, r == z - 1;
        vstd::arithmetic::div_mod::lemma_fundamental_div_mod_converse(k + 1, z, q + 1, 0);
        assert(q + 1 < n) by (nonlinear_arith) requires k + 1 == (q + 1) * z, k + 1 < n * z, z > 0;
        let c0 = (s0.cyl_spec(), s0.head_spec(), s0.regs@[REG_SECTOR as int] as int);
        let spt = spt_of(s0.xfer_size as nat) as int;
        assert(chs_after(c0, spt, (q + 1) as nat) == next_chs(chs_after(c0, spt, q as nat).0,
            chs_after(c0, spt, q as nat).1, chs_after(c0, spt, q as nat).2, spt));
        assert(chs_offset(chs_after(c0, spt, (q + 1) as nat).0, chs_after(c0, spt, (q + 1) as nat).1,
            chs_after(c0, spt, (q + 1) as nat).2, s0.xfer_size as nat).is_some());
    }
}

} // verus!
