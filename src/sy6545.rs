//! SY6545 CRT controller with transparent video-RAM addressing.
//!
//! Port 0x1C selects a register (write) or reads the status (UR bit 7, VRT
//! bit 5); port 0x1D reads or writes the selected register; port 0x1F reads
//! or writes video RAM at the update address held in R18:R19. R31 is the
//! strobe register: touching it through port 0x1D advances the update
//! address, and only while it is selected does port 0x1F write video RAM.

use vstd::prelude::*;

verus! {

pub const CRTC_REGS: usize = 20;
pub const VRAM_SIZE: usize = 4096;
/// Cycles per frame at about 60 Hz on a 2.5 MHz CPU.
pub const FRAME_CYCLES: u32 = 41666;
/// Frame position where vertical retrace begins.
pub const RETRACE_START: u32 = 37666;

pub struct Sy6545 {
    /// R0-R19: timing registers and the update address.
    pub regs: Vec<u8>,
    /// Register pointer, 5 bits.
    pub reg_index: u8,
    /// Character plane 0x000-0x7FF and attribute plane 0x800-0xFFF.
    pub vram: Vec<u8>,
    pub vram_dirty: bool,
    /// Update address for video-RAM access.
    pub addr_latch: u16,
    pub update_ready: bool,
    pub vertical_retrace: bool,
    pub cycle_counter: u32,
}

/// Index into video RAM of an update address.
pub open spec fn vram_slot(addr: u16) -> int {
    addr as int % 4096
}

impl Sy6545 {
    pub open spec fn wf(&self) -> bool {
        &&& self.regs@.len() == CRTC_REGS
        &&& self.vram@.len() == VRAM_SIZE
        &&& self.reg_index < 32
    }

    pub fn new() -> (r: Sy6545)
        ensures
            r.wf(),
            forall|i: int| 0 <= i < 0x800 ==> r.vram@[i] == 0x20,
            forall|i: int| 0x800 <= i < 0x1000 ==> r.vram@[i] == 0,
            forall|i: int| 0 <= i < CRTC_REGS ==> r.regs@[i] == 0,
            r.reg_index == 0,
            r.vram_dirty,
            r.addr_latch == 0,
            r.update_ready,
            !r.vertical_retrace,
            r.cycle_counter == 0,
    {
        let mut vram: Vec<u8> = Vec::new();
        let mut i: usize = 0;
        while i < VRAM_SIZE
            invariant
                i <= VRAM_SIZE,
                vram@.len() == i,
                forall|k: int| 0 <= k < i ==> vram@[k] == if k < 0x800 { 0x20u8 } else { 0u8 },
            decreases VRAM_SIZE - i,
        {
            vram.push(if i < 0x800 { 0x20u8 } else { 0u8 });
            i = i + 1;
        }
        let mut regs: Vec<u8> = Vec::new();
        let mut k: usize = 0;
        while k < CRTC_REGS
            invariant
                k <= CRTC_REGS,
                regs@.len() == k,
                forall|j: int| 0 <= j < k ==> regs@[j] == 0,
            decreases CRTC_REGS - k,
        {
            regs.push(0);
            k = k + 1;
        }
        Sy6545 {
            regs,
            reg_index: 0,
            vram,
            vram_dirty: true,
            addr_latch: 0,
            update_ready: true,
            vertical_retrace: false,
            cycle_counter: 0,
        }
    }

    /// Advances the retrace timing by one cycle.
    pub fn tick(&mut self)
        ensures
            final(self).cycle_counter == (old(self).cycle_counter as int + 1) % 0x1_0000_0000,
            final(self).vertical_retrace == (final(self).cycle_counter % FRAME_CYCLES >= RETRACE_START),
            final(self).regs == old(self).regs,
            final(self).vram == old(self).vram,
            final(self).reg_index == old(self).reg_index,
            final(self).vram_dirty == old(self).vram_dirty,
            final(self).addr_latch == old(self).addr_latch,
            final(self).update_ready == old(self).update_ready,
    {
        self.cycle_counter = self.cycle_counter.wrapping_add(1);
        let frame_pos = self.cycle_counter % FRAME_CYCLES;
        self.vertical_retrace = frame_pos >= RETRACE_START;
    }

    /// Display start address, R12:R13.
    pub fn start_addr(&self) -> (r: usize)
        requires
            self.wf(),
        ensures
            r == self.regs@[12] as int * 256 + self.regs@[13] as int,
    {
        self.regs[12] as usize * 256 + self.regs[13] as usize
    }

    /// Port 0x1C write: selects a register.
    pub fn write_port_1c(&mut self, value: u8)
        requires
            old(self).wf(),
        ensures
            *final(self) == (Sy6545 {
                reg_index: value % 32,
                update_ready: old(self).update_ready || value % 32 == 31,
                ..*old(self)
            }),
    {
        self.reg_index = value % 32;
        if self.reg_index == 31 {
            // The update cycle of the strobe register completes at once.
            self.update_ready = false;
            self.update_ready = true;
        }
    }

    /// Port 0x1C read: the status register.
    pub fn read_port_1c(&self) -> (r: u8)
        ensures
            r == (if self.update_ready { 0x80u8 } else { 0u8 }) + (if self.vertical_retrace { 0x20u8 } else { 0u8 }),
    {
        let mut status: u8 = 0;
        if self.update_ready {
            status = status + 0x80;
        }
        if self.vertical_retrace {
            status = status + 0x20;
        }
        status
    }

    /// Port 0x1D write: writes the selected register.
    pub fn write_port_1d(&mut self, value: u8)
        requires
            old(self).wf(),
        ensures
            final(self).wf(),
            final(self).vram == old(self).vram,
            final(self).update_ready == (old(self).update_ready || old(self).reg_index == 31),
            final(self).vertical_retrace == old(self).vertical_retrace,
            final(self).cycle_counter == old(self).cycle_counter,
            ({
                let i = old(self).reg_index;
                if i <= 17 {
                    &&& final(self).regs@ == old(self).regs@.update(i as int, value)
                    &&& final(self).vram_dirty == (old(self).vram_dirty || (10 <= i <= 15))
                    &&& final(self).reg_index == i
                    &&& final(self).addr_latch == old(self).addr_latch
                } else if i == 18 {
                    &&& final(self).regs@ == old(self).regs@.update(18, value)
                    &&& final(self).addr_latch == value as int * 256 + old(self).addr_latch % 256
                    &&& final(self).reg_index == 19
                    &&& final(self).vram_dirty == old(self).vram_dirty
                } else if i == 19 {
                    &&& final(self).regs@ == old(self).regs@.update(19, value)
                    &&& final(self).addr_latch == old(self).addr_latch / 256 * 256 + value
                    &&& final(self).reg_index == 18
                    &&& final(self).vram_dirty == old(self).vram_dirty
                } else if i == 31 {
                    &&& final(self).regs@ == old(self).regs@
                    &&& final(self).addr_latch == (old(self).addr_latch + 1) % 0x10000
                    &&& final(self).reg_index == i
                    &&& final(self).vram_dirty == old(self).vram_dirty
                } else {
                    &&& final(self).regs == old(self).regs
                    &&& final(self).reg_index == i
                    &&& final(self).addr_latch == old(self).addr_latch
                    &&& final(self).vram_dirty == old(self).vram_dirty
                }
            }),
    {
        let i = self.reg_index;
        if i <= 17 {
            self.regs.set(i as usize, value);
            if 10 <= i && i <= 15 {
                self.vram_dirty = true;
            }
        } else if i == 18 {
            self.regs.set(18, value);
            self.addr_latch = value as u16 * 256 + self.addr_latch % 256;
            self.reg_index = 19;
        } else if i == 19 {
            self.regs.set(19, value);
            self.addr_latch = self.addr_latch / 256 * 256 + value as u16;
            self.reg_index = 18;
        } else if i == 31 {
            self.update_ready = false;
            self.addr_latch = self.addr_latch.wrapping_add(1);
            self.update_ready = true;
        }
    }

    /// Port 0x1D read: reads the selected register; reading R31 strobes.
    pub fn read_port_1d(&mut self) -> (r: u8)
        requires
            old(self).wf(),
        ensures
            old(self).reg_index <= 19 ==> r == old(self).regs@[old(self).reg_index as int] && *final(self) == *old(self),
            old(self).reg_index == 31 ==> r == 0 && *final(self) == (Sy6545 {
                addr_latch: ((old(self).addr_latch + 1) % 0x10000) as u16,
                update_ready: true,
                ..*old(self)
            }),
            19 < old(self).reg_index < 31 ==> r == 0 && *final(self) == *old(self),
    {
        let i = self.reg_index;
        if i <= 19 {
            self.regs[i as usize]
        } else if i == 31 {
            self.update_ready = false;
            self.addr_latch = self.addr_latch.wrapping_add(1);
            self.update_ready = true;
            0
        } else {
            0
        }
    }

    /// Port 0x1E write: alternate video-RAM window that advances the address.
    pub fn write_port_1e(&mut self, value: u8)
        requires
            old(self).wf(),
        ensures
            final(self).wf(),
            final(self).vram@ == old(self).vram@.update(vram_slot(old(self).addr_latch), value),
            final(self).vram_dirty,
            final(self).addr_latch == (old(self).addr_latch + 1) % 0x10000,
            final(self).regs == old(self).regs,
            final(self).reg_index == old(self).reg_index,
            final(self).update_ready == old(self).update_ready,
            final(self).vertical_retrace == old(self).vertical_retrace,
            final(self).cycle_counter == old(self).cycle_counter,
    {
        let addr = self.addr_latch as usize % VRAM_SIZE;
        self.vram.set(addr, value);
        self.vram_dirty = true;
        self.addr_latch = self.addr_latch.wrapping_add(1);
    }

    /// Port 0x1E read.
    pub fn read_port_1e(&self) -> (r: u8)
        requires
            self.wf(),
        ensures
            r == self.vram@[vram_slot(self.addr_latch)],
    {
        self.vram[self.addr_latch as usize % VRAM_SIZE]
    }

    /// Port 0x1F write: a video-RAM write, honoured only while R31 is selected.
    pub fn write_port_1f(&mut self, value: u8)
        requires
            old(self).wf(),
        ensures
            final(self).wf(),
            old(self).reg_index == 31 ==> *final(self) == (Sy6545 {
                vram: final(self).vram,
                vram_dirty: true,
                ..*old(self)
            }) && final(self).vram@ == old(self).vram@.update(vram_slot(old(self).addr_latch), value),
            old(self).reg_index != 31 ==> *final(self) == *old(self),
    {
        if self.reg_index != 31 {
            return;
        }
        let addr = self.addr_latch as usize % VRAM_SIZE;
        self.vram.set(addr, value);
        self.vram_dirty = true;
    }

    /// Port 0x1F read: video RAM at the update address.
    pub fn read_port_1f(&mut self) -> (r: u8)
        requires
            old(self).wf(),
        ensures
            r == old(self).vram@[vram_slot(old(self).addr_latch)],
            *final(self) == *old(self),
    {
        self.vram[self.addr_latch as usize % VRAM_SIZE]
    }

    /// Character-plane byte, 2 KiB wrap.
    pub fn get_vram(&self, offset: usize) -> (r: u8)
        requires
            self.wf(),
        ensures
            r == self.vram@[offset as int % 2048],
    {
        self.vram[offset % 2048]
    }

    /// Attribute-plane byte, 2 KiB wrap.
    pub fn get_attr(&self, offset: usize) -> (r: u8)
        requires
            self.wf(),
        ensures
            r == self.vram@[offset as int % 2048 + 2048],
    {
        self.vram[offset % 2048 + 2048]
    }

    /// Cursor address, R14:R15.
    pub fn cursor_addr(&self) -> (r: usize)
        requires
            self.wf(),
        ensures
            r == self.regs@[14] as int * 256 + self.regs@[15] as int,
    {
        self.regs[14] as usize * 256 + self.regs[15] as usize
    }

    /// Cursor start line, R10 bits 4-0.
    pub fn cursor_start(&self) -> (r: u8)
        requires
            self.wf(),
        ensures
            r == self.regs@[10] % 32,
    {
        self.regs[10] % 32
    }

    /// Cursor end line, R11 bits 4-0.
    pub fn cursor_end(&self) -> (r: u8)
        requires
            self.wf(),
        ensures
            r == self.regs@[11] % 32,
    {
        self.regs[11] % 32
    }

    /// Cursor mode, R10 bits 6-5: 0 steady, 1 invisible, 2 and 3 blink.
    pub fn cursor_mode(&self) -> (r: u8)
        requires
            self.wf(),
        ensures
            r == self.regs@[10] / 32 % 4,
    {
        self.regs[10] / 32 % 4
    }
}

} // verus!
