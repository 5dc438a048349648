//! The Kaypro bus: 64 KiB of RAM, a ROM and memory-mapped video RAM banked in
//! by the system bits, the I/O port decoder, and the NMI policy of the run loop.

use vstd::prelude::*;
use crate::floppy_controller::FloppyController;
use crate::rtc::Rtc;
use crate::sio::Sio;
use crate::sy6545::Sy6545;

verus! {

pub const RAM_SIZE: usize = 65536;
pub const MM_VRAM_SIZE: usize = 4096;
/// Instructions between an NMI request and its delivery on the deadline path.
pub const NMI_DEADLINE: u64 = 10_000_000;
/// Where the KayPLUS BIOS increments its software clock.
pub const KAYPLUS_CLOCK_PC: u16 = 0x069E;
/// Where the KayPLUS clock loop ends.
pub const KAYPLUS_CLOCK_DONE_PC: u16 = 0x06CE;

/// How video RAM is reached.
#[derive(Copy, Clone, PartialEq, Eq, Structural, Debug)]
pub enum VideoMode {
    /// Memory-mapped video RAM at 0x3000-0x3FFF (Kaypro II, 4/83).
    MemoryMapped,
    /// SY6545 CRTC with port access (Kaypro 2X, 4/84).
    Sy6545Crtc,
}

/// Bits of the canonical system-bit latch.
#[derive(Copy, Clone, PartialEq, Eq, Structural, Debug)]
pub enum SystemBit {
    DriveA,
    DriveB,
    Side2,
    CentronicsReady,
    CentronicsStrobe,
    SingleDensity,
    MotorsOff,
    Bank,
}

impl SystemBit {
    pub fn mask(self) -> (r: u8)
        ensures
            self == SystemBit::DriveA ==> r == 0x01,
            self == SystemBit::DriveB ==> r == 0x02,
            self == SystemBit::Side2 ==> r == 0x04,
            self == SystemBit::CentronicsReady ==> r == 0x08,
            self == SystemBit::CentronicsStrobe ==> r == 0x10,
            self == SystemBit::SingleDensity ==> r == 0x20,
            self == SystemBit::MotorsOff ==> r == 0x40,
            self == SystemBit::Bank ==> r == 0x80,
    {
        match self {
            SystemBit::DriveA => 0x01,
            SystemBit::DriveB => 0x02,
            SystemBit::Side2 => 0x04,
            SystemBit::CentronicsReady => 0x08,
            SystemBit::CentronicsStrobe => 0x10,
            SystemBit::SingleDensity => 0x20,
            SystemBit::MotorsOff => 0x40,
            SystemBit::Bank => 0x80,
        }
    }
}

/// The decoder's view of an I/O address: A7 enables it, A6 is not wired.
pub open spec fn decode_port(address: u16) -> u8 {
    ((address % 256) as u8) & 0xBF
}

/// Canonical system bits of a Kaypro 4/84 port-0x14 value.
pub open spec fn k484_system_bits(bits: u8) -> u8 {
    ((if bits & 0x80 != 0 { 0x80int } else { 0int })
        + (if bits & 0x10 == 0 { 0x40int } else { 0int })
        + (if bits & 0x20 != 0 { 0x20int } else { 0int })
        + (if bits & 0x04 == 0 { 0x04int } else { 0int })
        + (if bits & 0x03 == 0x02 || bits & 0x03 == 0x03 { 0x01int } else if bits & 0x03 == 0x01 { 0x02int } else { 0int })
        + (if bits & 0x08 != 0 { 0x10int } else { 0int })) as u8
}

/// Converts a Kaypro 4/84 port-0x14 value into canonical system bits.
pub fn k484_to_system_bits(bits: u8) -> (r: u8)
    ensures
        r == k484_system_bits(bits),
{
    let mut sys: u8 = 0;
    if bits & 0x80 != 0 {
        sys = sys + 0x80;
    }
    if bits & 0x10 == 0 {
        sys = sys + 0x40;
    }
    if bits & 0x20 != 0 {
        sys = sys + 0x20;
    }
    if bits & 0x04 == 0 {
        sys = sys + 0x04;
    }
    let sel = bits & 0x03;
    if sel == 0x02 || sel == 0x03 {
        sys = sys + 0x01;
    } else if sel == 0x01 {
        sys = sys + 0x02;
    }
    if bits & 0x08 != 0 {
        sys = sys + 0x10;
    }
    sys
}

/// What the run loop does with a pending NMI after an instruction.
#[derive(Copy, Clone, PartialEq, Eq, Structural, Debug)]
pub enum NmiAction {
    /// Nothing to do.
    Run,
    /// Signal the NMI to the CPU.
    Deliver,
    /// The CPU is halted with no NMI to wake it.
    Halted,
}

/// The run loop's NMI latch: a pending flag and the instruction count by
/// which it is delivered if the CPU has not halted.
pub struct NmiLatch {
    pub pending: bool,
    pub deadline: u64,
}

impl NmiLatch {
    pub fn new() -> (r: NmiLatch)
        ensures
            !r.pending,
    {
        NmiLatch { pending: false, deadline: 0 }
    }

    /// After one instruction at `counter`: a device request latches the NMI
    /// with a fresh deadline; a pending NMI is delivered when the CPU is halted,
    /// or when the deadline has passed and the vector at 0x0066 is safe.
    pub fn after_instruction(&mut self, raised: bool, counter: u64, halted: bool, vector_safe: bool) -> (r: NmiAction)
        ensures
            ({
                let pending = old(self).pending || raised;
                let deadline = if raised { counter.saturating_add(NMI_DEADLINE) as u64 } else { old(self).deadline };
                let deliver = pending && (halted || (counter >= deadline && vector_safe));
                &&& r == if deliver { NmiAction::Deliver } else if halted { NmiAction::Halted } else { NmiAction::Run }
                &&& final(self).pending == (pending && !deliver)
                &&& final(self).deadline == deadline
            }),
            !halted && !vector_safe ==> r != NmiAction::Deliver,
    {
        if raised {
            self.pending = true;
            self.deadline = if counter > u64::MAX - NMI_DEADLINE { u64::MAX } else { counter + NMI_DEADLINE };
        }
        if self.pending && (halted || (counter >= self.deadline && vector_safe)) {
            self.pending = false;
            NmiAction::Deliver
        } else if halted {
            NmiAction::Halted
        } else {
            NmiAction::Run
        }
    }
}

pub struct KayproMachine {
    pub rom: Vec<u8>,
    pub ram: Vec<u8>,
    /// Memory-mapped video RAM of the older models.
    pub vram: Vec<u8>,
    pub vram_dirty: bool,
    pub system_bits: u8,
    /// Last value written to port 0x14, read back as written.
    pub port14_raw: u8,
    pub video_mode: VideoMode,
    pub crtc: Sy6545,
    /// SIO channel B (keyboard) write-register pointer, WR1 and WR2.
    pub sio_b_wr_select: u8,
    pub sio_b_wr1: u8,
    pub sio_b_wr2: u8,
    /// An IM2 keyboard interrupt was injected and its byte not yet read.
    pub sio_int_pending: bool,
    pub kayplus_clock_fixup: bool,
    /// Keys waiting on SIO channel B, oldest first.
    pub keyboard_fifo: Vec<u8>,
    pub floppy_controller: FloppyController,
    pub sio: Sio,
    pub rtc: Rtc,
}

impl KayproMachine {
    pub open spec fn wf(&self) -> bool {
        &&& self.ram@.len() == RAM_SIZE
        &&& self.vram@.len() == MM_VRAM_SIZE
        &&& self.rom@.len() <= RAM_SIZE
        &&& self.crtc.wf()
        &&& self.floppy_controller.wf()
        &&& self.sio.wf()
        &&& self.rtc.wf()
    }

    pub open spec fn rom_bank(&self) -> bool {
        self.system_bits & 0x80 != 0
    }

    /// The byte the CPU reads at an address.
    pub open spec fn peek_spec(&self, address: u16) -> u8 {
        if (address as int) < self.rom@.len() && self.rom_bank() {
            self.rom@[address as int]
        } else if 0x3000 <= address < 0x4000 && self.rom_bank() && self.video_mode == VideoMode::MemoryMapped {
            self.vram@[address - 0x3000]
        } else {
            self.ram@[address as int]
        }
    }

    /// An address reaches RAM: always in the RAM bank; in the ROM bank,
    /// outside the ROM and outside the memory-mapped video window.
    pub open spec fn in_ram(&self, target: int) -> bool {
        !self.rom_bank() || (target >= self.rom@.len()
            && !(self.video_mode == VideoMode::MemoryMapped && 0x3000 <= target < 0x4000))
    }

    /// The NMI vector at 0x0066 returns at once (RET or RETN) or jumps into RAM.
    pub open spec fn nmi_safe_spec(&self) -> bool {
        let b0 = self.peek_spec(0x66);
        let b1 = self.peek_spec(0x67);
        let target = b1 as int + self.peek_spec(0x68) as int * 256;
        b0 == 0xC9 || (b0 == 0xED && b1 == 0x45) || (b0 == 0xC3 && self.in_ram(target))
    }

    /// A machine with the ROM shadowed into low RAM, starting in the ROM bank
    /// with the motors off.
    pub fn new(rom: Vec<u8>, video_mode: VideoMode, floppy_controller: FloppyController) -> (r: KayproMachine)
        requires
            rom@.len() <= RAM_SIZE,
            floppy_controller.wf(),
        ensures
            r.wf(),
            r.rom == rom,
            forall|i: int| 0 <= i < rom@.len() ==> r.ram@[i] == rom@[i],
            forall|i: int| rom@.len() <= i < RAM_SIZE ==> r.ram@[i] == 0,
            r.system_bits == 0xC0,
            r.port14_raw == 0xDF,
            r.video_mode == video_mode,
            r.floppy_controller == floppy_controller,
    {
        let mut ram: Vec<u8> = Vec::new();
        let mut i: usize = 0;
        while i < RAM_SIZE
            invariant
                i <= RAM_SIZE,
                ram@.len() == i,
                rom@.len() <= RAM_SIZE,
                forall|k: int| 0 <= k < i ==> ram@[k] == if k < rom@.len() { rom@[k] } else { 0u8 },
            decreases RAM_SIZE - i,
        {
            ram.push(if i < rom.len() { rom[i] } else { 0u8 });
            i = i + 1;
        }
        KayproMachine {
            rom,
            ram,
            vram: vec![0u8; MM_VRAM_SIZE],
            vram_dirty: false,
            system_bits: 0xC0,
            port14_raw: 0xDF,
            video_mode,
            crtc: Sy6545::new(),
            sio_b_wr_select: 0,
            sio_b_wr1: 0,
            sio_b_wr2: 0,
            sio_int_pending: false,
            kayplus_clock_fixup: false,
            keyboard_fifo: Vec::new(),
            floppy_controller,
            sio: Sio::new(),
            rtc: Rtc::new(),
        }
    }

    pub fn is_rom_rank(&self) -> (r: bool)
        ensures
            r == self.rom_bank(),
    {
        self.system_bits & 0x80 != 0
    }

    /// Memory read.
    pub fn peek(&self, address: u16) -> (r: u8)
        requires
            self.wf(),
        ensures
            r == self.peek_spec(address),
    {
        if (address as usize) < self.rom.len() && self.is_rom_rank() {
            self.rom[address as usize]
        } else if address >= 0x3000 && address < 0x4000 && self.is_rom_rank()
            && self.video_mode == VideoMode::MemoryMapped
        {
            self.vram[(address - 0x3000) as usize]
        } else {
            self.ram[address as usize]
        }
    }

    /// Memory write. In the ROM bank, writes below 0x3000 reach the RAM
    /// underneath and the video window takes 0x3000-0x3FFF on memory-mapped
    /// models.
    pub fn poke(&mut self, address: u16, value: u8)
        requires
            old(self).wf(),
        ensures
            final(self).wf(),
            (0x3000 <= address < 0x4000 && old(self).rom_bank() && old(self).video_mode == VideoMode::MemoryMapped) ==> {
                &&& final(self).vram@ == old(self).vram@.update(address - 0x3000, value)
                &&& final(self).vram_dirty
                &&& final(self).ram == old(self).ram
            },
            !(0x3000 <= address < 0x4000 && old(self).rom_bank() && old(self).video_mode == VideoMode::MemoryMapped) ==> {
                &&& final(self).ram@ == old(self).ram@.update(address as int, value)
                &&& final(self).vram == old(self).vram
                &&& final(self).vram_dirty == old(self).vram_dirty
            },
            final(self).rom == old(self).rom,
            final(self).system_bits == old(self).system_bits,
            final(self).video_mode == old(self).video_mode,
    {
        if address >= 0x3000 && address < 0x4000 && self.is_rom_rank() && self.video_mode == VideoMode::MemoryMapped {
            self.vram.set((address - 0x3000) as usize, value);
            self.vram_dirty = true;
        } else {
            self.ram.set(address as usize, value);
        }
    }

    /// Whether delivering an NMI now is safe: the vector at 0x0066 returns at
    /// once or jumps into RAM (not ROM, not video RAM). KayPLUS ROMs keep a
    /// checksum loop there.
    pub fn nmi_vector_is_safe(&self) -> (r: bool)
        requires
            self.wf(),
        ensures
            r == self.nmi_safe_spec(),
    {
        let b0 = self.peek(0x0066);
        if b0 == 0xC9 {
            return true;
        }
        let b1 = self.peek(0x0067);
        if b0 == 0xED && b1 == 0x45 {
            return true;
        }
        if b0 == 0xC3 {
            let target = b1 as usize + self.peek(0x0068) as usize * 256;
            if !self.is_rom_rank() || (target >= self.rom.len()
                && !(self.video_mode == VideoMode::MemoryMapped && 0x3000 <= target && target < 0x4000))
            {
                return true;
            }
        }
        false
    }

    /// Sets the canonical system bits and applies them to the floppy controller.
    fn update_system_bits(&mut self, bits: u8)
        requires
            old(self).wf(),
        ensures
            final(self).wf(),
            final(self).system_bits == bits,
            final(self).floppy_controller.motor_on == (bits & 0x40 == 0),
            final(self).floppy_controller.single_density == (bits & 0x20 != 0),
            final(self).floppy_controller.side_2 == (bits & 0x04 != 0),
            final(self).rom == old(self).rom,
            final(self).ram == old(self).ram,
            final(self).video_mode == old(self).video_mode,
    {
        self.system_bits = bits;
        if bits & 0x01 != 0 {
            self.floppy_controller.set_drive(0);
        } else if bits & 0x02 != 0 {
            self.floppy_controller.set_drive(1);
        }
        self.floppy_controller.set_motor(bits & 0x40 == 0);
        self.floppy_controller.set_single_density(bits & 0x20 != 0);
        self.floppy_controller.set_side(bits & 0x04 != 0);
    }

    /// Port 0x14 of the Kaypro 4/84: converted into the canonical layout
    /// (motor and side have inverted polarity) and applied to the floppy
    /// controller; the raw value is kept for read-back.
    fn update_system_bits_k484(&mut self, bits: u8)
        requires
            old(self).wf(),
        ensures
            final(self).wf(),
            final(self).system_bits == k484_system_bits(bits),
            final(self).port14_raw == bits,
            final(self).floppy_controller.motor_on == (bits & 0x10 != 0),
            final(self).floppy_controller.single_density == (bits & 0x20 != 0),
            final(self).floppy_controller.side_2 == (bits & 0x04 == 0),
            final(self).rom == old(self).rom,
            final(self).ram == old(self).ram,
            final(self).video_mode == old(self).video_mode,
    {
        let sys = k484_to_system_bits(bits);
        let sel = bits & 0x03;
        let drive: Option<u8> = if sel == 0x02 || sel == 0x03 { Some(0) } else if sel == 0x01 { Some(1) } else { None };
        self.system_bits = sys;
        self.port14_raw = bits;
        if let Some(d) = drive {
            self.floppy_controller.set_drive(d);
        }
        self.floppy_controller.set_motor(bits & 0x10 != 0);
        self.floppy_controller.set_single_density(bits & 0x20 != 0);
        self.floppy_controller.set_side(bits & 0x04 == 0);
    }

    pub fn get_system_bits_k484(&self) -> (r: u8)
        ensures
            r == self.port14_raw,
    {
        self.port14_raw
    }

    /// SIO channel B control writes: the WR0 pointer protocol, WR1 and WR2.
    fn sio_b_write_control(&mut self, value: u8)
        ensures
            old(self).sio_b_wr_select == 0 && (value / 8) % 8 == 3 ==> final(self).sio_b_wr1 == 0 && final(self).sio_b_wr_select == 0,
            old(self).sio_b_wr_select == 0 && (value / 8) % 8 != 3 ==> final(self).sio_b_wr_select == value % 8
                && final(self).sio_b_wr1 == old(self).sio_b_wr1,
            old(self).sio_b_wr_select == 1 ==> final(self).sio_b_wr1 == value && final(self).sio_b_wr_select == 0,
            old(self).sio_b_wr_select == 2 ==> final(self).sio_b_wr2 == value && final(self).sio_b_wr_select == 0,
            old(self).sio_b_wr_select > 2 ==> final(self).sio_b_wr_select == 0,
            old(self).sio_b_wr_select != 2 ==> final(self).sio_b_wr2 == old(self).sio_b_wr2,
            *final(self) == (KayproMachine {
                sio_b_wr_select: final(self).sio_b_wr_select,
                sio_b_wr1: final(self).sio_b_wr1,
                sio_b_wr2: final(self).sio_b_wr2,
                ..*old(self)
            }),
    {
        let reg = self.sio_b_wr_select;
        if reg == 0 {
            self.sio_b_wr_select = value % 8;
            if (value / 8) % 8 == 3 {
                self.sio_b_wr1 = 0;
                self.sio_b_wr_select = 0;
            }
        } else if reg == 1 {
            self.sio_b_wr1 = value;
            self.sio_b_wr_select = 0;
        } else if reg == 2 {
            self.sio_b_wr2 = value;
            self.sio_b_wr_select = 0;
        } else {
            self.sio_b_wr_select = 0;
        }
    }

    /// Address of the IM2 vector-table entry of a channel B receive interrupt.
    pub open spec fn im2_vector(&self, i_reg: u8) -> int {
        i_reg as int * 256 + ((self.sio_b_wr2 & 0xF1) | 0x04) as int
    }

    /// Checks for a keyboard interrupt: when receive interrupts are enabled
    /// (WR1 bits 4:3), none is pending and a key waits, marks one pending and
    /// returns the handler address read from the IM2 vector table.
    pub fn sio_check_interrupt(&mut self, i_reg: u8) -> (r: Option<u16>)
        requires
            old(self).wf(),
        ensures
            final(self).wf(),
            ({
                let fire = (old(self).sio_b_wr1 / 8) % 4 != 0 && !old(self).sio_int_pending && old(self).keyboard_fifo@.len() > 0;
                let v = old(self).im2_vector(i_reg);
                &&& fire ==> final(self).sio_int_pending && r == Some((old(self).ram@[v] as int
                    + old(self).ram@[(v + 1) % 65536] as int * 256) as u16)
                &&& !fire ==> r.is_none() && *final(self) == *old(self)
            }),
            final(self).ram == old(self).ram,
    {
        if (self.sio_b_wr1 / 8) % 4 == 0 || self.sio_int_pending || self.keyboard_fifo.len() == 0 {
            return None;
        }
        self.sio_int_pending = true;
        let vector_byte = (self.sio_b_wr2 & 0xF1) | 0x04;
        let vector_addr = i_reg as u16 * 256 + vector_byte as u16;
        let lo = self.ram[vector_addr as usize] as u16;
        let hi = self.ram[vector_addr.wrapping_add(1) as usize] as u16;
        Some(hi * 256 + lo)
    }

    /// A key typed on the host, queued on SIO channel B.
    pub fn push_key(&mut self, key: u8)
        ensures
            final(self).keyboard_fifo@ == old(self).keyboard_fifo@.push(key),
            *final(self) == (KayproMachine { keyboard_fifo: final(self).keyboard_fifo, ..*old(self) }),
    {
        self.keyboard_fifo.push(key);
    }

    /// Writes the clock's hours, minutes and seconds into the KayPLUS
    /// software-clock cells 0xFF5C-0xFF5E.
    pub fn patch_software_clock(&mut self)
        requires
            old(self).wf(),
        ensures
            final(self).wf(),
            final(self).ram@ == old(self).ram@
                .update(0xFF5E, (old(self).rtc.local_secs() % 60) as u8)
                .update(0xFF5D, ((old(self).rtc.local_secs() % 3600) / 60) as u8)
                .update(0xFF5C, ((old(self).rtc.local_secs() % 86400) / 3600) as u8),
            *final(self) == (KayproMachine { ram: final(self).ram, ..*old(self) }),
    {
        let (sec, min, hour) = self.rtc.current_time_hms();
        self.ram.set(0xFF5E, sec);
        self.ram.set(0xFF5D, min);
        self.ram.set(0xFF5C, hour);
    }

    /// With the clock fix-up on, a PC at the KayPLUS clock loop in the ROM
    /// bank gets the clock patched and the PC to continue at; otherwise `None`.
    pub fn kayplus_clock_step(&mut self, pc: u16) -> (r: Option<u16>)
        requires
            old(self).wf(),
        ensures
            final(self).wf(),
            (old(self).kayplus_clock_fixup && pc == KAYPLUS_CLOCK_PC && old(self).rom_bank()) ==> {
                &&& r == Some(KAYPLUS_CLOCK_DONE_PC)
                &&& final(self).ram@[0xFF5C] == ((old(self).rtc.local_secs() % 86400) / 3600) as u8
                &&& final(self).ram@[0xFF5D] == ((old(self).rtc.local_secs() % 3600) / 60) as u8
                &&& final(self).ram@[0xFF5E] == (old(self).rtc.local_secs() % 60) as u8
            },
            !(old(self).kayplus_clock_fixup && pc == KAYPLUS_CLOCK_PC && old(self).rom_bank()) ==>
                r.is_none() && *final(self) == *old(self),
    {
        if self.kayplus_clock_fixup && pc == KAYPLUS_CLOCK_PC && self.is_rom_rank() {
            self.patch_software_clock();
            Some(KAYPLUS_CLOCK_DONE_PC)
        } else {
            None
        }
    }

    /// Range of RAM that holds the BIOS, from the warm-boot jump at 0x0001
    /// (less 3) to 0xFC00, or `None` when the jump points above it.
    pub fn bios_range(&self) -> (r: Option<(usize, usize)>)
        requires
            self.wf(),
        ensures
            ({
                let jump = self.ram@[1] as int + self.ram@[2] as int * 256;
                &&& (jump >= 3 && jump - 3 < 0xFC00) <==> r.is_some()
                &&& r.is_some() ==> r == Some(((jump - 3) as usize, 0xFC00usize))
            }),
    {
        let jump = self.ram[1] as usize + self.ram[2] as usize * 256;
        if jump < 3 || jump - 3 >= 0xFC00 {
            return None;
        }
        Some((jump - 3, 0xFC00))
    }

    /// A port write. Decoded ports at or above 0x80 are ignored.
    pub fn port_out(&mut self, address: u16, value: u8)
        requires
            old(self).wf(),
        ensures
            final(self).wf(),
            decode_port(address) >= 0x80 ==> *final(self) == *old(self),
            final(self).rom == old(self).rom,
            final(self).ram == old(self).ram,
            final(self).video_mode == old(self).video_mode,
            decode_port(address) == 0x14 && !(value == 0x17 && old(self).rom_bank()) ==>
                final(self).system_bits == k484_system_bits(value) && final(self).port14_raw == value,
            decode_port(address) == 0x14 && value == 0x17 && old(self).rom_bank() ==> *final(self) == *old(self),
            decode_port(address) == 0x1c && old(self).video_mode == VideoMode::MemoryMapped ==> final(self).system_bits == value,
            decode_port(address) == 0x1c && old(self).video_mode == VideoMode::Sy6545Crtc ==> final(self).crtc.reg_index == value % 32,
            decode_port(address) == 0x1f && old(self).video_mode == VideoMode::Sy6545Crtc ==> {
                &&& old(self).crtc.reg_index == 31 ==>
                    final(self).crtc.vram@ == old(self).crtc.vram@.update(crate::sy6545::vram_slot(old(self).crtc.addr_latch), value)
                    && final(self).crtc.vram_dirty
                &&& old(self).crtc.reg_index != 31 ==> final(self).crtc == old(self).crtc
            },
            decode_port(address) == 0x1d && old(self).video_mode == VideoMode::Sy6545Crtc && old(self).crtc.reg_index <= 17 ==>
                final(self).crtc.regs@ == old(self).crtc.regs@.update(old(self).crtc.reg_index as int, value),
            decode_port(address) == 0x1d && old(self).video_mode == VideoMode::Sy6545Crtc && old(self).crtc.reg_index == 18 ==>
                final(self).crtc.addr_latch == value as int * 256 + old(self).crtc.addr_latch % 256 && final(self).crtc.reg_index == 19,
            decode_port(address) == 0x1d && old(self).video_mode == VideoMode::Sy6545Crtc && old(self).crtc.reg_index == 19 ==>
                final(self).crtc.addr_latch == old(self).crtc.addr_latch / 256 * 256 + value && final(self).crtc.reg_index == 18,
            decode_port(address) == 0x1d && old(self).video_mode == VideoMode::Sy6545Crtc && old(self).crtc.reg_index == 31 ==>
                final(self).crtc.addr_latch == (old(self).crtc.addr_latch + 1) % 0x10000,
            decode_port(address) == 0x04 ==> final(self).sio.tx_out@ == old(self).sio.tx_out@.push(value),
            decode_port(address) == 0x00 && !old(self).rom_bank() ==> final(self).sio.baud_rate == crate::sio::baud_of(value),
            decode_port(address) == 0x11 ==> final(self).floppy_controller.track == value,
            decode_port(address) == 0x12 ==> final(self).floppy_controller.sector == value,
            decode_port(address) == 0x20 ==> final(self).rtc.reg_select == value % 32,
            decode_port(address) == 0x24 && old(self).rtc.reg_select <= 7 ==>
                Rtc::counter_set(old(self).rtc, final(self).rtc, old(self).rtc.reg_select, value),
            decode_port(address) == 0x24 && 8 <= old(self).rtc.reg_select <= 15 ==>
                final(self).rtc.ram@ == old(self).rtc.ram@.update(old(self).rtc.reg_select - 8, value),
            decode_port(address) == 0x13 ==> final(self).floppy_controller.data == value,
            decode_port(address) == 0x10 ==> final(self).floppy_controller.last_command == value,
    {
        let port = ((address % 256) as u8) & 0xBF;
        if port >= 0x80 {
            return;
        }
        let crtc_mode = self.video_mode == VideoMode::Sy6545Crtc;
        if port == 0x00 {
            // Baud rate: only from programs running in RAM; TurboROM's BIOS
            // uses the port for its own purposes.
            if !self.is_rom_rank() {
                self.sio.set_baud_rate_code(value);
            }
        } else if port == 0x04 {
            self.sio.write_data(value);
        } else if port == 0x06 {
            self.sio.write_control(value);
        } else if port == 0x07 {
            self.sio_b_write_control(value);
        } else if port == 0x10 {
            self.floppy_controller.put_command(value);
        } else if port == 0x11 {
            self.floppy_controller.put_track(value);
        } else if port == 0x12 {
            self.floppy_controller.put_sector(value);
        } else if port == 0x13 {
            self.floppy_controller.put_data(value);
        } else if port == 0x14 {
            // The ROM's video set-up writes 0x17 here while in the ROM bank;
            // it is not a bank switch.
            if !(value == 0x17 && self.is_rom_rank()) {
                self.update_system_bits_k484(value);
            }
        } else if port == 0x1c {
            if crtc_mode {
                self.crtc.write_port_1c(value);
            } else {
                self.update_system_bits(value);
            }
        } else if port == 0x1d {
            if crtc_mode {
                self.crtc.write_port_1d(value);
            }
        } else if port == 0x1e {
            if crtc_mode {
                self.crtc.write_port_1e(value);
            }
        } else if port == 0x1f {
            if crtc_mode {
                self.crtc.write_port_1f(value);
            }
        } else if port == 0x20 {
            self.rtc.write_addr(value);
        } else if port == 0x22 {
            self.rtc.write_control(value);
        } else if port == 0x24 {
            self.rtc.write_data(value);
        }
    }

    /// A port read. Decoded ports at or above 0x80 read 0 and change nothing;
    /// ports that nothing answers read 0xCA.
    pub fn port_in(&mut self, address: u16) -> (r: u8)
        requires
            old(self).wf(),
        ensures
            final(self).wf(),
            decode_port(address) >= 0x80 ==> r == 0 && *final(self) == *old(self),
            final(self).rom == old(self).rom,
            final(self).ram == old(self).ram,
            final(self).video_mode == old(self).video_mode,
            decode_port(address) == 0x11 ==> r == old(self).floppy_controller.track,
            decode_port(address) == 0x12 ==> r == old(self).floppy_controller.sector,
            decode_port(address) == 0x14 ==> r == old(self).port14_raw,
            decode_port(address) == 0x07 ==> r == if old(self).keyboard_fifo@.len() > 0 { 5u8 } else { 4u8 },
            decode_port(address) == 0x05 ==> !final(self).sio_int_pending
                && r == if old(self).keyboard_fifo@.len() > 0 { old(self).keyboard_fifo@[0] } else { 0u8 },
            decode_port(address) == 0x1c && old(self).video_mode == VideoMode::MemoryMapped ==> r == old(self).system_bits,
            decode_port(address) == 0x1f && old(self).video_mode == VideoMode::Sy6545Crtc ==>
                r == old(self).crtc.vram@[crate::sy6545::vram_slot(old(self).crtc.addr_latch)],
            decode_port(address) == 0x20 ==> r == old(self).rtc.reg_select,
            decode_port(address) == 0x04 && old(self).rom_bank() ==> r == 0,
            decode_port(address) == 0x04 && !old(self).rom_bank() ==>
                r == (if old(self).sio.rx_fifo@.len() > 0 { old(self).sio.rx_fifo@[0] } else { 0u8 }),
            decode_port(address) == 0x06 ==> r == (if old(self).sio.reg_pointer == 0 {
                old(self).sio.rr0()
            } else if old(self).sio.reg_pointer == 1 {
                old(self).sio.rr1()
            } else {
                0u8
            }),
            decode_port(address) == 0x1c && old(self).video_mode == VideoMode::Sy6545Crtc ==>
                r == (if old(self).crtc.update_ready { 0x80u8 } else { 0u8 }) + (if old(self).crtc.vertical_retrace { 0x20u8 } else { 0u8 }),
            decode_port(address) == 0x1d && old(self).video_mode == VideoMode::Sy6545Crtc && old(self).crtc.reg_index <= 19 ==>
                r == old(self).crtc.regs@[old(self).crtc.reg_index as int],
            decode_port(address) == 0x1e && old(self).video_mode == VideoMode::Sy6545Crtc ==>
                r == old(self).crtc.vram@[crate::sy6545::vram_slot(old(self).crtc.addr_latch)],
            (decode_port(address) == 0x1d || decode_port(address) == 0x1e || decode_port(address) == 0x1f)
                && old(self).video_mode == VideoMode::MemoryMapped ==> r == 0xca,
            decode_port(address) == 0x24 && 8 <= old(self).rtc.reg_select <= 15 ==> r == old(self).rtc.ram@[old(self).rtc.reg_select - 8],
            decode_port(address) == 0x24 && old(self).rtc.reg_select == 2 ==>
                r == crate::rtc::bcd((old(self).rtc.local_secs() % 60) as u8),
    {
        let port = ((address % 256) as u8) & 0xBF;
        if port >= 0x80 {
            return 0;
        }
        let crtc_mode = self.video_mode == VideoMode::Sy6545Crtc;
        if port == 0x04 {
            // TurboROM's BIOS polls this port; only programs in RAM drain it.
            if self.is_rom_rank() { 0 } else { self.sio.read_data() }
        } else if port == 0x06 {
            self.sio.read_control()
        } else if port == 0x05 {
            self.sio_int_pending = false;
            if self.keyboard_fifo.len() > 0 { self.keyboard_fifo.remove(0) } else { 0 }
        } else if port == 0x07 {
            if self.keyboard_fifo.len() > 0 { 5 } else { 4 }
        } else if port == 0x10 {
            self.floppy_controller.get_status()
        } else if port == 0x11 {
            self.floppy_controller.get_track()
        } else if port == 0x12 {
            self.floppy_controller.get_sector()
        } else if port == 0x13 {
            self.floppy_controller.get_data()
        } else if port == 0x14 {
            self.get_system_bits_k484()
        } else if port == 0x1c {
            if crtc_mode { self.crtc.read_port_1c() } else { self.system_bits }
        } else if port == 0x1d {
            if crtc_mode { self.crtc.read_port_1d() } else { 0xca }
        } else if port == 0x1e {
            if crtc_mode { self.crtc.read_port_1e() } else { 0xca }
        } else if port == 0x1f {
            if crtc_mode { self.crtc.read_port_1f() } else { 0xca }
        } else if port == 0x20 {
            self.rtc.read_addr()
        } else if port == 0x24 {
            self.rtc.read_data()
        } else {
            0xca
        }
    }
}

} // verus!
