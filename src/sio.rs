//! Z80-SIO channel A (the serial port) and the 8116 baud-rate generator.
//!
//! The host side runs outside: it pushes received bytes into `rx_fifo`, sets
//! `now_us` to its clock, sends the bytes left in `tx_out`, and applies the
//! modem-line and break changes that the channel flags.

use vstd::prelude::*;

verus! {

/// Depth of the real SIO receive FIFO.
pub const RX_FIFO_CAPACITY: usize = 3;

pub open spec fn baud_of(code: u8) -> u32 {
    let c = code % 16;
    if c == 0 { 50 } else if c == 1 { 75 } else if c == 2 { 110 } else if c == 3 { 135 }
    else if c == 4 { 150 } else if c == 5 { 300 } else if c == 6 { 600 } else if c == 7 { 1200 }
    else if c == 8 { 1800 } else if c == 9 { 2000 } else if c == 10 { 2400 } else if c == 11 { 3600 }
    else if c == 12 { 4800 } else if c == 13 { 7200 } else if c == 14 { 9600 } else { 19200 }
}

/// Rate of a baud-rate generator code (its low nibble).
pub fn decode_baud_rate(code: u8) -> (r: u32)
    ensures
        r == baud_of(code),
{
    let c = code % 16;
    if c == 0 { 50 } else if c == 1 { 75 } else if c == 2 { 110 } else if c == 3 { 135 }
    else if c == 4 { 150 } else if c == 5 { 300 } else if c == 6 { 600 } else if c == 7 { 1200 }
    else if c == 8 { 1800 } else if c == 9 { 2000 } else if c == 10 { 2400 } else if c == 11 { 3600 }
    else if c == 12 { 4800 } else if c == 13 { 7200 } else if c == 14 { 9600 } else { 19200 }
}

/// Tenths of bits in a character: start bit, data bits (WR5 bits 6:5),
/// parity (WR4 bit 0) and stop bits (WR4 bits 3:2, none in sync mode).
pub open spec fn char_tenths(wr4: u8, wr5: u8) -> nat {
    let dc = (wr5 / 32) % 4;
    let data: nat = if dc == 0 { 5 } else if dc == 1 { 7 } else if dc == 2 { 6 } else { 8 };
    let parity: nat = if wr4 % 2 == 1 { 1 } else { 0 };
    let sc = (wr4 / 4) % 4;
    let stop: nat = if sc == 0 { 0 } else if sc == 1 { 10 } else if sc == 2 { 15 } else { 20 };
    (1 + data + parity) * 10 + stop
}

pub struct Sio {
    /// WR0-WR5.
    pub wr: Vec<u8>,
    /// Register the next control write goes to.
    pub reg_pointer: u8,
    /// Received bytes, oldest first.
    pub rx_fifo: Vec<u8>,
    /// Receive overrun, latched until an Error Reset.
    pub rx_overrun: bool,
    /// Host clock in microseconds.
    pub now_us: u64,
    /// When the transmitter is empty again.
    pub tx_ready_at_us: u64,
    /// Bytes sent by the program, for the host to transmit.
    pub tx_out: Vec<u8>,
    /// A host device is attached.
    pub connected: bool,
    pub baud_rate_code: u8,
    pub baud_rate: u32,
    /// RTS or DTR changed since the host last applied the modem lines.
    pub modem_lines_changed: bool,
    /// The send-break bit changed to this value.
    pub break_change: Option<bool>,
}

impl Sio {
    pub open spec fn wf(&self) -> bool {
        self.wr@.len() == 6
    }

    pub fn new() -> (r: Sio)
        ensures
            r.wf(),
            r.reg_pointer == 0,
            r.rx_fifo@.len() == 0,
            !r.rx_overrun,
            r.baud_rate_code == 0x0E,
            r.baud_rate == 9600,
            !r.connected,
    {
        Sio {
            wr: vec![0u8; 6],
            reg_pointer: 0,
            rx_fifo: Vec::new(),
            rx_overrun: false,
            now_us: 0,
            tx_ready_at_us: 0,
            tx_out: Vec::new(),
            connected: false,
            baud_rate_code: 0x0E,
            baud_rate: 9600,
            modem_lines_changed: false,
            break_change: None,
        }
    }

    /// A byte arrived from the host device.
    pub fn push_received(&mut self, value: u8)
        ensures
            final(self).rx_fifo@ == old(self).rx_fifo@.push(value),
            *final(self) == (Sio { rx_fifo: final(self).rx_fifo, ..*old(self) }),
    {
        self.rx_fifo.push(value);
    }

    fn channel_reset(&mut self)
        ensures
            final(self).wf(),
            forall|i: int| 0 <= i < 6 ==> final(self).wr@[i] == 0,
            final(self).reg_pointer == 0,
            !final(self).rx_overrun,
            final(self).rx_fifo@.len() == 0,
            final(self).tx_ready_at_us == old(self).now_us,
            final(self).baud_rate == old(self).baud_rate,
            final(self).connected == old(self).connected,
    {
        self.wr = vec![0u8; 6];
        self.reg_pointer = 0;
        self.rx_overrun = false;
        self.rx_fifo = Vec::new();
        self.tx_ready_at_us = self.now_us;
    }

    /// Control port write: WR0 sets the pointer and runs a command; a write to
    /// the pointed register sets it and returns the pointer to WR0.
    pub fn write_control(&mut self, value: u8)
        requires
            old(self).wf(),
        ensures
            final(self).wf(),
            old(self).reg_pointer == 0 && (value / 8) % 8 == 3 ==> final(self).reg_pointer == 0
                && !final(self).rx_overrun && final(self).rx_fifo@.len() == 0,
            old(self).reg_pointer == 0 && (value / 8) % 8 != 3 ==> final(self).reg_pointer == value % 8
                && final(self).wr == old(self).wr,
            old(self).reg_pointer == 0 && (value / 8) % 8 == 6 ==> !final(self).rx_overrun,
            old(self).reg_pointer == 0 && (value / 8) % 8 != 3 && (value / 8) % 8 != 6 ==>
                final(self).rx_overrun == old(self).rx_overrun,
            old(self).reg_pointer != 0 ==> final(self).reg_pointer == 0 && final(self).rx_overrun == old(self).rx_overrun
                && final(self).rx_fifo == old(self).rx_fifo,
            (old(self).reg_pointer == 1 || old(self).reg_pointer == 3 || old(self).reg_pointer == 4
                || old(self).reg_pointer == 5) ==> final(self).wr@ == old(self).wr@.update(old(self).reg_pointer as int, value),
            old(self).reg_pointer == 5 ==> final(self).modem_lines_changed == (old(self).modem_lines_changed
                || (value / 128 != old(self).wr@[5] / 128) || ((value / 2) % 2 != (old(self).wr@[5] / 2) % 2)),
            old(self).reg_pointer == 5 && (value / 16) % 2 != (old(self).wr@[5] / 16) % 2 ==>
                final(self).break_change == Some((value / 16) % 2 == 1),
    {
        let reg = self.reg_pointer;
        if reg == 0 {
            self.reg_pointer = value % 8;
            let cmd = (value / 8) % 8;
            if cmd == 3 {
                self.channel_reset();
            } else if cmd == 6 {
                self.rx_overrun = false;
            }
        } else if reg == 1 || reg == 3 || reg == 4 {
            self.wr.set(reg as usize, value);
            self.reg_pointer = 0;
        } else if reg == 5 {
            let old_wr5 = self.wr[5];
            self.wr.set(5, value);
            self.reg_pointer = 0;
            let old_break = (old_wr5 / 16) % 2;
            let new_break = (value / 16) % 2;
            if new_break != old_break {
                self.break_change = Some(new_break == 1);
            }
            if value / 128 != old_wr5 / 128 || (value / 2) % 2 != (old_wr5 / 2) % 2 {
                self.modem_lines_changed = true;
            }
        } else {
            self.reg_pointer = 0;
        }
    }

    /// RR0: Rx available (bit 0), Tx empty (bit 2), DCD and CTS (bits 3, 5)
    /// while a device is attached.
    pub open spec fn rr0(&self) -> u8 {
        ((if self.rx_fifo@.len() > 0 { 1int } else { 0int })
            + (if self.now_us >= self.tx_ready_at_us { 4int } else { 0int })
            + (if self.connected { 0x28int } else { 0int })) as u8
    }

    /// RR1: all sent (bit 0), Rx overrun (bit 5).
    pub open spec fn rr1(&self) -> u8 {
        ((if self.now_us >= self.tx_ready_at_us { 1int } else { 0int })
            + (if self.rx_overrun { 0x20int } else { 0int })) as u8
    }

    /// Control port read: RR0 or RR1 per the pointer (0 for others); the
    /// pointer returns to WR0.
    pub fn read_control(&mut self) -> (r: u8)
        ensures
            r == if old(self).reg_pointer == 0 {
                old(self).rr0()
            } else if old(self).reg_pointer == 1 {
                old(self).rr1()
            } else {
                0
            },
            *final(self) == (Sio { reg_pointer: 0, ..*old(self) }),
    {
        let reg = self.reg_pointer;
        self.reg_pointer = 0;
        if reg == 0 {
            let mut s: u8 = 0;
            if self.rx_fifo.len() > 0 {
                s = s + 1;
            }
            if self.now_us >= self.tx_ready_at_us {
                s = s + 4;
            }
            if self.connected {
                s = s + 0x28;
            }
            s
        } else if reg == 1 {
            let mut s: u8 = 0;
            if self.now_us >= self.tx_ready_at_us {
                s = s + 1;
            }
            if self.rx_overrun {
                s = s + 0x20;
            }
            s
        } else {
            0
        }
    }

    /// Microseconds to send one character at the current settings.
    pub fn character_time_us(&self) -> (r: u64)
        requires
            self.wf(),
        ensures
            self.baud_rate == 0 ==> r == 0,
            self.baud_rate != 0 ==> r == char_tenths(self.wr@[4], self.wr@[5]) * 100000 / (self.baud_rate as nat),
    {
        if self.baud_rate == 0 {
            return 0;
        }
        let dc = (self.wr[5] / 32) % 4;
        let data: u64 = if dc == 0 { 5 } else if dc == 1 { 7 } else if dc == 2 { 6 } else { 8 };
        let parity: u64 = if self.wr[4] % 2 == 1 { 1 } else { 0 };
        let sc = (self.wr[4] / 4) % 4;
        let stop: u64 = if sc == 0 { 0 } else if sc == 1 { 10 } else if sc == 2 { 15 } else { 20 };
        let tenths = (1 + data + parity) * 10 + stop;
        tenths * 100000 / self.baud_rate as u64
    }

    /// Data port write: the byte is queued for the host and the transmitter
    /// is busy for one character time.
    pub fn write_data(&mut self, value: u8)
        requires
            old(self).wf(),
        ensures
            final(self).wf(),
            final(self).tx_out@ == old(self).tx_out@.push(value),
            final(self).tx_ready_at_us == (if old(self).baud_rate == 0 { 0 } else {
                char_tenths(old(self).wr@[4], old(self).wr@[5]) * 100000 / (old(self).baud_rate as nat)
            }) + old(self).now_us || final(self).tx_ready_at_us == u64::MAX,
            *final(self) == (Sio { tx_out: final(self).tx_out, tx_ready_at_us: final(self).tx_ready_at_us, ..*old(self) }),
    {
        let t = self.character_time_us();
        self.tx_ready_at_us = self.now_us.saturating_add(t);
        self.tx_out.push(value);
    }

    /// Data port read: the oldest received byte, 0 when none. More than the
    /// hardware FIFO's three bytes waiting latches an overrun.
    pub fn read_data(&mut self) -> (r: u8)
        ensures
            old(self).rx_fifo@.len() > 0 ==> r == old(self).rx_fifo@[0] && final(self).rx_fifo@ == old(self).rx_fifo@.drop_first(),
            old(self).rx_fifo@.len() == 0 ==> r == 0 && final(self).rx_fifo@.len() == 0,
            final(self).rx_overrun == (old(self).rx_overrun || old(self).rx_fifo@.len() > RX_FIFO_CAPACITY),
            *final(self) == (Sio { rx_fifo: final(self).rx_fifo, rx_overrun: final(self).rx_overrun, ..*old(self) }),
    {
        if self.rx_fifo.len() > RX_FIFO_CAPACITY {
            self.rx_overrun = true;
        }
        if self.rx_fifo.len() > 0 {
            self.rx_fifo.remove(0)
        } else {
            0
        }
    }

    /// Baud-rate generator write (low nibble).
    pub fn set_baud_rate_code(&mut self, code: u8)
        ensures
            *final(self) == (Sio { baud_rate_code: code % 16, baud_rate: baud_of(code), ..*old(self) }),
    {
        self.baud_rate_code = code % 16;
        self.baud_rate = decode_baud_rate(code);
    }

    pub fn is_connected(&self) -> (r: bool)
        ensures
            r == self.connected,
    {
        self.connected
    }
}

} // verus!
