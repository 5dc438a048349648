//! Video-RAM self-tests after the Kaypro diagnostic disk (sliding data,
//! address data and fast complement), run on the CRTC's video RAM.

use vstd::prelude::*;
use crate::sy6545::Sy6545;
use crate::kaypro_machine::{KayproMachine, VideoMode};

verus! {

/// Outcome of one self-test.
pub struct TestResult {
    pub name: String,
    pub passed: bool,
    pub message: String,
}

fn hex_digit(d: u8) -> (r: &'static str)
    requires
        d < 16,
{
    if d == 0 { "0" } else if d == 1 { "1" } else if d == 2 { "2" } else if d == 3 { "3" }
    else if d == 4 { "4" } else if d == 5 { "5" } else if d == 6 { "6" } else if d == 7 { "7" }
    else if d == 8 { "8" } else if d == 9 { "9" } else if d == 10 { "A" } else if d == 11 { "B" }
    else if d == 12 { "C" } else if d == 13 { "D" } else if d == 14 { "E" } else { "F" }
}

/// `FAIL at 0xAAAA: expected 0xEE, got 0xGG`.
fn failure(name: &str, addr: usize, expected: u8, got: u8) -> (r: TestResult)
    ensures
        !r.passed,
{
    let a = (addr % 65536) as u16;
    let mut m = "FAIL at 0x".to_owned();
    m.append(hex_digit((a / 4096) as u8));
    m.append(hex_digit(((a / 256) % 16) as u8));
    m.append(hex_digit(((a / 16) % 16) as u8));
    m.append(hex_digit((a % 16) as u8));
    m.append(": expected 0x");
    m.append(hex_digit(expected / 16));
    m.append(hex_digit(expected % 16));
    m.append(", got 0x");
    m.append(hex_digit(got / 16));
    m.append(hex_digit(got % 16));
    TestResult { name: name.to_owned(), passed: false, message: m }
}

/// Writes `value(addr)` to every byte of `[start, end]` and reads it back;
/// returns the first address that reads otherwise.
fn fill_and_check(crtc: &mut Sy6545, start: usize, end: usize, pattern: u8, by_address: u8) -> (r: Option<(usize, u8, u8)>)
    requires
        old(crtc).wf(),
        start <= end < 4096,
        by_address <= 2,
    ensures
        final(crtc).wf(),
        r.is_none(),
        forall|i: int| 0 <= i < 4096 && !(start <= i <= end) ==> final(crtc).vram@[i] == old(crtc).vram@[i],
        *final(crtc) == (Sy6545 { vram: final(crtc).vram, ..*old(crtc) }),
{
    let mut addr = start;
    while addr <= end
        invariant
            crtc.wf(),
            start <= addr <= end + 1,
            end < 4096,
            by_address <= 2,
            forall|k: int| start <= k < addr ==> crtc.vram@[k] == (if by_address == 0 {
                pattern
            } else if by_address == 1 {
                (k % 256) as u8
            } else {
                ((k / 256) % 256) as u8
            }),
            forall|i: int| 0 <= i < 4096 && !(start <= i <= end) ==> crtc.vram@[i] == old(crtc).vram@[i],
            *crtc == (Sy6545 { vram: crtc.vram, ..*old(crtc) }),
        decreases end + 1 - addr,
    {
        let v = if by_address == 0 { pattern } else if by_address == 1 { (addr % 256) as u8 } else { ((addr / 256) % 256) as u8 };
        crtc.vram.set(addr, v);
        addr = addr + 1;
    }
    let mut addr = start;
    while addr <= end
        invariant
            crtc.wf(),
            start <= addr <= end + 1,
            end < 4096,
            forall|k: int| start <= k <= end ==> crtc.vram@[k] == (if by_address == 0 {
                pattern
            } else if by_address == 1 {
                (k % 256) as u8
            } else {
                ((k / 256) % 256) as u8
            }),
        decreases end + 1 - addr,
    {
        let expected = if by_address == 0 { pattern } else if by_address == 1 { (addr % 256) as u8 } else { ((addr / 256) % 256) as u8 };
        let read = crtc.vram[addr];
        if read != expected {
            return Some((addr, expected, read));
        }
        addr = addr + 1;
    }
    None
}

fn restore(crtc: &mut Sy6545, backup: &Vec<u8>)
    requires
        old(crtc).wf(),
        backup@.len() == 4096,
    ensures
        final(crtc).wf(),
        final(crtc).vram@ == backup@,
        *final(crtc) == (Sy6545 { vram: final(crtc).vram, ..*old(crtc) }),
{
    let mut i: usize = 0;
    while i < 4096
        invariant
            crtc.wf(),
            i <= 4096,
            backup@.len() == 4096,
            forall|k: int| 0 <= k < i ==> crtc.vram@[k] == backup@[k],
            *crtc == (Sy6545 { vram: crtc.vram, ..*old(crtc) }),
        decreases 4096 - i,
    {
        crtc.vram.set(i, backup[i]);
        i = i + 1;
    }
    assert(crtc.vram@ =~= backup@);
}

fn copy_vram(crtc: &Sy6545) -> (r: Vec<u8>)
    requires
        crtc.wf(),
    ensures
        r@ == crtc.vram@,
{
    let mut out: Vec<u8> = Vec::new();
    let mut i: usize = 0;
    while i < 4096
        invariant
            crtc.wf(),
            i <= 4096,
            out@ == crtc.vram@.subrange(0, i as int),
        decreases 4096 - i,
    {
        out.push(crtc.vram[i]);
        i = i + 1;
    }
    assert(out@ =~= crtc.vram@);
    out
}

/// Sliding-data test over the sixteen patterns on `[start, end]`.
fn sliding(crtc: &mut Sy6545, start: usize, end: usize) -> (r: Option<(usize, u8, u8)>)
    requires
        old(crtc).wf(),
        start <= end < 4096,
    ensures
        final(crtc).wf(),
        r.is_none(),
        *final(crtc) == (Sy6545 { vram: final(crtc).vram, ..*old(crtc) }),
{
    let patterns: [u8; 16] = [0x01, 0x02, 0x04, 0x08, 0x10, 0x20, 0x40, 0x80, 0xFE, 0xFD, 0xFB, 0xF7, 0xEF, 0xDF, 0xBF, 0x7F];
    let mut k: usize = 0;
    while k < 16
        invariant
            crtc.wf(),
            k <= 16,
            start <= end < 4096,
            *crtc == (Sy6545 { vram: crtc.vram, ..*old(crtc) }),
        decreases 16 - k,
    {
        if let Some(f) = fill_and_check(crtc, start, end, patterns[k], 0) {
            return Some(f);
        }
        k = k + 1;
    }
    None
}

/// Character-plane test (0x000-0x7FF): sliding data, then the low and the
/// high byte of each address as data. Video RAM is restored afterwards.
pub fn test_vram(crtc: &mut Sy6545) -> (r: TestResult)
    requires
        old(crtc).wf(),
    ensures
        final(crtc).wf(),
        r.passed,
        r.name@ == "VRAM"@,
        r.message@ == "OK (0x0000-0x07FF)"@,
        final(crtc).vram@ == old(crtc).vram@,
        *final(crtc) == (Sy6545 { vram: final(crtc).vram, ..*old(crtc) }),
{
    let backup = copy_vram(crtc);
    let mut result: Option<(usize, u8, u8)> = sliding(crtc, 0x000, 0x7FF);
    let mut name = "VRAM (sliding)";
    if result.is_none() {
        result = fill_and_check(crtc, 0x000, 0x7FF, 0, 1);
        name = "VRAM (addr-lo)";
    }
    if result.is_none() {
        result = fill_and_check(crtc, 0x000, 0x7FF, 0, 2);
        name = "VRAM (addr-hi)";
    }
    restore(crtc, &backup);
    match result {
        Some((addr, expected, got)) => failure(name, addr, expected, got),
        None => TestResult { name: "VRAM".to_owned(), passed: true, message: "OK (0x0000-0x07FF)".to_owned() },
    }
}

/// Writes a byte through the transparent-addressing protocol: R18 and R19
/// take the address, R31 is selected, port 0x1F writes.
fn crtc_write(crtc: &mut Sy6545, addr: u16, value: u8)
    requires
        old(crtc).wf(),
        addr < 0x800,
    ensures
        final(crtc).wf(),
        final(crtc).vram@ == old(crtc).vram@.update(addr as int, value),
        final(crtc).reg_index == 31,
        final(crtc).vram_dirty,
        final(crtc).update_ready,
        final(crtc).cycle_counter == old(crtc).cycle_counter,
        final(crtc).vertical_retrace == old(crtc).vertical_retrace,
        forall|i: int| 0 <= i < 18 ==> final(crtc).regs@[i] == old(crtc).regs@[i],
{
    crtc.write_port_1c(0x12);
    crtc.write_port_1d((addr / 256) as u8);
    crtc.write_port_1c(0x13);
    crtc.write_port_1d((addr % 256) as u8);
    crtc.write_port_1c(0x1F);
    crtc.write_port_1f(value);
}

/// Reads a byte through the transparent-addressing protocol.
fn crtc_read(crtc: &mut Sy6545, addr: u16) -> (r: u8)
    requires
        old(crtc).wf(),
        addr < 0x800,
    ensures
        final(crtc).wf(),
        r == old(crtc).vram@[addr as int],
        final(crtc).vram == old(crtc).vram,
        final(crtc).reg_index == 31,
        final(crtc).vram_dirty == old(crtc).vram_dirty,
        final(crtc).update_ready,
        final(crtc).cycle_counter == old(crtc).cycle_counter,
        final(crtc).vertical_retrace == old(crtc).vertical_retrace,
        forall|i: int| 0 <= i < 18 ==> final(crtc).regs@[i] == old(crtc).regs@[i],
{
    crtc.write_port_1c(0x12);
    crtc.write_port_1d((addr / 256) as u8);
    crtc.write_port_1c(0x13);
    crtc.write_port_1d((addr % 256) as u8);
    crtc.write_port_1c(0x1F);
    crtc.read_port_1f()
}

/// Video RAM through the ports: a pattern at a few addresses, then at every
/// sixteenth address of the character plane. Video RAM is restored afterwards.
pub fn test_vram_via_ports(crtc: &mut Sy6545) -> (r: TestResult)
    requires
        old(crtc).wf(),
    ensures
        final(crtc).wf(),
        r.passed,
        r.name@ == "VRAM via ports"@,
        r.message@ == "OK (0x0000-0x07FF)"@,
        final(crtc).vram@ == old(crtc).vram@,
        final(crtc).reg_index == 31,
        final(crtc).vram_dirty,
        final(crtc).update_ready,
        final(crtc).cycle_counter == old(crtc).cycle_counter,
        final(crtc).vertical_retrace == old(crtc).vertical_retrace,
        forall|i: int| 0 <= i < 18 ==> final(crtc).regs@[i] == old(crtc).regs@[i],
{
    let backup = copy_vram(crtc);
    let addrs: [u16; 5] = [0x000, 0x001, 0x100, 0x200, 0x7FF];
    let mut i: usize = 0;
    while i < 5
        invariant
            crtc.wf(),
            i <= 5,
            backup@ == old(crtc).vram@,
            addrs@ == seq![0x000u16, 0x001, 0x100, 0x200, 0x7FF],
            i > 0 ==> crtc.reg_index == 31 && crtc.vram_dirty && crtc.update_ready,
            crtc.cycle_counter == old(crtc).cycle_counter,
            crtc.vertical_retrace == old(crtc).vertical_retrace,
            forall|k: int| 0 <= k < 18 ==> crtc.regs@[k] == old(crtc).regs@[k],
        decreases 5 - i,
    {
        let a = addrs[i];
        crtc_write(crtc, a, 0xA5);
        let read = crtc_read(crtc, a);
        if read != 0xA5 {
            restore(crtc, &backup);
            return failure("VRAM via ports", a as usize, 0xA5, read);
        }
        i = i + 1;
    }
    let mut a: u16 = 0;
    while a <= 0x7FF
        invariant
            crtc.wf(),
            backup@ == old(crtc).vram@,
            crtc.reg_index == 31 && crtc.vram_dirty && crtc.update_ready,
            crtc.cycle_counter == old(crtc).cycle_counter,
            crtc.vertical_retrace == old(crtc).vertical_retrace,
            forall|k: int| 0 <= k < 18 ==> crtc.regs@[k] == old(crtc).regs@[k],
            a <= 0x800,
            a % 16 == 0,
        decreases 0x800 - a,
    {
        crtc_write(crtc, a, 0x55);
        let read = crtc_read(crtc, a);
        if read != 0x55 {
            restore(crtc, &backup);
            return failure("VRAM via ports", a as usize, 0x55, read);
        }
        a = a + 16;
    }
    restore(crtc, &backup);
    TestResult { name: "VRAM via ports".to_owned(), passed: true, message: "OK (0x0000-0x07FF)".to_owned() }
}

/// Attribute-plane test (0x800-0xFFF): complement each byte and back, then
/// sliding data. Video RAM is restored afterwards.
pub fn test_attr_ram(crtc: &mut Sy6545) -> (r: TestResult)
    requires
        old(crtc).wf(),
    ensures
        final(crtc).wf(),
        r.passed,
        r.name@ == "Attribute RAM"@,
        r.message@ == "OK (0x0800-0x0FFF)"@,
        final(crtc).vram@ == old(crtc).vram@,
        *final(crtc) == (Sy6545 { vram: final(crtc).vram, ..*old(crtc) }),
{
    let backup = copy_vram(crtc);
    let mut addr: usize = 0x800;
    while addr <= 0xFFF
        invariant
            crtc.wf(),
            0x800 <= addr <= 0x1000,
            *crtc == (Sy6545 { vram: crtc.vram, ..*old(crtc) }),
        decreases 0x1000 - addr,
    {
        let saved = crtc.vram[addr];
        let complement = 255 - saved;
        crtc.vram.set(addr, complement);
        let read = crtc.vram[addr];
        if read != complement {
            restore(crtc, &backup);
            return failure("Attribute RAM", addr, complement, read);
        }
        crtc.vram.set(addr, saved);
        addr = addr + 1;
    }
    let result = sliding(crtc, 0x800, 0xFFF);
    restore(crtc, &backup);
    match result {
        Some((a, expected, got)) => failure("Attribute RAM (sliding)", a, expected, got),
        None => TestResult { name: "Attribute RAM".to_owned(), passed: true, message: "OK (0x0800-0x0FFF)".to_owned() },
    }
}

/// Which CP/M prompts count as booted.
#[derive(Clone, Copy, PartialEq, Eq, Structural, Debug)]
pub enum PromptMode {
    /// `A>`, `B>`, or a drive letter, a user number digit and `>`.
    AnyDrivePrompt,
    /// `A0>` only.
    StrictA0,
}

/// Character at position `i` of the screen memory, bit 7 dropped: the CRTC's
/// character plane wraps at 2 KiB.
pub open spec fn screen_char(m: &KayproMachine, i: int) -> u8 {
    if m.video_mode == VideoMode::Sy6545Crtc {
        m.crtc.vram@[i % 2048] % 128
    } else {
        m.vram@[i] % 128
    }
}

/// Positions at which a prompt may start.
pub open spec fn prompt_positions(m: &KayproMachine) -> int {
    if m.video_mode == VideoMode::Sy6545Crtc { 2048 } else { 4094 }
}

/// The prompt that starts at position `i`, if one does.
pub open spec fn prompt_at(m: &KayproMachine, mode: PromptMode, i: int) -> Option<Seq<u8>> {
    let c0 = screen_char(m, i);
    let c1 = screen_char(m, i + 1);
    let c2 = screen_char(m, i + 2);
    if mode == PromptMode::StrictA0 {
        if c0 == 0x41 && c1 == 0x30 && c2 == 0x3E { Some(seq![0x41u8, 0x30, 0x3E]) } else { None }
    } else if (c0 == 0x41 || c0 == 0x42) && c1 == 0x3E {
        Some(seq![c0, 0x3Eu8])
    } else if (c0 == 0x41 || c0 == 0x42) && 0x30 <= c1 <= 0x39 && c2 == 0x3E {
        Some(seq![c0, c1, 0x3Eu8])
    } else {
        None
    }
}

fn screen_char_exec(m: &KayproMachine, i: usize) -> (r: u8)
    requires
        m.wf(),
        m.video_mode != VideoMode::Sy6545Crtc ==> i < 4096,
    ensures
        r == screen_char(m, i as int),
{
    if m.video_mode == VideoMode::Sy6545Crtc {
        m.crtc.get_vram(i) % 128
    } else {
        m.vram[i] % 128
    }
}

/// The first CP/M prompt on the screen, if any.
pub fn check_for_prompt(m: &KayproMachine, mode: PromptMode) -> (r: Option<Vec<u8>>)
    requires
        m.wf(),
    ensures
        r.is_none() ==> forall|i: int| 0 <= i < prompt_positions(m) ==> prompt_at(m, mode, i).is_none(),
        r.is_some() ==> exists|i: int| 0 <= i < prompt_positions(m) && prompt_at(m, mode, i) == Some(r.unwrap()@),
{
    let n: usize = if m.video_mode == VideoMode::Sy6545Crtc { 2048 } else { 4094 };
    let mut i: usize = 0;
    while i < n
        invariant
            m.wf(),
            i <= n,
            n == prompt_positions(m),
            forall|k: int| 0 <= k < i ==> prompt_at(m, mode, k).is_none(),
        decreases n - i,
    {
        let c0 = screen_char_exec(m, i);
        let c1 = screen_char_exec(m, i + 1);
        let c2 = screen_char_exec(m, i + 2);
        let found: Option<Vec<u8>> = if mode == PromptMode::StrictA0 {
            if c0 == 0x41 && c1 == 0x30 && c2 == 0x3E { Some(vec![0x41u8, 0x30, 0x3E]) } else { None }
        } else if (c0 == 0x41 || c0 == 0x42) && c1 == 0x3E {
            Some(vec![c0, 0x3E])
        } else if (c0 == 0x41 || c0 == 0x42) && 0x30 <= c1 && c1 <= 0x39 && c2 == 0x3E {
            Some(vec![c0, c1, 0x3E])
        } else {
            None
        };
        if let Some(p) = found {
            assert(prompt_at(m, mode, i as int) == Some(p@));
            return Some(p);
        }
        i = i + 1;
    }
    None
}

} // verus!
