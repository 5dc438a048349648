//! What the 24x80 display shows: characters, their attributes and the cursor,
//! as read from video RAM. The host terminal draws it.

use vstd::prelude::*;
use crate::kaypro_machine::{KayproMachine, VideoMode};

verus! {

/// Width between the corners of the title line.
pub const TITLE_INNER_WIDTH: usize = 82;

/// Host character of a Kaypro character code: the 81-234 ROM's national
/// characters for codes below 0x20, a shaded block for 0x7F; bit 7 is ignored.
pub fn translate_char(code: u8) -> (r: char)
    ensures
        0x20 <= code % 128 < 0x7f ==> r == (code % 128) as char,
{
    let index = code % 128;
    if index < 0x20 {
        let table: [char; 32] = [
            'ñ', 'á', 'é', 'í', 'ó', 'ú', 'â', 'ê',
            'î', 'ô', 'û', '£', 'Ä', 'Ö', 'Ü', '¡',
            'Ñ', 'à', 'è', 'ì', 'ò', 'ù', 'ä', 'ë',
            'ï', 'ö', 'ü', 'º', '§', 'c', 'ß', '¿'];
        table[index as usize]
    } else if index == 0x7f {
        '▒'
    } else {
        index as char
    }
}

/// One character cell as displayed.
#[derive(Copy, Clone, PartialEq, Eq, Debug)]
pub struct Cell {
    pub code: u8,
    pub reverse: bool,
    pub dim: bool,
    pub blink: bool,
    pub underline: bool,
}

/// The display's frame and options.
pub struct Screen {
    pub in_place: bool,
    pub last_system_bits: u8,
    pub show_status: bool,
    pub show_help: bool,
    pub machine_name: String,
}

/// System bits whose change redraws the screen.
pub const SHOWN_SYSTEM_BITS: u8 = 0x63;

impl Screen {
    pub fn new(in_place: bool, machine_name: &str) -> (r: Screen)
        ensures
            r.in_place == in_place,
            r.machine_name@ == machine_name@,
            !r.show_status && !r.show_help,
    {
        Screen { in_place, last_system_bits: 0, show_status: false, show_help: false, machine_name: machine_name.to_owned() }
    }

    pub fn set_in_place(&mut self, in_place: bool)
        ensures
            *final(self) == (Screen { in_place, ..*old(self) }),
    {
        self.in_place = in_place;
    }

    /// Fill on the left and right of the machine name in the title line; a
    /// name that leaves less than four fill characters is not shown.
    pub fn title_padding(&self) -> (r: Option<(usize, usize)>)
        ensures
            self.machine_name@.len() + 4 >= TITLE_INNER_WIDTH ==> r.is_none(),
            self.machine_name@.len() + 4 < TITLE_INNER_WIDTH ==> r.is_some()
                && r.unwrap().0 + r.unwrap().1 + self.machine_name@.len() == TITLE_INNER_WIDTH
                && r.unwrap().0 == (TITLE_INNER_WIDTH - self.machine_name@.len()) / 2,
    {
        let len = self.machine_name.as_str().unicode_len();
        if len >= TITLE_INNER_WIDTH - 4 {
            None
        } else {
            let remaining = TITLE_INNER_WIDTH - len;
            let left = remaining / 2;
            Some((left, remaining - left))
        }
    }

    /// Whether the screen must be redrawn, and the system bits to remember.
    pub fn needs_update(&self, machine: &KayproMachine, force: bool) -> (r: bool)
        ensures
            r == (force || (if machine.video_mode == VideoMode::Sy6545Crtc {
                machine.crtc.vram_dirty
            } else {
                machine.vram_dirty
            }) || self.last_system_bits != machine.system_bits & SHOWN_SYSTEM_BITS),
    {
        let dirty = if machine.video_mode == VideoMode::Sy6545Crtc { machine.crtc.vram_dirty } else { machine.vram_dirty };
        force || dirty || self.last_system_bits != machine.system_bits & SHOWN_SYSTEM_BITS
    }
}

/// The cell at a row and column. On the CRTC, rows are 80 bytes from the
/// start address with a 2 KiB wrap, attributes come from the attribute plane
/// and the cursor shows in reverse unless its mode is invisible; in
/// memory-mapped video, rows are 128 bytes apart and bit 7 blinks.
pub fn screen_cell(machine: &KayproMachine, row: usize, col: usize) -> (r: Cell)
    requires
        machine.wf(),
        row < 24,
        col < 80,
    ensures
        machine.video_mode == VideoMode::Sy6545Crtc ==> {
            let addr = (machine.crtc.regs@[12] as int * 256 + machine.crtc.regs@[13] as int + row * 80 + col) % 2048;
            let cursor = (machine.crtc.regs@[14] as int * 256 + machine.crtc.regs@[15] as int) % 2048;
            let attr = machine.crtc.vram@[addr + 2048];
            &&& r.code == machine.crtc.vram@[addr]
            &&& r.reverse == (attr % 2 == 1 || (machine.crtc.regs@[10] / 32 % 4 != 1 && addr == cursor))
            &&& r.dim == ((attr / 2) % 2 == 1)
            &&& r.blink == ((attr / 4) % 2 == 1)
            &&& r.underline == ((attr / 8) % 2 == 1)
        },
        machine.video_mode == VideoMode::MemoryMapped ==> r.code == machine.vram@[row * 128 + col]
            && r.blink == (r.code >= 0x80) && !r.reverse && !r.dim && !r.underline,
{
    if machine.video_mode == VideoMode::Sy6545Crtc {
        let addr = (machine.crtc.start_addr() + row * 80 + col) % 2048;
        let cursor = machine.crtc.cursor_addr() % 2048;
        let at_cursor = machine.crtc.cursor_mode() != 1 && addr == cursor;
        let code = machine.crtc.get_vram(addr);
        let attr = machine.crtc.get_attr(addr);
        Cell {
            code,
            reverse: attr % 2 == 1 || at_cursor,
            dim: (attr / 2) % 2 == 1,
            blink: (attr / 4) % 2 == 1,
            underline: (attr / 8) % 2 == 1,
        }
    } else {
        let code = machine.vram[row * 128 + col];
        Cell { code, reverse: false, dim: false, blink: code >= 0x80, underline: false }
    }
}

} // verus!
