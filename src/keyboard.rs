//! Decoding of host terminal input into Kaypro key codes and emulator
//! commands (function keys).

use vstd::prelude::*;

verus! {

/// Emulator commands bound to function keys.
#[derive(Copy, Clone, PartialEq, Eq, Structural, Debug)]
pub enum Command {
    Help,
    Quit,
    SelectDiskA,
    SelectDiskB,
    ShowStatus,
    TraceCPU,
    SaveMemory,
    SetSpeed,
}

/// What an escape sequence stands for.
#[derive(Copy, Clone, PartialEq, Eq, Structural, Debug)]
pub enum EscapeAction {
    Key(u8),
    Run(Command),
    Nothing,
}

/// Kaypro code of a plain host byte: DEL becomes backspace, the top bit is dropped.
pub open spec fn plain_key(b: u8) -> u8 {
    if b == 0x7f { 0x08 } else { b % 128 }
}

fn is2(s: &Vec<u8>, a: u8, b: u8) -> (r: bool)
    ensures
        r == (s@ == seq![a, b]),
{
    let r = s.len() == 2 && s[0] == a && s[1] == b;
    proof {
        if s@.len() == 2 && s@[0] == a && s@[1] == b {
            assert(s@ =~= seq![a, b]);
        }
    }
    r
}

fn is4(s: &Vec<u8>, a: u8, b: u8, c: u8, d: u8) -> (r: bool)
    ensures
        r == (s@ == seq![a, b, c, d]),
{
    let r = s.len() == 4 && s[0] == a && s[1] == b && s[2] == c && s[3] == d;
    proof {
        if s@.len() == 4 && s@[0] == a && s@[1] == b && s@[2] == c && s@[3] == d {
            assert(s@ =~= seq![a, b, c, d]);
        }
    }
    r
}

fn is3(s: &Vec<u8>, a: u8, b: u8, c: u8) -> (r: bool)
    ensures
        r == (s@ == seq![a, b, c]),
{
    let r = s.len() == 3 && s[0] == a && s[1] == b && s[2] == c;
    proof {
        if s@.len() == 3 && s@[0] == a && s@[1] == b && s@[2] == c {
            assert(s@ =~= seq![a, b, c]);
        }
    }
    r
}

/// Meaning of the bytes after ESC: function keys F1, F2, F4-F9 in their
/// Linux and macOS forms, Delete (DEL), Insert (line feed) and the arrows
/// (the BIOS's cursor codes 0xF1-0xF4).
pub fn escape_action(s: &Vec<u8>) -> (r: EscapeAction)
    ensures
        s@ == seq![0x4Fu8, 0x50u8] ==> r == EscapeAction::Run(Command::Help),
        s@ == seq![0x4Fu8, 0x53u8] ==> r == EscapeAction::Run(Command::Quit),
        s@ == seq![0x5Bu8, 0x41u8] ==> r == EscapeAction::Key(0xf1),
        s@ == seq![0x5Bu8, 0x33u8, 0x7Eu8] ==> r == EscapeAction::Key(0x7f),
        s@.len() == 1 ==> r == EscapeAction::Nothing,
{
    if is2(s, 0x4F, 0x50) || is2(s, 0x4F, 0x70) {
        EscapeAction::Run(Command::Help)
    } else if is2(s, 0x4F, 0x51) || is2(s, 0x4F, 0x71) {
        EscapeAction::Run(Command::ShowStatus)
    } else if is2(s, 0x4F, 0x53) || is2(s, 0x4F, 0x73) {
        EscapeAction::Run(Command::Quit)
    } else if is4(s, 0x5B, 0x31, 0x35, 0x7E) || is2(s, 0x4F, 0x74) {
        EscapeAction::Run(Command::SelectDiskA)
    } else if is4(s, 0x5B, 0x31, 0x37, 0x7E) || is2(s, 0x4F, 0x75) {
        EscapeAction::Run(Command::SelectDiskB)
    } else if is4(s, 0x5B, 0x31, 0x38, 0x7E) || is2(s, 0x4F, 0x76) {
        EscapeAction::Run(Command::SaveMemory)
    } else if is4(s, 0x5B, 0x31, 0x39, 0x7E) || is2(s, 0x4F, 0x6C) {
        EscapeAction::Run(Command::TraceCPU)
    } else if is4(s, 0x5B, 0x32, 0x30, 0x7E) || is2(s, 0x4F, 0x77) {
        EscapeAction::Run(Command::SetSpeed)
    } else if is3(s, 0x5B, 0x33, 0x7E) {
        EscapeAction::Key(0x7f)
    } else if is3(s, 0x5B, 0x32, 0x7E) {
        EscapeAction::Key(0x0a)
    } else if is2(s, 0x5B, 0x41) {
        EscapeAction::Key(0xf1)
    } else if is2(s, 0x5B, 0x42) {
        EscapeAction::Key(0xf2)
    } else if is2(s, 0x5B, 0x43) {
        EscapeAction::Key(0xf4)
    } else if is2(s, 0x5B, 0x44) {
        EscapeAction::Key(0xf3)
    } else {
        EscapeAction::Nothing
    }
}

/// Keys and commands decoded from a chunk of terminal input.
pub struct DecodedInput {
    pub keys: Vec<u8>,
    pub commands: Vec<Command>,
}

/// Decodes terminal input: escape sequences (ESC, a byte, parameter and
/// intermediate bytes, a final byte), the Spanish ñ and Ñ (on the : and ;
/// keys), and plain bytes.
pub fn decode_input(input: &[u8]) -> (r: DecodedInput)
    ensures
        (forall|i: int| 0 <= i < input@.len() ==> input@[i] != 0x1b && input@[i] != 0xc3) ==>
            r.keys@ == Seq::new(input@.len(), |i: int| plain_key(input@[i])) && r.commands@.len() == 0,
{
    let mut keys: Vec<u8> = Vec::new();
    let mut commands: Vec<Command> = Vec::new();
    let n = input.len();
    let mut i: usize = 0;
    let ghost plain = forall|k: int| 0 <= k < input@.len() ==> input@[k] != 0x1b && input@[k] != 0xc3;
    while i < n
        invariant
            n == input@.len(),
            i <= n,
            plain ==> keys@ == Seq::new(i as nat, |k: int| plain_key(input@[k])) && commands@.len() == 0,
            plain == forall|k: int| 0 <= k < input@.len() ==> input@[k] != 0x1b && input@[k] != 0xc3,
        decreases n - i,
    {
        if n - i > 2 && input[i] == 0x1b {
            let mut s: Vec<u8> = Vec::new();
            s.push(input[i + 1]);
            let mut j = i + 2;
            while j < n && (input[j] / 16 == 2 || input[j] / 16 == 3)
                invariant
                    i + 2 <= j <= n,
                    n == input@.len(),
                decreases n - j,
            {
                s.push(input[j]);
                j = j + 1;
            }
            if j < n {
                s.push(input[j]);
                j = j + 1;
            }
            match escape_action(&s) {
                EscapeAction::Key(k) => keys.push(k),
                EscapeAction::Run(c) => commands.push(c),
                EscapeAction::Nothing => {},
            }
            i = j;
        } else if n - i >= 2 && input[i] == 0xc3 && input[i + 1] == 0xb1 {
            keys.push(0x3a);
            i = i + 2;
        } else if n - i >= 2 && input[i] == 0xc3 && input[i + 1] == 0x91 {
            keys.push(0x3b);
            i = i + 2;
        } else {
            let b = input[i];
            let k = if b == 0x7f { 0x08 } else { b % 128 };
            keys.push(k);
            proof {
                if plain {
                    assert(keys@ =~= Seq::new((i + 1) as nat, |q: int| plain_key(input@[q])));
                }
            }
            i = i + 1;
        }
    }
    DecodedInput { keys, commands }
}

} // verus!
