//! Keys as a terminal that sends raw bytes reports them.
use vstd::prelude::*;

verus! {

/// A key press.
#[derive(Debug, Clone)]
pub enum KeyEventType {
    /// A printable ASCII byte.
    Common(u8),
    Up,
    Down,
    Right,
    Left,
    Enter,
    Tab,
    Backspace,
    Esc,
    /// Bytes that name no known key.
    Unknown(Vec<u8>),
}

/// What a key press is.
pub enum KeyModel {
    Common(u8),
    Up,
    Down,
    Right,
    Left,
    Enter,
    Tab,
    Backspace,
    Esc,
    Unknown(Seq<u8>),
}

impl View for KeyEventType {
    type V = KeyModel;

    open spec fn view(&self) -> KeyModel {
        match self {
            KeyEventType::Common(b) => KeyModel::Common(*b),
            KeyEventType::Up => KeyModel::Up,
            KeyEventType::Down => KeyModel::Down,
            KeyEventType::Right => KeyModel::Right,
            KeyEventType::Left => KeyModel::Left,
            KeyEventType::Enter => KeyModel::Enter,
            KeyEventType::Tab => KeyModel::Tab,
            KeyEventType::Backspace => KeyModel::Backspace,
            KeyEventType::Esc => KeyModel::Esc,
            KeyEventType::Unknown(v) => KeyModel::Unknown(v@),
        }
    }
}

/// The byte that starts the code of a cursor key.
pub const CTRL_PREFIX: u8 = 224;

/// The key a cursor key code (the bytes after the prefix) stands for.
pub open spec fn ctrl_key(b: Seq<u8>) -> KeyModel {
    if b == seq![72u8] {
        KeyModel::Up
    } else if b == seq![80u8] {
        KeyModel::Down
    } else if b == seq![75u8] {
        KeyModel::Left
    } else if b == seq![77u8] {
        KeyModel::Right
    } else {
        KeyModel::Unknown(b)
    }
}

/// The key the bytes `b` stand for.
pub open spec fn key_of(b: Seq<u8>) -> KeyModel {
    if b[0] == CTRL_PREFIX {
        ctrl_key(b.drop_first())
    } else if b == seq![10u8] {
        KeyModel::Enter
    } else if b == seq![9u8] {
        KeyModel::Tab
    } else if b == seq![0u8] {
        KeyModel::Esc
    } else if b == seq![8u8] {
        KeyModel::Backspace
    } else if b.len() == 1 && 32 <= b[0] <= 126 {
        KeyModel::Common(b[0])
    } else {
        KeyModel::Unknown(b)
    }
}

/// Reading keys from the terminal.
pub struct Input;

/// Turns the bytes of a key press into the key.
pub struct KeyCodeParser;

fn copy_from(bytes: &[u8], a: usize) -> (r: Vec<u8>)
    requires
        a <= bytes@.len(),
    ensures
        r@ == bytes@.subrange(a as int, bytes@.len() as int),
{
    let mut r: Vec<u8> = Vec::new();
    let n = bytes.len();
    let mut i = a;
    while i < n
        invariant
            n == bytes@.len(),
            a <= i <= n,
            r@ == bytes@.subrange(a as int, i as int),
        decreases n - i,
    {
        r.push(bytes[i]);
        i = i + 1;
        assert(r@ =~= bytes@.subrange(a as int, i as int));
    }
    r
}

fn is_one(bytes: &[u8], b: u8) -> (r: bool)
    ensures
        r == (bytes@ == seq![b]),
{
    if bytes.len() == 1 && bytes[0] == b {
        assert(bytes@ =~= seq![b]);
        true
    } else {
        false
    }
}

impl KeyCodeParser {
    /// The key the bytes of one key press stand for.
    pub fn parse(bytes: &[u8]) -> (r: KeyEventType)
        requires
            bytes@.len() >= 1,
        ensures
            r@ == key_of(bytes@),
    {
        if bytes[0] == CTRL_PREFIX {
            let rest = copy_from(bytes, 1);
            assert(rest@ =~= bytes@.drop_first());
            return Self::parse_ctrl(rest.as_slice());
        }
        if is_one(bytes, 10) {
            KeyEventType::Enter
        } else if is_one(bytes, 9) {
            KeyEventType::Tab
        } else if is_one(bytes, 0) {
            KeyEventType::Esc
        } else if is_one(bytes, 8) {
            KeyEventType::Backspace
        } else if bytes.len() == 1 && bytes[0] >= 32 && bytes[0] <= 126 {
            KeyEventType::Common(bytes[0])
        } else {
            let v = copy_from(bytes, 0);
            assert(v@ =~= bytes@);
            KeyEventType::Unknown(v)
        }
    }

    fn parse_ctrl(bytes: &[u8]) -> (r: KeyEventType)
        ensures
            r@ == ctrl_key(bytes@),
    {
        if is_one(bytes, 72) {
            KeyEventType::Up
        } else if is_one(bytes, 80) {
            KeyEventType::Down
        } else if is_one(bytes, 75) {
            KeyEventType::Left
        } else if is_one(bytes, 77) {
            KeyEventType::Right
        } else {
            let v = copy_from(bytes, 0);
            assert(v@ =~= bytes@);
            KeyEventType::Unknown(v)
        }
    }
}

} // verus!
