//! Key presses as plain values, and the moves that lists make on them.
use vstd::prelude::*;

verus! {

/// A key.
#[derive(Clone, Copy, Debug, PartialEq, Eq, Structural)]
pub enum KeyCode {
    Char(char),
    Enter,
    Esc,
    Backspace,
    Delete,
    Tab,
    BackTab,
    Up,
    Down,
    Left,
    Right,
    Home,
    End,
    PageUp,
    PageDown,
    /// Any other key.
    Other,
}

/// A key press with the modifiers that are held.
#[derive(Clone, Copy, Debug, PartialEq, Eq, Structural)]
pub struct KeyEvent {
    pub code: KeyCode,
    pub shift: bool,
    pub control: bool,
    pub alt: bool,
}

impl KeyEvent {
    /// A key press without modifiers.
    pub fn plain(code: KeyCode) -> (r: KeyEvent)
        ensures
            r == (KeyEvent { code, shift: false, control: false, alt: false }),
    {
        KeyEvent { code, shift: false, control: false, alt: false }
    }
}

/// `↑` or `k`.
pub open spec fn is_up(k: KeyCode) -> bool {
    k == KeyCode::Up || k == KeyCode::Char('k')
}

/// `↓` or `j`.
pub open spec fn is_down(k: KeyCode) -> bool {
    k == KeyCode::Down || k == KeyCode::Char('j')
}

/// `Enter` or `e`.
pub open spec fn is_go(k: KeyCode) -> bool {
    k == KeyCode::Enter || k == KeyCode::Char('e')
}

/// The letter `c` in lower case, or the same letter `d` in upper case.
pub open spec fn is_letter(k: KeyCode, c: char, d: char) -> bool {
    k == KeyCode::Char(c) || k == KeyCode::Char(d)
}

/// `t` or `e`, in either case.
pub open spec fn is_edit(k: KeyCode) -> bool {
    is_letter(k, 't', 'T') || is_letter(k, 'e', 'E')
}

/// A decimal digit.
pub open spec fn is_digit_key(k: KeyCode) -> bool {
    k is Char && crate::text::is_digit(k->Char_0)
}

/// Whether the key moves up.
pub fn key_up(k: KeyCode) -> (r: bool)
    ensures
        r == is_up(k),
{
    k == KeyCode::Up || k == KeyCode::Char('k')
}

/// Whether the key moves down.
pub fn key_down(k: KeyCode) -> (r: bool)
    ensures
        r == is_down(k),
{
    k == KeyCode::Down || k == KeyCode::Char('j')
}

/// Whether the key goes on.
pub fn key_go(k: KeyCode) -> (r: bool)
    ensures
        r == is_go(k),
{
    k == KeyCode::Enter || k == KeyCode::Char('e')
}

/// Whether the key is one of two letters.
pub fn key_letter(k: KeyCode, c: char, d: char) -> (r: bool)
    ensures
        r == is_letter(k, c, d),
{
    k == KeyCode::Char(c) || k == KeyCode::Char(d)
}

/// Whether the key begins to edit.
pub fn key_edit(k: KeyCode) -> (r: bool)
    ensures
        r == is_edit(k),
{
    key_letter(k, 't', 'T') || key_letter(k, 'e', 'E')
}

/// The digit that the key stands for.
pub fn key_digit(k: KeyCode) -> (r: Option<char>)
    ensures
        match r {
            Some(c) => is_digit_key(k) && k == KeyCode::Char(c),
            None => !is_digit_key(k),
        },
{
    match k {
        KeyCode::Char(c) => if crate::text::char_is_digit(c) {
            Some(c)
        } else {
            None
        },
        _ => None,
    }
}

/// One up, but not above the first.
pub open spec fn up(c: usize) -> usize {
    if c > 0 {
        (c - 1) as usize
    } else {
        0
    }
}

/// One down, but not below `last`.
pub open spec fn down(c: usize, last: usize) -> usize {
    if c < last {
        (c + 1) as usize
    } else {
        last
    }
}

/// The last position of a list of `n`, or 0.
pub open spec fn last_of(n: nat) -> usize {
    if n > 0 {
        (n - 1) as usize
    } else {
        0
    }
}

/// One place up, and not above the first.
pub fn move_up(c: usize) -> (r: usize)
    ensures
        r == up(c),
{
    if c > 0 {
        c - 1
    } else {
        0
    }
}

/// One place down, and not below the last.
pub fn move_down(c: usize, last: usize) -> (r: usize)
    ensures
        r == down(c, last),
{
    if c < last {
        c + 1
    } else {
        last
    }
}

/// The last place of a list.
pub fn last_index(n: usize) -> (r: usize)
    ensures
        r == last_of(n as nat),
{
    if n > 0 {
        n - 1
    } else {
        0
    }
}

/// `n` back, but not below 0.
pub open spec fn back_by(c: usize, n: usize) -> usize {
    if c >= n {
        (c - n) as usize
    } else {
        0
    }
}

/// Some places back, and not before the first.
pub fn go_back(c: usize, n: usize) -> (r: usize)
    ensures
        r == back_by(c, n),
{
    if c >= n {
        c - n
    } else {
        0
    }
}

/// `n` on, but not beyond all numbers.
pub open spec fn on_by(c: usize, n: usize) -> usize {
    if c <= usize::MAX - n {
        (c + n) as usize
    } else {
        usize::MAX
    }
}

/// Some places on, and not beyond all numbers.
pub fn go_on(c: usize, n: usize) -> (r: usize)
    ensures
        r == on_by(c, n),
{
    if c <= usize::MAX - n {
        c + n
    } else {
        usize::MAX
    }
}

/// The smaller of two positions.
pub open spec fn least(a: usize, b: usize) -> usize {
    if a <= b {
        a
    } else {
        b
    }
}

/// The smaller of two numbers.
pub fn at_most(a: usize, b: usize) -> (r: usize)
    ensures
        r == least(a, b),
{
    if a <= b {
        a
    } else {
        b
    }
}

} // verus!
