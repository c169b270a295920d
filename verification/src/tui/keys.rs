//! Keys as the terminal reports them.

use vstd::prelude::*;

verus! {

/// A key.
#[derive(Clone, Copy, Debug, PartialEq, Eq, Structural)]
pub enum Code {
    Char(char),
    Enter,
    Esc,
    Backspace,
    Tab,
    BackTab,
    Delete,
    Up,
    Down,
    Left,
    Right,
    PageUp,
    PageDown,
    Home,
    End,
    F(u8),
    Other,
}

/// A key and what is held down with it.
#[derive(Clone, Copy, Debug, PartialEq, Eq, Structural)]
pub struct Key {
    pub code: Code,
    pub control: bool,
    pub alt: bool,
    pub shift: bool,
    /// any other modifier
    pub other: bool,
}

impl Key {
    /// Nothing is held down with it.
    pub open spec fn bare(self) -> bool {
        !self.control && !self.alt && !self.shift && !self.other
    }

    /// It is the character with nothing held down.
    pub open spec fn is(self, c: char) -> bool {
        self.code == Code::Char(c) && self.bare()
    }

    /// It is the character with the control key alone.
    pub open spec fn is_control(self, c: char) -> bool {
        self.code == Code::Char(c) && self.control && !self.alt && !self.shift && !self.other
    }

    /// It is the character with the shift key alone.
    pub open spec fn is_shift(self, c: char) -> bool {
        self.code == Code::Char(c) && self.shift && !self.alt && !self.control && !self.other
    }

    /// Ctrl+c, which ends the program everywhere.
    pub open spec fn is_quit(self) -> bool {
        self.is_control('c')
    }

    /// The character that it types, where it types one.
    pub open spec fn typed(self) -> Option<char> {
        match self.code {
            Code::Char(c) if !self.control && !self.alt => Some(c),
            _ => None,
        }
    }

    /// The digit that it is, pressed alone.
    pub open spec fn digit(self) -> Option<int> {
        match self.code {
            Code::Char(c) if '0' <= c <= '9' && self.bare() => Some(c as int - '0' as int),
            _ => None,
        }
    }

    /// Down in a list: the arrow, or `s`.
    pub open spec fn is_down(self) -> bool {
        self.code == Code::Down || self.is('s')
    }

    /// Up in a list: the arrow, or `w`.
    pub open spec fn is_up(self) -> bool {
        self.code == Code::Up || self.is('w')
    }

    /// Whether nothing is held down with it.
    pub fn nothing_held(&self) -> (r: bool)
        ensures
            r == self.bare(),
    {
        !self.control && !self.alt && !self.shift && !self.other
    }

    /// Whether it is the character with nothing held down.
    pub fn plain(&self, c: char) -> (r: bool)
        ensures
            r == self.is(c),
    {
        match self.code {
            Code::Char(own) => own == c && self.nothing_held(),
            _ => false,
        }
    }

    /// Whether it is the character with the control key alone.
    pub fn with_control(&self, c: char) -> (r: bool)
        ensures
            r == self.is_control(c),
    {
        match self.code {
            Code::Char(own) => own == c && self.control && !self.alt && !self.shift && !self.other,
            _ => false,
        }
    }

    /// Whether it is the character with the shift key alone.
    pub fn with_shift(&self, c: char) -> (r: bool)
        ensures
            r == self.is_shift(c),
    {
        match self.code {
            Code::Char(own) => own == c && self.shift && !self.alt && !self.control && !self.other,
            _ => false,
        }
    }

    /// Whether it ends the program.
    pub fn quits(&self) -> (r: bool)
        ensures
            r == self.is_quit(),
    {
        self.with_control('c')
    }

    /// The character that it types.
    pub fn types(&self) -> (r: Option<char>)
        ensures
            r == self.typed(),
    {
        match self.code {
            Code::Char(c) => if !self.control && !self.alt {
                Some(c)
            } else {
                None
            },
            _ => None,
        }
    }

    /// The digit that it is, pressed alone.
    pub fn pressed_digit(&self) -> (r: Option<usize>)
        ensures
            r is Some <==> self.digit() is Some,
            r matches Some(d) ==> self.digit() == Some(d as int) && d <= 9,
    {
        match self.code {
            Code::Char(c) => if '0' <= c && c <= '9' && self.nothing_held() {
                Some((c as u32 - '0' as u32) as usize)
            } else {
                None
            },
            _ => None,
        }
    }

    /// Whether it goes down in a list.
    pub fn goes_down(&self) -> (r: bool)
        ensures
            r == self.is_down(),
    {
        self.code == Code::Down || self.plain('s')
    }

    /// Whether it goes up in a list.
    pub fn goes_up(&self) -> (r: bool)
        ensures
            r == self.is_up(),
    {
        self.code == Code::Up || self.plain('w')
    }
}

} // verus!
