//! The selected row of a list.

use vstd::prelude::*;

verus! {

/// The selected row of a list and the first row that is on screen.
#[derive(Clone, Copy, Debug, PartialEq, Eq, Structural)]
pub struct Selection {
    pub selected: Option<usize>,
    pub offset: usize,
}

/// The row that is selected after moving by `delta` in a list of `length` rows: the nearest one
/// that there is, and none in an empty list.
pub open spec fn moved(selected: Option<usize>, length: int, delta: int) -> Option<usize> {
    if length <= 0 {
        None
    } else {
        let from = match selected {
            Some(row) => row as int,
            None => 0,
        };
        let to = from + delta;
        Some(
            (if to < 0 {
                0
            } else if to >= length {
                length - 1
            } else {
                to
            }) as usize,
        )
    }
}

/// The row that stays selected in a list that has become shorter.
pub open spec fn kept(selected: Option<usize>, length: int) -> Option<usize> {
    match selected {
        None => None,
        Some(row) => if length <= 0 {
            None
        } else if row >= length {
            Some((length - 1) as usize)
        } else {
            Some(row)
        },
    }
}

impl Selection {
    /// The first row is selected.
    pub fn first() -> (r: Selection)
        ensures
            r == (Selection { selected: Some(0), offset: 0 }),
    {
        Selection { selected: Some(0), offset: 0 }
    }

    /// No row is selected.
    pub fn nothing() -> (r: Selection)
        ensures
            r == (Selection { selected: None, offset: 0 }),
    {
        Selection { selected: None, offset: 0 }
    }

    /// Selects a row, or none; a list without a selected row begins at its first.
    pub open spec fn with(self, row: Option<usize>) -> Selection {
        Selection {
            selected: row,
            offset: if row is None {
                0
            } else {
                self.offset
            },
        }
    }

    /// Selects a row, or none.
    pub fn select(&mut self, row: Option<usize>)
        ensures
            *final(self) == old(self).with(row),
    {
        self.selected = row;
        if row.is_none() {
            self.offset = 0;
        }
    }

    /// Moves the selection by `delta` rows in a list of `length` rows.
    pub fn move_by(&mut self, length: usize, delta: isize)
        ensures
            *final(self) == old(self).with(moved(old(self).selected, length as int, delta as int)),
    {
        if length == 0 {
            self.select(None);
            return;
        }
        let from: usize = match self.selected {
            Some(row) => row,
            None => 0,
        };
        let to: usize = if delta >= 0 {
            let far: u128 = from as u128 + delta as u128;
            if far >= length as u128 {
                length - 1
            } else {
                far as usize
            }
        } else {
            let back: i128 = from as i128 + delta as i128;
            if back < 0 {
                0
            } else if back >= length as i128 {
                length - 1
            } else {
                back as usize
            }
        };
        self.select(Some(to));
    }

    /// Keeps the selection inside a list of `length` rows.
    pub fn keep_within(&mut self, length: usize)
        ensures
            *final(self) == old(self).with(kept(old(self).selected, length as int)),
    {
        match self.selected {
            None => self.select(None),
            Some(row) => {
                if length == 0 {
                    self.select(None);
                } else if row >= length {
                    self.select(Some(length - 1));
                }
            },
        }
    }
}

/// A move ends inside the list, and keeping a selection ends inside it.
pub proof fn law_selection_stays_inside(selected: Option<usize>, length: usize, delta: isize)
    ensures
        moved(selected, length as int, delta as int) matches Some(row) ==> row < length,
        moved(selected, length as int, delta as int) is None <==> length == 0,
        kept(selected, length as int) matches Some(row) ==> row < length,
{
}

} // verus!
