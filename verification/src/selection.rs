//! The selection of one entry in a list of entries.

use vstd::prelude::*;

verus! {

/// Which entry of a list is selected, and which one was selected before the
/// selection was last dropped.
#[derive(Debug, Clone, Copy, PartialEq, Eq, Structural)]
pub struct Selection {
    pub selected: Option<usize>,
    pub last_selected: Option<usize>,
}

/// The entry after `selected` in a list of `len` entries, going back to the
/// first entry after the last one. Without a selection it is the entry that
/// was selected last, or the first entry.
pub open spec fn entry_after(selected: Option<usize>, last_selected: Option<usize>, len: usize) -> usize {
    match selected {
        Some(i) => if i >= len - 1 {
            0
        } else {
            (i + 1) as usize
        },
        None => match last_selected {
            Some(i) => i,
            None => 0,
        },
    }
}

/// The entry before `selected` in a list of `len` entries, going to the
/// last entry before the first one. Without a selection it is the entry
/// that was selected last, or the first entry.
pub open spec fn entry_before(selected: Option<usize>, last_selected: Option<usize>, len: usize) -> usize {
    match selected {
        Some(i) => if i == 0 {
            (len - 1) as usize
        } else {
            (i - 1) as usize
        },
        None => match last_selected {
            Some(i) => i,
            None => 0,
        },
    }
}

impl Selection {
    /// No selection.
    pub fn new() -> (r: Self)
        ensures
            r.selected is None,
            r.last_selected is None,
    {
        Selection { selected: None, last_selected: None }
    }

    /// Moves the selection one entry down a list of `len` entries.
    pub fn next(&mut self, len: usize)
        requires
            old(self).selected is Some ==> len > 0,
        ensures
            final(self).selected == Some(
                entry_after(old(self).selected, old(self).last_selected, len),
            ),
            final(self).last_selected == old(self).last_selected,
    {
        let i: usize = match self.selected {
            Some(i) => if i >= len - 1 {
                0
            } else {
                i + 1
            },
            None => match self.last_selected {
                Some(i) => i,
                None => 0,
            },
        };
        self.selected = Some(i);
    }

    /// Moves the selection one entry up a list of `len` entries.
    pub fn previous(&mut self, len: usize)
        requires
            old(self).selected == Some(0usize) ==> len > 0,
        ensures
            final(self).selected == Some(
                entry_before(old(self).selected, old(self).last_selected, len),
            ),
            final(self).last_selected == old(self).last_selected,
    {
        let i: usize = match self.selected {
            Some(i) => if i == 0 {
                len - 1
            } else {
                i - 1
            },
            None => match self.last_selected {
                Some(i) => i,
                None => 0,
            },
        };
        self.selected = Some(i);
    }

    /// Drops the selection and remembers it.
    pub fn unselect(&mut self)
        ensures
            final(self).selected is None,
            final(self).last_selected == old(self).selected,
    {
        self.last_selected = self.selected;
        self.selected = None;
    }

    /// Selects the first entry.
    pub fn go_top(&mut self)
        ensures
            final(self).selected == Some(0usize),
            final(self).last_selected == old(self).last_selected,
    {
        self.selected = Some(0);
    }

    /// Selects the last of `len` entries.
    pub fn go_bottom(&mut self, len: usize)
        requires
            len > 0,
        ensures
            final(self).selected == Some((len - 1) as usize),
            final(self).last_selected == old(self).last_selected,
    {
        self.selected = Some(len - 1);
    }
}

} // verus!
