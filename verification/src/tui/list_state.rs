//! Selection and scroll offset of a list on screen.
use vstd::prelude::*;

verus! {

/// Which row of a list is selected, and which row is drawn first.
#[derive(Clone, Copy, Debug)]
pub struct ListState {
    pub selected: Option<usize>,
    pub offset: usize,
}

/// A list state after a row, or none, was selected: selecting none also
/// scrolls back to the top.
pub open spec fn with_selected(s: ListState, index: Option<usize>) -> ListState {
    ListState { selected: index, offset: if index is None { 0 } else { s.offset } }
}

/// The row below a selected one; the first where none is selected.
pub open spec fn row_below(selected: Option<usize>) -> usize {
    match selected {
        Some(i) => if i < usize::MAX { (i + 1) as usize } else { i },
        None => 0,
    }
}

/// The row above a selected one; the last where none is selected.
pub open spec fn row_above(selected: Option<usize>) -> usize {
    match selected {
        Some(i) => if i > 0 { (i - 1) as usize } else { 0 },
        None => usize::MAX,
    }
}

impl ListState {
    pub fn selected(&self) -> (r: Option<usize>)
        ensures
            r == self.selected,
    {
        self.selected
    }

    pub fn offset(&self) -> (r: usize)
        ensures
            r == self.offset,
    {
        self.offset
    }

    /// Selects a row, or none.
    pub fn select(&mut self, index: Option<usize>)
        ensures
            *final(self) == with_selected(*old(self), index),
    {
        self.selected = index;
        if index.is_none() {
            self.offset = 0;
        }
    }

    /// Selects the row below; the first one where none is selected.
    pub fn select_next(&mut self)
        ensures
            *final(self) == with_selected(*old(self), Some(row_below(old(self).selected))),
    {
        let next: usize = match self.selected {
            Some(i) => if i < usize::MAX { i + 1 } else { i },
            None => 0,
        };
        self.select(Some(next));
    }

    /// Selects the first row.
    pub fn select_first(&mut self)
        ensures
            *final(self) == with_selected(*old(self), Some(0)),
    {
        self.select(Some(0));
    }

    /// Selects the last row.
    pub fn select_last(&mut self)
        ensures
            *final(self) == with_selected(*old(self), Some(usize::MAX)),
    {
        self.select(Some(usize::MAX));
    }

    /// Selects the row above; the last one where none is selected.
    pub fn select_previous(&mut self)
        ensures
            *final(self) == with_selected(*old(self), Some(row_above(old(self).selected))),
    {
        let previous: usize = match self.selected {
            Some(i) => if i > 0 { i - 1 } else { 0 },
            None => usize::MAX,
        };
        self.select(Some(previous));
    }
}

impl Default for ListState {
    fn default() -> (r: Self)
        ensures
            r == (ListState { selected: None, offset: 0 }),
    {
        ListState { selected: None, offset: 0 }
    }
}

}
