//! A generic cursor over an ordered sequence, shared by every on-screen
//! list: wrap-around next/previous over the items, with an optional
//! current index that is absent whenever the sequence is empty.
use vstd::prelude::*;

verus! {

/// A sequence of items together with an optional cursor. When the cursor
/// is present it always points inside the sequence.
pub struct StatefulList<T> {
    pub state: Option<usize>,
    pub items: Vec<T>,
}

impl<T> StatefulList<T> {
    /// The cursor, when present, is in range; an empty list carries none.
    pub open spec fn wf(&self) -> bool {
        match self.state {
            Some(i) => i < self.items.len(),
            None => true,
        }
    }

    /// A list over the given items, with nothing selected yet.
    pub fn with_items(items: Vec<T>) -> (r: StatefulList<T>)
        ensures
            r.wf(),
            r.items@ == items@,
            r.state is None,
    {
        StatefulList { state: None, items }
    }

    /// Move the cursor one step down, wrapping from the last item to the
    /// first; an empty list keeps no selection, and a list with no
    /// previous selection selects the first item.
    pub fn next(&mut self)
        requires
            old(self).wf(),
        ensures
            final(self).wf(),
            final(self).items@ == old(self).items@,
            final(self).state == spec_next(old(self).state, old(self).items@.len()),
    {
        if self.items.len() == 0 {
            self.unselect();
            return ;
        }
        let i: usize = match self.state {
            Some(i) => {
                if i >= self.items.len() - 1 {
                    0
                } else {
                    i + 1
                }
            },
            None => 0,
        };
        self.state = Some(i);
    }

    /// Move the cursor one step up, wrapping from the first item to the
    /// last; an empty list keeps no selection, and a list with no
    /// previous selection selects the first item.
    pub fn previous(&mut self)
        requires
            old(self).wf(),
        ensures
            final(self).wf(),
            final(self).items@ == old(self).items@,
            final(self).state == spec_previous(old(self).state, old(self).items@.len()),
    {
        if self.items.len() == 0 {
            self.unselect();
            return ;
        }
        let i: usize = match self.state {
            Some(i) => {
                if i == 0 {
                    self.items.len() - 1
                } else {
                    i - 1
                }
            },
            None => 0,
        };
        self.state = Some(i);
    }

    /// Drop the selection, keeping the items.
    pub fn unselect(&mut self)
        ensures
            final(self).wf(),
            final(self).items@ == old(self).items@,
            final(self).state is None,
    {
        self.state = None;
    }

    /// The selected item, if any.
    pub fn selected(&self) -> (r: Option<&T>)
        requires
            self.wf(),
        ensures
            match self.state {
                Some(i) => r matches Some(t) && t == &self.items[i as int],
                None => r is None,
            },
    {
        match self.state {
            Some(i) => Some(&self.items[i]),
            None => None,
        }
    }

    /// Replace the selected item in place, keeping the cursor; a list
    /// with no selection is left unchanged.
    pub fn update_selected(&mut self, item: T)
        requires
            old(self).wf(),
        ensures
            final(self).wf(),
            final(self).state == old(self).state,
            match old(self).state {
                Some(i) => final(self).items@ == old(self).items@.update(i as int, item),
                None => final(self).items@ == old(self).items@,
            },
    {
        if let Some(index) = self.state {
            self.items.set(index, item);
        }
    }

    /// Remove the item at the given position, then move the cursor to
    /// the previous valid position, clamped: a cursor at the top stays
    /// at the top, and an emptied list keeps no cursor.
    pub fn remove_at_index(&mut self, index: usize)
        requires
            old(self).wf(),
            index < old(self).items@.len(),
        ensures
            final(self).wf(),
            final(self).items@ == old(self).items@.remove(index as int),
            final(self).state == spec_removed_cursor(
                old(self).state,
                (old(self).items@.len() - 1) as nat,
            ),
    {
        self.items.remove(index);
        if self.items.len() == 0 {
            self.state = None;
            return ;
        }
        let i: usize = match self.state {
            Some(i) => {
                if i == 0 {
                    0
                } else {
                    i - 1
                }
            },
            None => 0,
        };
        self.state = Some(i);
    }
}

/// Where the cursor stands after one step down on a list of `len` items.
pub open spec fn spec_next(state: Option<usize>, len: nat) -> Option<usize> {
    if len == 0 {
        None
    } else {
        match state {
            Some(i) => Some(if i >= len - 1 {
                0usize
            } else {
                (i + 1) as usize
            }),
            None => Some(0usize),
        }
    }
}

/// Where the cursor stands after a removal left `len` items: one step
/// up, clamped at the top, gone when nothing is left.
pub open spec fn spec_removed_cursor(state: Option<usize>, len: nat) -> Option<usize> {
    if len == 0 {
        None
    } else {
        match state {
            Some(i) => Some(if i == 0 {
                0usize
            } else {
                (i - 1) as usize
            }),
            None => Some(0usize),
        }
    }
}

/// Where the cursor stands after one step up on a list of `len` items.
pub open spec fn spec_previous(state: Option<usize>, len: nat) -> Option<usize> {
    if len == 0 {
        None
    } else {
        match state {
            Some(i) => Some(if i == 0 {
                (len - 1) as usize
            } else {
                (i - 1) as usize
            }),
            None => Some(0usize),
        }
    }
}

} // verus!
