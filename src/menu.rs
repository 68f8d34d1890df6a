//! A selection list: ranked entries with a cursor that wraps around.
use std::convert::TryFrom;
use vstd::prelude::*;

verus! {

/// Entries with a cursor on one of them (or none, when empty).
pub struct Menu<T> {
    entries: Vec<T>,
    selected_idx: usize,
}

impl<T> Menu<T> {
    #[verifier::type_invariant]
    spec fn cursor_in_range(&self) -> bool {
        if self.entries@.len() == 0 {
            self.selected_idx == 0
        } else {
            self.selected_idx < self.entries@.len()
        }
    }

    /// The entries, in order.
    pub closed spec fn entries(&self) -> Seq<T> {
        self.entries@
    }

    /// The cursor's index.
    pub closed spec fn selected(&self) -> int {
        self.selected_idx as int
    }

    /// The cursor is on an entry, or at 0 when there is none.
    pub open spec fn cursor_ok(&self) -> bool {
        &&& self.entries().len() == 0 ==> self.selected() == 0
        &&& self.entries().len() > 0 ==> 0 <= self.selected() < self.entries().len()
    }

    /// Conversion from a list succeeds exactly on a non-empty list, with the
    /// cursor on its first entry.
    pub proof fn lemma_try_from(v: Vec<T>)
        ensures
            match <Menu<T> as vstd::std_specs::convert::TryFromSpec<Vec<T>>>::try_from_spec(v) {
                Ok(m) => v@.len() > 0 && m.entries() == v@ && m.selected() == 0,
                Err(_) => v@.len() == 0,
            },
    {
    }

    /// A menu over `entries` with the cursor on the first one.
    pub fn new(entries: Vec<T>) -> (r: Self)
        ensures
            r.entries() == entries@,
            r.selected() == 0,
            r.cursor_ok(),
    {
        Menu { entries: entries, selected_idx: 0 }
    }

    /// The cursor's index.
    pub fn selected_index(&self) -> (r: usize)
        ensures
            r == self.selected(),
            self.cursor_ok(),
    {
        proof {
            use_type_invariant(self);
        }
        self.selected_idx
    }

    /// Takes the entry under the cursor, consuming the menu; none when empty.
    pub fn into_selected_entry(self) -> (r: Option<T>)
        ensures
            self.cursor_ok(),
            self.entries().len() == 0 ==> r is None,
            self.entries().len() > 0 ==> r == Some(self.entries()[self.selected()]),
    {
        proof {
            use_type_invariant(&self);
        }
        let mut entries = self.entries;
        if entries.len() == 0 {
            None
        } else {
            Some(entries.remove(self.selected_idx))
        }
    }

    /// The entry under the cursor; none when empty.
    pub fn selected_entry(&self) -> (r: Option<&T>)
        ensures
            self.cursor_ok(),
            self.entries().len() == 0 ==> r is None,
            self.entries().len() > 0 ==> r == Some(&self.entries()[self.selected()]),
    {
        proof {
            use_type_invariant(self);
        }
        if self.entries.len() == 0 {
            None
        } else {
            Some(&self.entries[self.selected_idx])
        }
    }

    /// Each entry in order, with whether the cursor is on it.
    pub fn iter(&self) -> (r: Vec<(&T, bool)>)
        ensures
            self.cursor_ok(),
            r@.len() == self.entries().len(),
            forall|i: int|
                0 <= i < r@.len() ==> *(#[trigger] r@[i]).0 == self.entries()[i] && r@[i].1 == (i
                    == self.selected()),
    {
        proof {
            use_type_invariant(self);
        }
        let mut r: Vec<(&T, bool)> = Vec::new();
        let mut i: usize = 0;
        while i < self.entries.len()
            invariant
                i <= self.entries@.len(),
                r@.len() == i,
                forall|k: int|
                    0 <= k < i ==> *(#[trigger] r@[k]).0 == self.entries@[k] && r@[k].1 == (k
                        == self.selected_idx),
            decreases self.entries@.len() - i,
        {
            r.push((&self.entries[i], i == self.selected_idx));
            i += 1;
        }
        r
    }

    /// Moves the cursor down, from the last entry back to the first; does
    /// nothing on an empty menu.
    pub fn select_next(&mut self)
        ensures
            old(self).cursor_ok(),
            final(self).cursor_ok(),
            old(self).entries().len() == 0 ==> final(self).selected() == old(self).selected(),
            final(self).entries() == old(self).entries(),
            final(self).selected() == if old(self).entries().len() == 0 {
                0
            } else if old(self).selected() + 1 < old(self).entries().len() {
                old(self).selected() + 1
            } else {
                0
            },
    {
        proof {
            use_type_invariant(&*self);
        }
        let n = self.entries.len();
        if n == 0 {
            return;
        }
        if self.selected_idx < n - 1 {
            self.selected_idx = self.selected_idx + 1;
        } else {
            self.selected_idx = 0;
        }
    }

    /// Moves the cursor up, from the first entry round to the last; does
    /// nothing on an empty menu.
    pub fn select_prev(&mut self)
        ensures
            old(self).cursor_ok(),
            final(self).cursor_ok(),
            old(self).entries().len() == 0 ==> final(self).selected() == old(self).selected(),
            final(self).entries() == old(self).entries(),
            final(self).selected() == if old(self).entries().len() == 0 {
                0
            } else if old(self).selected() > 0 {
                old(self).selected() - 1
            } else {
                old(self).entries().len() - 1
            },
    {
        proof {
            use_type_invariant(&*self);
        }
        let n = self.entries.len();
        if n == 0 {
            return;
        }
        if self.selected_idx > 0 {
            self.selected_idx = self.selected_idx - 1;
        } else {
            self.selected_idx = n - 1;
        }
    }
}

impl<T> TryFrom<Vec<T>> for Menu<T> {
    type Error = &'static str;

    /// A menu only when there is something to choose from.
    fn try_from(entries: Vec<T>) -> (r: Result<Self, Self::Error>) {
        if entries.len() == 0 {
            Err("Cannot create empty menus!")
        } else {
            Ok(Menu { entries: entries, selected_idx: 0 })
        }
    }
}

impl<T> vstd::std_specs::convert::TryFromSpecImpl<Vec<T>> for Menu<T> {
    open spec fn obeys_try_from_spec() -> bool {
        true
    }

    closed spec fn try_from_spec(v: Vec<T>) -> Result<Self, Self::Error> {
        if v@.len() == 0 {
            Err("Cannot create empty menus!")
        } else {
            Ok(Menu { entries: v, selected_idx: 0 })
        }
    }
}

} // verus!
