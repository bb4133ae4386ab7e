//! A keyed selection store: one group of key-labelled choices with at most
//! one pending selection, as used by an input layer to turn raw key events
//! into the core's abstract selection events.

use vstd::prelude::*;

verus! {

/// One selectable choice, labelled by the key that picks it.
#[derive(Clone, Copy, Debug)]
pub struct KeyItem<T> {
    pub key: char,
    pub item: T,
}

/// The first item labelled `key`, looking from position `i` onwards.
pub open spec fn lookup_from<T>(items: Seq<KeyItem<T>>, key: char, i: int) -> Option<T>
    decreases items.len() - i,
{
    if i < 0 || i >= items.len() {
        None
    } else if items[i].key == key {
        Some(items[i].item)
    } else {
        lookup_from(items, key, i + 1)
    }
}

/// The first item of the sequence labelled `key`.
pub open spec fn lookup<T>(items: Seq<KeyItem<T>>, key: char) -> Option<T> {
    lookup_from(items, key, 0)
}

/// What a pending key resolves to among the group's choices.
pub open spec fn selected_value<T>(items: Seq<KeyItem<T>>, selecting: Option<char>) -> Option<T> {
    match selecting {
        Some(k) => lookup(items, k),
        None => None,
    }
}

/// A group of key-labelled choices with at most one pending selection.
#[derive(Debug)]
pub struct SelectGroup<T> {
    pub values: Vec<KeyItem<T>>,
    pub selecting: Option<char>,
}

impl<T: Copy> SelectGroup<T> {
    pub fn new(values: Vec<KeyItem<T>>) -> (g: SelectGroup<T>)
        ensures
            g.values@ == values@,
            g.selecting is None,
    {
        SelectGroup { values, selecting: None }
    }

    fn find(&self, key: char) -> (r: Option<T>)
        ensures
            r == lookup(self.values@, key),
    {
        let mut i: usize = 0;
        while i < self.values.len()
            invariant
                i <= self.values.len(),
                lookup(self.values@, key) == lookup_from(self.values@, key, i as int),
            decreases self.values.len() - i,
        {
            if self.values[i].key == key {
                return Some(self.values[i].item);
            }
            i = i + 1;
        }
        None
    }

    /// The item labelled by the pending key, if any. A pure read.
    pub fn select_value(&self) -> (r: Option<T>)
        ensures
            r == selected_value(self.values@, self.selecting),
    {
        match self.selecting {
            Some(key) => self.find(key),
            None => None,
        }
    }

    /// Handles one key event. Re-issuing the pending key is a no-op
    /// re-affirmation that returns its item; a different key that labels a
    /// choice becomes the pending selection and its item is returned; an
    /// unknown key changes nothing; `None` clears the pending selection.
    pub fn select(&mut self, s: Option<char>) -> (r: Option<T>)
        ensures
            final(self).values@ == old(self).values@,
            old(self).selecting == s ==> *final(self) == *old(self) && r == selected_value(
                old(self).values@,
                old(self).selecting,
            ),
            old(self).selecting != s ==> match s {
                Some(key) => {
                    &&& r == lookup(old(self).values@, key)
                    &&& final(self).selecting == (if lookup(old(self).values@, key) is Some {
                        s
                    } else {
                        old(self).selecting
                    })
                },
                None => final(self).selecting is None && r is None,
            },
    {
        let same = match (self.selecting, s) {
            (Some(a), Some(b)) => a == b,
            (None, None) => true,
            _ => false,
        };
        if same {
            return self.select_value();
        }
        match s {
            Some(key) => {
                let found = self.find(key);
                if found.is_some() {
                    self.selecting = s;
                }
                found
            },
            None => {
                self.selecting = None;
                None
            },
        }
    }
}

} // verus!
