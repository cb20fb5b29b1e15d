//! The bank of plucked strings a kora is made of.

use vstd::prelude::*;
use crate::delay::{DelayLine, next_index};

verus! {

/// The strings of the instrument, each a delay line of its own.
pub struct KoraStrings<T> {
    strings: Vec<DelayLine<T>>,
}

impl<T> KoraStrings<T> {
    /// The strings, lowest first.
    pub closed spec fn lines(&self) -> Seq<DelayLine<T>> {
        self.strings@
    }

    /// A bank made of the given strings.
    pub fn new(strings: Vec<DelayLine<T>>) -> (bank: Self)
        ensures
            bank.lines() == strings@,
    {
        KoraStrings { strings }
    }

    /// The number of strings.
    pub fn count(&self) -> (n: usize)
        ensures
            n == self.lines().len(),
    {
        self.strings.len()
    }

    /// The number of cells of string `i`, or `None` when there is no such
    /// string.
    pub fn string_len(&self, i: usize) -> (n: Option<usize>)
        ensures
            i < self.lines().len() ==> n == Some(self.lines()[i as int].samples().len() as usize),
            i >= self.lines().len() ==> n is None,
    {
        if i < self.strings.len() {
            Some(self.strings[i].len())
        } else {
            None
        }
    }

    /// Plucks string `i` with the excitation `noise`: every sample of the
    /// string is replaced and it starts again from its first cell. An index
    /// past the last string is ignored. Returns whether a string was plucked.
    pub fn play_note(&mut self, i: usize, noise: Vec<T>) -> (plucked: bool)
        requires
            i < old(self).lines().len() ==> noise@.len() == old(self).lines()[i as int].samples().len(),
        ensures
            plucked == (i < old(self).lines().len()),
            final(self).lines().len() == old(self).lines().len(),
            plucked ==> final(self).lines()[i as int].samples() == noise@,
            plucked ==> final(self).lines()[i as int].cursor() == 0,
            forall|j: int| 0 <= j < old(self).lines().len() && j != i
                ==> #[trigger] final(self).lines()[j] == old(self).lines()[j],
            !plucked ==> final(self).lines() == old(self).lines(),
    {
        if i < self.strings.len() {
            self.strings[i].excite(noise);
            true
        } else {
            false
        }
    }

    /// Stores `v` under the cursor of string `i` and moves that cursor on.
    pub fn write_string(&mut self, i: usize, v: T)
        requires
            i < old(self).lines().len(),
            old(self).lines()[i as int].samples().len() > 0,
        ensures
            final(self).lines().len() == old(self).lines().len(),
            final(self).lines()[i as int].samples()
                == old(self).lines()[i as int].samples().update(old(self).lines()[i as int].cursor(), v),
            final(self).lines()[i as int].cursor() == next_index(
                old(self).lines()[i as int].cursor(),
                old(self).lines()[i as int].samples().len() as int,
            ),
            forall|j: int| 0 <= j < old(self).lines().len() && j != i
                ==> #[trigger] final(self).lines()[j] == old(self).lines()[j],
    {
        self.strings[i].write_advance(v);
    }
}

impl<T: Copy> KoraStrings<T> {
    /// The sample under the cursor of string `i` and the one after it, or
    /// `None` when the string has no cells.
    pub fn string_taps(&self, i: usize) -> (r: Option<(T, T)>)
        requires
            i < self.lines().len(),
        ensures
            self.lines()[i as int].samples().len() == 0 <==> r is None,
            r matches Some((a, b)) ==> {
                let line = self.lines()[i as int];
                &&& a == line.samples()[line.cursor()]
                &&& b == line.samples()[next_index(line.cursor(), line.samples().len() as int)]
            },
    {
        self.strings[i].taps()
    }
}

} // verus!
