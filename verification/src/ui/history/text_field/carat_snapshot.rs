//! The saved state of a carat.

use std::ops::Range;
use vstd::prelude::*;
use vstd::std_specs::cmp::PartialEqSpecImpl;

verus! {

/// The state of one carat: the index of the character it stands before, and
/// the half-open range of characters it selects, if it selects any.
#[derive(Debug)]
pub struct CaratSnapshot {
    pub character_index: usize,
    pub selection: Option<Range<usize>>,
}

impl CaratSnapshot {
    pub fn new(character_index: usize, selection: Option<Range<usize>>) -> (snapshot: CaratSnapshot)
        ensures
            snapshot == (CaratSnapshot { character_index, selection }),
    {
        CaratSnapshot { character_index, selection }
    }

    /// The snapshot of a carat before character `index` that selects nothing.
    pub open spec fn at(index: int) -> CaratSnapshot {
        CaratSnapshot { character_index: index as usize, selection: None }
    }

    pub fn character_index(&self) -> (index: usize)
        ensures
            index == self.character_index,
    {
        self.character_index
    }

    pub fn selection(&self) -> (selection: &Option<Range<usize>>)
        ensures
            *selection == self.selection,
    {
        &self.selection
    }

    /// Where the stretch of text that the carat stands for begins: the start
    /// of its selection, or the carat itself.
    pub open spec fn extent_start(&self) -> int {
        match self.selection {
            Some(range) => range.start as int,
            None => self.character_index as int,
        }
    }

    /// Where the stretch of text that the carat stands for ends.
    pub open spec fn extent_end(&self) -> int {
        match self.selection {
            Some(range) => range.end as int,
            None => self.character_index as int,
        }
    }

    /// Whether the carat selects at least one character.
    pub open spec fn selects(&self) -> bool {
        self.extent_start() < self.extent_end()
    }

    /// A selection runs forward and has the carat inside it or at one end.
    pub open spec fn well_formed(&self) -> bool {
        self.extent_start() <= self.character_index <= self.extent_end()
    }

    /// The stretch of text that the carat stands for, as `(start, end)`.
    pub fn extent(&self) -> (extent: (usize, usize))
        ensures
            extent.0 == self.extent_start(),
            extent.1 == self.extent_end(),
    {
        match &self.selection {
            Some(range) => (range.start, range.end),
            None => (self.character_index, self.character_index),
        }
    }
}

impl Clone for CaratSnapshot {
    fn clone(&self) -> (copy: CaratSnapshot)
        ensures
            copy == *self,
    {
        let selection = match &self.selection {
            Some(range) => Some(range.start..range.end),
            None => None,
        };
        CaratSnapshot { character_index: self.character_index, selection }
    }
}

impl PartialEq for CaratSnapshot {
    fn eq(&self, other: &CaratSnapshot) -> (same: bool)
    {
        let same_selection = match (&self.selection, &other.selection) {
            (Some(mine), Some(theirs)) => mine.start == theirs.start && mine.end == theirs.end,
            (None, None) => true,
            _ => false,
        };
        self.character_index == other.character_index && same_selection
    }
}

impl PartialEqSpecImpl for CaratSnapshot {
    open spec fn obeys_eq_spec() -> bool {
        true
    }

    open spec fn eq_spec(&self, other: &CaratSnapshot) -> bool {
        *self == *other
    }
}

/// Whether `carats` can be edited at in a text of `len` characters: every
/// carat is well formed and lies inside the text, and the carats stand in
/// ascending order with no two stretches overlapping.
pub open spec fn carats_fit(carats: Seq<CaratSnapshot>, len: int) -> bool {
    &&& forall|k: int|
        0 <= k < carats.len() ==> (#[trigger] carats[k]).well_formed() && carats[k].extent_end()
            <= len
    &&& forall|j: int, k: int|
        0 <= j < k < carats.len() ==> (#[trigger] carats[j]).extent_end() <= (
        #[trigger] carats[k]).extent_start()
}

/// Whether no carat of `carats` selects a character: each has no selection
/// or an empty one.
pub open spec fn nothing_selected(carats: Seq<CaratSnapshot>) -> bool {
    forall|k: int| 0 <= k < carats.len() ==> !(#[trigger] carats[k]).selects()
}

/// Whether every carat but the first stands at least `gap` characters
/// behind the carat before it.
pub open spec fn carats_stand_apart(carats: Seq<CaratSnapshot>, gap: int) -> bool {
    forall|k: int|
        0 < k < carats.len() ==> (#[trigger] carats[k]).extent_start() - carats[k - 1].extent_end()
            >= gap
}

/// Whether no carat of `carats` has a selection.
pub open spec fn no_selections(carats: Seq<CaratSnapshot>) -> bool {
    forall|k: int| 0 <= k < carats.len() ==> (#[trigger] carats[k]).selection is None
}

/// Decides [`carats_fit`].
pub fn decide_carats_fit(carats: &Vec<CaratSnapshot>, len: usize) -> (fit: bool)
    ensures
        fit == carats_fit(carats@, len as int),
{
    let mut floor: usize = 0;
    let mut k: usize = 0;
    while k < carats.len()
        invariant
            k <= carats.len(),
            carats_fit(carats@.subrange(0, k as int), len as int),
            floor <= len,
            k == 0 ==> floor == 0,
            k > 0 ==> floor == carats@[k - 1].extent_end(),
            forall|j: int| 0 <= j < k ==> (#[trigger] carats@[j]).extent_end() <= floor,
        decreases carats.len() - k,
    {
        let (start, end) = carats[k].extent();
        let index: usize = carats[k].character_index();
        if !(floor <= start && start <= index && index <= end && end <= len) {
            return false;
        }
        floor = end;
        k = k + 1;
    }
    assert(carats@.subrange(0, k as int) =~= carats@);
    true
}

} // verus!
