use vstd::prelude::*;

use tui::widgets::ListState;

verus! {

/// The selection state of a list on screen. Its contents belong to the
/// terminal library; this crate only creates it and hands it on.
#[verifier::external_type_specification]
#[verifier::external_body]
pub struct ExListState(ListState);

/// A fresh selection state, from `ListState::default()`. Nothing is claimed
/// of what it holds.
#[verifier::external_body]
fn fresh_list_state() -> (state: ListState) {
    ListState::default()
}

/// A history of fixed length: a new item goes in at the back, and the oldest
/// one leaves at the front.
pub struct ShiftingVec<T> where T: Clone {
    state: ListState,
    items: Vec<T>,
    default_value: T,
    size: usize,
}

impl<T> View for ShiftingVec<T> where T: Clone {
    type V = Seq<T>;

    /// The items, oldest first.
    closed spec fn view(&self) -> Seq<T> {
        self.items@
    }
}

impl<T> ShiftingVec<T> where T: Clone {
    /// The value that empty places are filled with.
    pub closed spec fn filler(&self) -> T {
        self.default_value
    }

    /// The selection state of the list that shows this history.
    pub closed spec fn list_state(&self) -> ListState {
        self.state
    }

    /// Whether the history holds as many items as its size says.
    pub closed spec fn wf(&self) -> bool {
        self.items@.len() == self.size
    }

    /// A history of `size` places, each filled with a clone of
    /// `default_value`.
    pub fn initalize(size: usize, default_value: T) -> (history: ShiftingVec<T>)
        ensures
            history.wf(),
            history@.len() == size,
            history.filler() == default_value,
            forall|k: int| 0 <= k < size ==> cloned(default_value, #[trigger] history@[k]),
    {
        let mut items: Vec<T> = Vec::new();
        let mut i: usize = 0;
        while i < size
            invariant
                i <= size,
                items@.len() == i,
                forall|k: int| 0 <= k < i ==> cloned(default_value, #[trigger] items@[k]),
            decreases size - i,
        {
            items.push(default_value.clone());
            i += 1;
        }
        let state = fresh_list_state();
        ShiftingVec { state, items, default_value, size }
    }

    /// Puts `item` in at the back; the oldest item leaves at the front, and
    /// every other item moves up by one place.
    pub fn insert(&mut self, item: T)
        requires
            old(self).wf(),
            old(self)@.len() > 0,
        ensures
            final(self).wf(),
            final(self)@ == old(self)@.subrange(1, old(self)@.len() as int).push(item),
            final(self).filler() == old(self).filler(),
    {
        self.items.remove(0);
        self.items.push(item);
        assert(self.items@ =~= old(self)@.subrange(1, old(self)@.len() as int).push(item));
    }

    /// Changes the number of places. A longer history keeps all its items at
    /// the back and gets clones of the filler in front of them; a shorter one
    /// keeps its newest items.
    pub fn set_size(&mut self, size: usize)
        requires
            old(self).wf(),
        ensures
            final(self).wf(),
            final(self)@.len() == size,
            final(self).filler() == old(self).filler(),
            size >= old(self)@.len() ==> {
                &&& final(self)@.subrange(size - old(self)@.len(), size as int) == old(self)@
                &&& forall|k: int|
                    0 <= k < size - old(self)@.len() ==> cloned(
                        old(self).filler(),
                        #[trigger] final(self)@[k],
                    )
            },
            size <= old(self)@.len() ==> final(self)@ == old(self)@.subrange(
                old(self)@.len() - size,
                old(self)@.len() as int,
            ),
    {
        if size > self.size {
            let more: usize = size - self.size;
            let mut i: usize = 0;
            while i < more
                invariant
                    i <= more,
                    more == size - old(self)@.len(),
                    self.default_value == old(self).default_value,
                    self.size == old(self).size,
                    self.items@.len() == old(self)@.len() + i,
                    self.items@.subrange(i as int, self.items@.len() as int) == old(self)@,
                    forall|k: int|
                        0 <= k < i ==> cloned(old(self).filler(), #[trigger] self.items@[k]),
                decreases more - i,
            {
                let ghost before = self.items@;
                let filler = self.default_value.clone();
                self.items.insert(0, filler);
                proof {
                    assert(self.items@.subrange(i + 1, self.items@.len() as int) =~= before.subrange(
                        i as int,
                        before.len() as int,
                    ));
                    assert forall|k: int| 0 <= k < i + 1 implies cloned(
                        old(self).filler(),
                        #[trigger] self.items@[k],
                    ) by {
                        if k > 0 {
                            assert(self.items@[k] == before[k - 1]);
                        }
                    }
                }
                i += 1;
            }
        } else {
            let fewer: usize = self.size - size;
            let mut i: usize = 0;
            while i < fewer
                invariant
                    i <= fewer,
                    fewer == old(self)@.len() - size,
                    self.default_value == old(self).default_value,
                    self.size == old(self).size,
                    self.items@ == old(self)@.subrange(i as int, old(self)@.len() as int),
                decreases fewer - i,
            {
                self.items.remove(0);
                assert(self.items@ =~= old(self)@.subrange(i + 1, old(self)@.len() as int));
                i += 1;
            }
        }
        self.size = size;
    }

    /// Fills every place with a clone of the filler.
    pub fn flush(&mut self)
        requires
            old(self).wf(),
        ensures
            final(self).wf(),
            final(self)@.len() == old(self)@.len(),
            final(self).filler() == old(self).filler(),
            forall|k: int|
                0 <= k < final(self)@.len() ==> cloned(
                    old(self).filler(),
                    #[trigger] final(self)@[k],
                ),
    {
        let count: usize = self.items.len();
        let mut i: usize = 0;
        while i < count
            invariant
                i <= count,
                count == old(self)@.len(),
                self.wf(),
                self@.len() == count,
                self.filler() == old(self).filler(),
                forall|k: int|
                    count - i <= k < count ==> cloned(old(self).filler(), #[trigger] self@[k]),
            decreases count - i,
        {
            let filler = self.default_value.clone();
            let ghost before = self@;
            self.insert(filler);
            proof {
                assert forall|k: int| count - (i + 1) <= k < count implies cloned(
                    old(self).filler(),
                    #[trigger] self@[k],
                ) by {
                    if k < count - 1 {
                        assert(self@[k] == before[k + 1]);
                    }
                }
            }
            i += 1;
        }
    }

    /// Fills every place with a clone of `item`.
    pub fn set_all(&mut self, item: T)
        requires
            old(self).wf(),
        ensures
            final(self).wf(),
            final(self)@.len() == old(self)@.len(),
            final(self).filler() == old(self).filler(),
            forall|k: int| 0 <= k < final(self)@.len() ==> cloned(item, #[trigger] final(self)@[k]),
    {
        let count: usize = self.items.len();
        let mut i: usize = 0;
        while i < count
            invariant
                i <= count,
                count == old(self)@.len(),
                self.wf(),
                self@.len() == count,
                self.filler() == old(self).filler(),
                forall|k: int| count - i <= k < count ==> cloned(item, #[trigger] self@[k]),
            decreases count - i,
        {
            let copy = item.clone();
            let ghost before = self@;
            self.insert(copy);
            proof {
                assert forall|k: int| count - (i + 1) <= k < count implies cloned(
                    item,
                    #[trigger] self@[k],
                ) by {
                    if k < count - 1 {
                        assert(self@[k] == before[k + 1]);
                    }
                }
            }
            i += 1;
        }
    }

    /// The items, oldest first.
    pub fn get_items(&self) -> (items: &Vec<T>)
        ensures
            items@ == self@,
    {
        &self.items
    }

    /// Lends out the selection state of the list that shows this history.
    /// What the borrower leaves in it is the history's selection state from
    /// then on; the items and the filler stay as they are.
    pub fn get_state(&mut self) -> (state: &mut ListState)
        ensures
            *state == old(self).list_state(),
            final(self).list_state() == *final(state),
            final(self)@ == old(self)@,
            final(self).filler() == old(self).filler(),
            final(self).wf() == old(self).wf(),
    {
        &mut self.state
    }
}

} // verus!
