//! The relocation list of a command list: the buffers that the list refers to, each
//! with the index by which the list names it.

use std::collections::HashMap;
use vstd::prelude::*;
use vstd::std_specs::hash::*;

verus! {

broadcast use vstd::std_specs::hash::group_hash_axioms;

/// The relocation list after `handle` has been relocated: unchanged where it holds the
/// handle already, longer by the handle where it does not.
pub open spec fn relocated(list: Seq<u32>, handle: u32) -> Seq<u32> {
    if list.contains(handle) {
        list
    } else {
        list.push(handle)
    }
}

/// The index that relocating `handle` returns: its place in the list, or the end of
/// the list where the handle is new.
pub open spec fn relocation_index(list: Seq<u32>, handle: u32) -> int {
    if list.contains(handle) {
        list.index_of(handle)
    } else {
        list.len() as int
    }
}

/// The relocation list after each of `handles` has been relocated in turn.
pub open spec fn relocated_all(list: Seq<u32>, handles: Seq<u32>) -> Seq<u32>
    decreases handles.len(),
{
    if handles.len() == 0 {
        list
    } else {
        relocated(relocated_all(list, handles.drop_last()), handles.last())
    }
}

/// The indices that relocating each of `handles` in turn returns.
pub open spec fn relocation_indices(list: Seq<u32>, handles: Seq<u32>) -> Seq<u32>
    decreases handles.len(),
{
    if handles.len() == 0 {
        Seq::empty()
    } else {
        relocation_indices(list, handles.drop_last()).push(
            relocation_index(relocated_all(list, handles.drop_last()), handles.last()) as u32,
        )
    }
}

/// The distinct buffer handles that one session refers to, in the order in which they
/// were first seen, each with its index in that order.
pub struct RelocationTable {
    indices: HashMap<u32, u32>,
    handles: Vec<u32>,
}

impl View for RelocationTable {
    type V = Seq<u32>;

    /// The handles in first-seen order.
    closed spec fn view(&self) -> Seq<u32> {
        self.handles@
    }
}

impl RelocationTable {
    /// No handle occurs twice, every index fits 32 bits, and the map holds each handle
    /// with its place in the list.
    pub closed spec fn wf(&self) -> bool {
        &&& self.handles@.no_duplicates()
        &&& self.handles@.len() <= u32::MAX
        &&& forall|h: u32| self.indices@.contains_key(h) <==> self.handles@.contains(h)
        &&& forall|i: int|
            0 <= i < self.handles@.len() ==> self.indices@[#[trigger] self.handles@[i]] == i
    }

    /// A consistent table holds no handle twice, at indices that fit 32 bits.
    pub proof fn lemma_wf(&self)
        requires
            self.wf(),
        ensures
            self@.no_duplicates(),
            self@.len() <= u32::MAX,
    {
    }

    /// An empty table.
    pub fn new() -> (table: Self)
        ensures
            table.wf(),
            table@ == Seq::<u32>::empty(),
    {
        RelocationTable { indices: HashMap::new(), handles: Vec::new() }
    }

    /// Forgets every handle.
    pub fn clear(&mut self)
        ensures
            final(self).wf(),
            final(self)@ == Seq::<u32>::empty(),
    {
        self.indices.clear();
        self.handles.clear();
    }

    /// The index of `handle`: the one it got when it was first relocated, or the next
    /// free one, with which it joins the list.
    pub fn relocate(&mut self, handle: u32) -> (index: u32)
        requires
            old(self).wf(),
            old(self)@.contains(handle) || old(self)@.len() < u32::MAX,
        ensures
            final(self).wf(),
            final(self)@ == relocated(old(self)@, handle),
            index == relocation_index(old(self)@, handle),
            index < final(self)@.len(),
            final(self)@[index as int] == handle,
    {
        match self.indices.get(&handle) {
            Some(index) => {
                let index = *index;
                proof {
                    assert(self.indices@.contains_key(handle));
                    assert(self.handles@.contains(handle));
                    let i = choose|i: int| 0 <= i < self.handles@.len() && self.handles@[i] == handle;
                    assert(self.handles@[i] == handle);
                    let j = self.handles@.index_of(handle);
                    assert(self.handles@[j] == handle);
                }
                index
            },
            None => {
                let index = self.handles.len() as u32;
                self.handles.push(handle);
                self.indices.insert(handle, index);
                proof {
                    let before = old(self).handles@;
                    let after = self.handles@;
                    assert(after =~= before.push(handle));
                    assert forall|h: u32| self.indices@.contains_key(h) <==> after.contains(
                        h,
                    ) by {
                        if before.contains(h) {
                            let i = before.index_of(h);
                            assert(after[i] == h);
                        }
                        if h == handle {
                            assert(after[before.len() as int] == h);
                        }
                    }
                    assert forall|i: int| 0 <= i < after.len() implies self.indices@[#[trigger] after[i]]
                        == i by {
                        if i < before.len() {
                            assert(before[i] == after[i]);
                            assert(before.contains(before[i]));
                        }
                    }
                }
                index
            },
        }
    }

    /// The handles in first-seen order.
    pub fn handles(&self) -> (handles: &Vec<u32>)
        ensures
            handles@ == self@,
    {
        &self.handles
    }
}

/// Relocating a handle again returns the same index and leaves the list as it is.
pub proof fn lemma_relocate_idempotent(list: Seq<u32>, handle: u32)
    requires
        list.no_duplicates(),
    ensures
        relocated(relocated(list, handle), handle) == relocated(list, handle),
        relocation_index(relocated(list, handle), handle) == relocation_index(list, handle),
        relocated(list, handle).no_duplicates(),
        relocated(list, handle).to_set() == list.to_set().insert(handle),
{
    let after = relocated(list, handle);
    if list.contains(handle) {
        assert(list.to_set().insert(handle) =~= list.to_set());
    } else {
        assert(after[list.len() as int] == handle);
        assert(after.contains(handle));
        assert forall|i: int, j: int|
            0 <= i < after.len() && 0 <= j < after.len() && i != j implies after[i] != after[j] by {
            if i == list.len() {
                assert(list.contains(after[j]));
            } else if j == list.len() {
                assert(list.contains(after[i]));
            }
        }
        let i = after.index_of(handle);
        assert(after[i] == handle);
        assert(i == list.len());
        assert forall|h: u32| after.to_set().contains(h) <==> list.to_set().insert(
            handle,
        ).contains(h) by {
            if after.contains(h) {
                let k = after.index_of(h);
                assert(after[k] == h);
                if k < list.len() {
                    assert(list[k] == h);
                }
            }
            if list.contains(h) {
                let k = list.index_of(h);
                assert(after[k] == h);
            }
        }
        assert(after.to_set() =~= list.to_set().insert(handle));
    }
}

/// Relocating further handles moves no handle that the list holds already.
pub proof fn lemma_relocate_stable(list: Seq<u32>, handle: u32, other: u32)
    requires
        list.no_duplicates(),
        list.contains(handle),
    ensures
        relocated(list, other).contains(handle),
        relocation_index(relocated(list, other), handle) == relocation_index(list, handle),
{
    let after = relocated(list, other);
    lemma_relocate_idempotent(list, other);
    let i = list.index_of(handle);
    assert(after[i] == handle);
    let j = after.index_of(handle);
    assert(after[j] == handle);
}

/// After any run of relocations from an empty list, the list holds each distinct
/// handle once: it is as long as the set of the handles seen.
pub proof fn lemma_relocated_all_distinct(list: Seq<u32>, handles: Seq<u32>)
    requires
        list.no_duplicates(),
    ensures
        relocated_all(list, handles).no_duplicates(),
        relocated_all(list, handles).to_set() == list.to_set().union(handles.to_set()),
        relocated_all(list, handles).len() == list.to_set().union(handles.to_set()).len(),
        relocation_indices(list, handles).len() == handles.len(),
    decreases handles.len(),
{
    let all = relocated_all(list, handles);
    if handles.len() == 0 {
        assert(handles.to_set() =~= Set::<u32>::empty());
        assert(list.to_set().union(handles.to_set()) =~= list.to_set());
    } else {
        let front = handles.drop_last();
        lemma_relocated_all_distinct(list, front);
        lemma_relocate_idempotent(relocated_all(list, front), handles.last());
        assert forall|h: u32| handles.to_set().contains(h) <==> front.to_set().insert(
            handles.last(),
        ).contains(h) by {
            if handles.contains(h) {
                let k = handles.index_of(h);
                assert(handles[k] == h);
                if k < front.len() {
                    assert(front[k] == h);
                }
            }
            if front.contains(h) {
                let k = front.index_of(h);
                assert(handles[k] == h);
            }
            if h == handles.last() {
                assert(handles[handles.len() - 1] == h);
            }
        }
        assert(handles.to_set() =~= front.to_set().insert(handles.last()));
        assert(all.to_set() =~= list.to_set().union(handles.to_set()));
    }
    all.unique_seq_to_set();
}

/// Relocating one more handle after a run of relocations.
pub proof fn lemma_relocated_push(list: Seq<u32>, handles: Seq<u32>, handle: u32)
    ensures
        relocated_all(list, handles.push(handle)) == relocated(
            relocated_all(list, handles),
            handle,
        ),
        relocation_indices(list, handles.push(handle)) == relocation_indices(list, handles).push(
            relocation_index(relocated_all(list, handles), handle) as u32,
        ),
{
    assert(handles.push(handle).drop_last() =~= handles);
}

/// A run of relocations never shortens the list, and the list is never shorter after
/// the whole run than after a part of it.
pub proof fn lemma_relocated_all_grows(list: Seq<u32>, handles: Seq<u32>, part: int)
    requires
        0 <= part <= handles.len(),
    ensures
        list.len() <= relocated_all(list, handles.take(part)).len() <= relocated_all(
            list,
            handles,
        ).len(),
    decreases handles.len(),
{
    if handles.len() == 0 {
        assert(handles.take(part) =~= handles);
    } else if part == handles.len() {
        assert(handles.take(part) =~= handles);
        lemma_relocated_all_grows(list, handles.drop_last(), part - 1);
    } else {
        assert(handles.drop_last().take(part) =~= handles.take(part));
        lemma_relocated_all_grows(list, handles.drop_last(), part);
    }
}

/// A run of relocations lengthens the list by no more than the number of handles.
pub proof fn lemma_relocated_all_bound(list: Seq<u32>, handles: Seq<u32>)
    ensures
        relocated_all(list, handles).len() <= list.len() + handles.len(),
    decreases handles.len(),
{
    if handles.len() > 0 {
        lemma_relocated_all_bound(list, handles.drop_last());
    }
}

} // verus!
