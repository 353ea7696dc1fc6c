use vstd::prelude::*;
use vstd::pervasive::unreached;

use crate::protocol::OpId;

verus! {

/// A sequence of `(OpId, T)` pairs addressed by position.
///
/// The root is always an internal node, even while the sequence is empty.
#[derive(Debug)]
pub struct SequenceTree<T> {
    root_node: SequenceTreeNode<T>,
}

#[derive(Debug)]
enum SequenceTreeInner<T> {
    Leaf(OpId, T),
    Node {
        left: Option<Box<SequenceTreeNode<T>>>,
        right: Option<Box<SequenceTreeNode<T>>>,
        len: usize,
    },
}

/// One node of the tree: a leaf holding a single pair, or an internal node that
/// caches the number of leaves below it.
#[derive(Debug)]
pub struct SequenceTreeNode<T> {
    inner: SequenceTreeInner<T>,
}

/// The pairs below an optional child, in position order.
pub closed spec fn child_elements<T>(c: Option<Box<SequenceTreeNode<T>>>) -> Seq<(OpId, T)>
    decreases c,
{
    match c {
        Some(n) => n.elements(),
        None => Seq::empty(),
    }
}

/// An absent child, or a well-formed one.
pub closed spec fn child_wf<T>(c: Option<Box<SequenceTreeNode<T>>>) -> bool
    decreases c,
{
    match c {
        Some(n) => n.wf(),
        None => true,
    }
}

impl<T> SequenceTreeNode<T> {
    /// The pairs held by the leaves below this node, left to right.
    pub closed spec fn elements(self) -> Seq<(OpId, T)>
        decreases self,
    {
        match self.inner {
            SequenceTreeInner::Leaf(opid, element) => seq![(opid, element)],
            SequenceTreeInner::Node { left, right, .. } => child_elements(left) + child_elements(
                right,
            ),
        }
    }

    /// Every internal node below (and including) this one caches the number of
    /// leaves beneath it.
    pub closed spec fn wf(self) -> bool
        decreases self,
    {
        match self.inner {
            SequenceTreeInner::Leaf(..) => true,
            SequenceTreeInner::Node { left, right, len } => {
                &&& len == child_elements(left).len() + child_elements(right).len()
                &&& child_wf(left)
                &&& child_wf(right)
            },
        }
    }

    pub closed spec fn is_leaf(self) -> bool {
        self.inner is Leaf
    }

    fn new_leaf(opid: OpId, element: T) -> (r: Box<Self>)
        ensures
            r.wf(),
            r.is_leaf(),
            r.elements() == seq![(opid, element)],
    {
        Box::new(SequenceTreeNode { inner: SequenceTreeInner::Leaf(opid, element) })
    }

    fn holds_leaf(&self) -> (r: bool)
        ensures
            r == self.is_leaf(),
    {
        match &self.inner {
            SequenceTreeInner::Leaf(..) => true,
            SequenceTreeInner::Node { .. } => false,
        }
    }

    fn child_len(c: &Option<Box<Self>>) -> (r: usize)
        requires
            child_wf(*c),
        ensures
            r == child_elements(*c).len(),
    {
        match c {
            Some(n) => n.len(),
            None => 0,
        }
    }

    /// The number of leaves below this node.
    pub fn len(&self) -> (r: usize)
        requires
            self.wf(),
        ensures
            r == self.elements().len(),
    {
        match &self.inner {
            SequenceTreeInner::Leaf(..) => 1,
            SequenceTreeInner::Node { len, .. } => *len,
        }
    }

    /// Inserts `(opid, element)` so that it becomes the pair at `index`; the pairs
    /// from `index` on move one position up.
    pub fn insert(&mut self, index: usize, opid: OpId, element: T)
        requires
            old(self).wf(),
            index <= old(self).elements().len(),
            old(self).elements().len() < usize::MAX,
        ensures
            final(self).wf(),
            !final(self).is_leaf(),
            final(self).elements() == old(self).elements().insert(index as int, (opid, element)),
        decreases *old(self),
    {
        let ghost before = self.elements();
        let mut inner = SequenceTreeInner::Node { left: None, right: None, len: 0 };
        core::mem::swap(&mut self.inner, &mut inner);
        match inner {
            SequenceTreeInner::Leaf(old_opid, old_element) => {
                // The leaf turns into an internal node over the old pair and the new one.
                let old_leaf = Self::new_leaf(old_opid, old_element);
                let new_leaf = Self::new_leaf(opid, element);
                if index == 0 {
                    self.inner = SequenceTreeInner::Node {
                        left: Some(new_leaf),
                        right: Some(old_leaf),
                        len: 2,
                    };
                } else {
                    self.inner = SequenceTreeInner::Node {
                        left: Some(old_leaf),
                        right: Some(new_leaf),
                        len: 2,
                    };
                }
                proof {
                    assert(self.elements() =~= before.insert(index as int, (opid, element)));
                }
            },
            SequenceTreeInner::Node { mut left, mut right, len } => {
                let ghost l = child_elements(left);
                let ghost r = child_elements(right);
                let left_len = Self::child_len(&left);
                if index > left_len {
                    match right {
                        Some(mut child) => {
                            (&mut *child).insert(index - left_len, opid, element);
                            right = Some(child);
                        },
                        None => {
                            right = Some(Self::new_leaf(opid, element));
                        },
                    }
                    proof {
                        assert(l + child_elements(right) =~= before.insert(
                            index as int,
                            (opid, element),
                        ));
                    }
                } else {
                    match left {
                        Some(mut child) => {
                            (&mut *child).insert(index, opid, element);
                            left = Some(child);
                        },
                        None => {
                            left = Some(Self::new_leaf(opid, element));
                        },
                    }
                    proof {
                        assert(child_elements(left) + r =~= before.insert(
                            index as int,
                            (opid, element),
                        ));
                    }
                }
                self.inner = SequenceTreeInner::Node { left, right, len: len + 1 };
            },
        }
    }

    /// Takes the pair out of a leaf.
    fn into_leaf_element(self) -> (r: T)
        requires
            self.is_leaf(),
        ensures
            r == self.elements()[0].1,
    {
        match self.inner {
            SequenceTreeInner::Leaf(_, element) => element,
            SequenceTreeInner::Node { .. } => unreached(),
        }
    }

    /// Removes the pair at `index` from a child that holds it and returns its
    /// value. A child that is a leaf is detached; the slot is left empty.
    fn remove_from_child(c: &mut Option<Box<Self>>, index: usize) -> (r: T)
        requires
            child_wf(*old(c)),
            index < child_elements(*old(c)).len(),
        ensures
            child_wf(*final(c)),
            r == child_elements(*old(c))[index as int].1,
            child_elements(*final(c)) == child_elements(*old(c)).remove(index as int),
        decreases *old(c),
    {
        let child = c.take().unwrap();
        if child.holds_leaf() {
            proof {
                assert(child_elements(*c) =~= child_elements(*old(c)).remove(index as int));
            }
            (*child).into_leaf_element()
        } else {
            let mut child = child;
            let r = (&mut *child).remove(index);
            *c = Some(child);
            r
        }
    }

    /// Removes the pair at `index` and returns its value; the pairs after it move
    /// one position down. Only an internal node removes: a leaf child is detached
    /// by its parent, which stays an internal node even when left with no child.
    pub fn remove(&mut self, index: usize) -> (r: T)
        requires
            old(self).wf(),
            !old(self).is_leaf(),
            index < old(self).elements().len(),
        ensures
            final(self).wf(),
            !final(self).is_leaf(),
            r == old(self).elements()[index as int].1,
            final(self).elements() == old(self).elements().remove(index as int),
        decreases *old(self),
    {
        let ghost before = self.elements();
        let mut inner = SequenceTreeInner::Node { left: None, right: None, len: 0 };
        core::mem::swap(&mut self.inner, &mut inner);
        match inner {
            SequenceTreeInner::Leaf(..) => unreached(),
            SequenceTreeInner::Node { mut left, mut right, len } => {
                let ghost l = child_elements(left);
                let ghost r = child_elements(right);
                let left_len = Self::child_len(&left);
                let element;
                if index >= left_len {
                    element = Self::remove_from_child(&mut right, index - left_len);
                    proof {
                        assert(l + child_elements(right) =~= before.remove(index as int));
                    }
                } else {
                    element = Self::remove_from_child(&mut left, index);
                    proof {
                        assert(child_elements(left) + r =~= before.remove(index as int));
                    }
                }
                self.inner = SequenceTreeInner::Node { left, right, len: len - 1 };
                element
            },
        }
    }

    /// Replaces the value at `index`, keeping its `OpId`, and returns the old value.
    pub fn set(&mut self, index: usize, element: T) -> (r: T)
        requires
            old(self).wf(),
            index < old(self).elements().len(),
        ensures
            final(self).wf(),
            final(self).is_leaf() == old(self).is_leaf(),
            r == old(self).elements()[index as int].1,
            final(self).elements() == old(self).elements().update(
                index as int,
                (old(self).elements()[index as int].0, element),
            ),
        decreases *old(self),
    {
        let ghost before = self.elements();
        let mut inner = SequenceTreeInner::Node { left: None, right: None, len: 0 };
        core::mem::swap(&mut self.inner, &mut inner);
        match inner {
            SequenceTreeInner::Leaf(opid, old_element) => {
                self.inner = SequenceTreeInner::Leaf(opid, element);
                proof {
                    assert(self.elements() =~= before.update(
                        index as int,
                        (before[index as int].0, element),
                    ));
                }
                old_element
            },
            SequenceTreeInner::Node { mut left, mut right, len } => {
                let ghost l = child_elements(left);
                let ghost r = child_elements(right);
                let left_len = Self::child_len(&left);
                let old_element;
                if index >= left_len {
                    let mut child = right.unwrap();
                    old_element = (&mut *child).set(index - left_len, element);
                    right = Some(child);
                    proof {
                        assert(l + child_elements(right) =~= before.update(
                            index as int,
                            (before[index as int].0, element),
                        ));
                    }
                } else {
                    let mut child = left.unwrap();
                    old_element = (&mut *child).set(index, element);
                    left = Some(child);
                    proof {
                        assert(child_elements(left) + r =~= before.update(
                            index as int,
                            (before[index as int].0, element),
                        ));
                    }
                }
                self.inner = SequenceTreeInner::Node { left, right, len };
                old_element
            },
        }
    }

    /// The pair at `index`, with a copy of its `OpId`; `None` past the end.
    pub fn get(&self, index: usize) -> (r: Option<(OpId, &T)>)
        requires
            self.wf(),
        ensures
            index < self.elements().len() ==> {
                &&& r is Some
                &&& r.unwrap().0@ == self.elements()[index as int].0@
                &&& *r.unwrap().1 == self.elements()[index as int].1
            },
            index >= self.elements().len() ==> r is None,
        decreases self,
    {
        match &self.inner {
            SequenceTreeInner::Leaf(opid, element) => {
                if index == 0 {
                    Some((opid.clone(), element))
                } else {
                    None
                }
            },
            SequenceTreeInner::Node { left, right, .. } => {
                let left_len = Self::child_len(left);
                if index >= left_len {
                    match right {
                        Some(child) => child.get(index - left_len),
                        None => None,
                    }
                } else {
                    match left {
                        Some(child) => child.get(index),
                        None => None,
                    }
                }
            },
        }
    }

    /// The pair at `index`, with a copy of its `OpId` and mutable access to its
    /// value; `None` past the end. What is written through the reference becomes
    /// the value at `index`.
    pub fn get_mut(&mut self, index: usize) -> (r: Option<(OpId, &mut T)>)
        requires
            old(self).wf(),
        ensures
            index < old(self).elements().len() ==> {
                &&& r is Some
                &&& r.unwrap().0@ == old(self).elements()[index as int].0@
                &&& *r.unwrap().1 == old(self).elements()[index as int].1
                &&& final(self).wf()
                &&& final(self).is_leaf() == old(self).is_leaf()
                &&& final(self).elements() == old(self).elements().update(
                    index as int,
                    (old(self).elements()[index as int].0, *final(r.unwrap().1)),
                )
            },
            index >= old(self).elements().len() ==> r is None && *final(self) == *old(self),
        decreases *old(self),
    {
        match &mut self.inner {
            SequenceTreeInner::Leaf(opid, element) => {
                if index == 0 {
                    Some((opid.clone(), element))
                } else {
                    None
                }
            },
            SequenceTreeInner::Node { left, right, .. } => {
                let left_len = Self::child_len(left);
                if index >= left_len {
                    match right {
                        Some(child) => child.get_mut(index - left_len),
                        None => None,
                    }
                } else {
                    match left {
                        Some(child) => child.get_mut(index),
                        None => None,
                    }
                }
            },
        }
    }
}

impl<T> View for SequenceTree<T> {
    type V = Seq<(OpId, T)>;

    /// The pairs of the sequence, in position order.
    closed spec fn view(&self) -> Seq<(OpId, T)> {
        self.root_node.elements()
    }
}

impl<T> SequenceTree<T> {
    /// The root is an internal node and every cached length is accurate.
    pub closed spec fn wf(self) -> bool {
        &&& self.root_node.wf()
        &&& !self.root_node.is_leaf()
    }

    /// An empty sequence.
    pub fn new() -> (r: Self)
        ensures
            r.wf(),
            r@ == Seq::<(OpId, T)>::empty(),
    {
        let r = SequenceTree {
            root_node: SequenceTreeNode {
                inner: SequenceTreeInner::Node { left: None, right: None, len: 0 },
            },
        };
        proof {
            assert(r@ =~= Seq::<(OpId, T)>::empty());
        }
        r
    }

    /// The number of pairs.
    pub fn len(&self) -> (r: usize)
        requires
            self.wf(),
        ensures
            r == self@.len(),
    {
        self.root_node.len()
    }

    /// Inserts `(opid, element)` at `index`; the pairs from `index` on move one
    /// position up. Inserting at `len()` appends.
    pub fn insert(&mut self, index: usize, opid: OpId, element: T)
        requires
            old(self).wf(),
            index <= old(self)@.len(),
            old(self)@.len() < usize::MAX,
        ensures
            final(self).wf(),
            final(self)@ == old(self)@.insert(index as int, (opid, element)),
            final(self)@.len() == old(self)@.len() + 1,
    {
        self.root_node.insert(index, opid, element)
    }

    /// Appends `(opid, element)` at the end.
    pub fn push_back(&mut self, opid: OpId, element: T)
        requires
            old(self).wf(),
            old(self)@.len() < usize::MAX,
        ensures
            final(self).wf(),
            final(self)@ == old(self)@.push((opid, element)),
    {
        let l = self.len();
        self.insert(l, opid, element);
        proof {
            assert(self@ =~= old(self)@.push((opid, element)));
        }
    }

    /// The pair at `index`, with a copy of its `OpId`; `None` past the end.
    pub fn get(&self, index: usize) -> (r: Option<(OpId, &T)>)
        requires
            self.wf(),
        ensures
            index < self@.len() ==> {
                &&& r is Some
                &&& r.unwrap().0@ == self@[index as int].0@
                &&& *r.unwrap().1 == self@[index as int].1
            },
            index >= self@.len() ==> r is None,
    {
        self.root_node.get(index)
    }

    /// The pair at `index`, with a copy of its `OpId` and mutable access to its
    /// value; `None` past the end.
    pub fn get_mut(&mut self, index: usize) -> (r: Option<(OpId, &mut T)>)
        requires
            old(self).wf(),
        ensures
            index < old(self)@.len() ==> {
                &&& final(self).wf()
                &&& r is Some
                &&& r.unwrap().0@ == old(self)@[index as int].0@
                &&& *r.unwrap().1 == old(self)@[index as int].1
                &&& final(self)@ == old(self)@.update(
                    index as int,
                    (old(self)@[index as int].0, *final(r.unwrap().1)),
                )
            },
            index >= old(self)@.len() ==> r is None && *final(self) == *old(self),
    {
        self.root_node.get_mut(index)
    }

    /// Removes the pair at `index` and returns its value; the pairs after it move
    /// one position down.
    pub fn remove(&mut self, index: usize) -> (r: T)
        requires
            old(self).wf(),
            index < old(self)@.len(),
        ensures
            final(self).wf(),
            r == old(self)@[index as int].1,
            final(self)@ == old(self)@.remove(index as int),
            final(self)@.len() == old(self)@.len() - 1,
    {
        self.root_node.remove(index)
    }

    /// Replaces the value at `index`, keeping its `OpId`, and returns the old value.
    pub fn set(&mut self, index: usize, element: T) -> (r: T)
        requires
            old(self).wf(),
            index < old(self)@.len(),
        ensures
            final(self).wf(),
            r == old(self)@[index as int].1,
            final(self)@ == old(self)@.update(index as int, (old(self)@[index as int].0, element)),
            final(self)@.len() == old(self)@.len(),
    {
        self.root_node.set(index, element)
    }
}

/// The sequence left by inserting each pair of `pairs` in turn at position 0 of
/// an empty sequence.
pub open spec fn front_inserts<T>(pairs: Seq<(OpId, T)>) -> Seq<(OpId, T)>
    decreases pairs.len(),
{
    if pairs.len() == 0 {
        Seq::empty()
    } else {
        front_inserts(pairs.drop_last()).insert(0, pairs.last())
    }
}

/// The sequence left by appending each pair of `pairs` in turn to an empty
/// sequence.
pub open spec fn back_pushes<T>(pairs: Seq<(OpId, T)>) -> Seq<(OpId, T)>
    decreases pairs.len(),
{
    if pairs.len() == 0 {
        Seq::empty()
    } else {
        back_pushes(pairs.drop_last()).push(pairs.last())
    }
}

/// Inserting pairs one after another at the front leaves them in reverse order;
/// appending them leaves them in the order they came.
pub proof fn lemma_position_fidelity<T>(pairs: Seq<(OpId, T)>)
    ensures
        front_inserts(pairs).len() == pairs.len(),
        forall|i: int|
            0 <= i < pairs.len() ==> #[trigger] front_inserts(pairs)[i] == pairs[pairs.len() - 1
                - i],
        back_pushes(pairs) == pairs,
    decreases pairs.len(),
{
    if pairs.len() > 0 {
        let rest = pairs.drop_last();
        lemma_position_fidelity(rest);
        assert forall|i: int| 0 <= i < pairs.len() implies #[trigger] front_inserts(pairs)[i]
            == pairs[pairs.len() - 1 - i] by {
            if i > 0 {
                assert(front_inserts(pairs)[i] == front_inserts(rest)[i - 1]);
                assert(rest[rest.len() - 1 - (i - 1)] == pairs[pairs.len() - 1 - i]);
            }
        }
        assert(back_pushes(pairs) =~= pairs);
    }
}

/// Setting the value at `i` and then reading position `i` gives the new value
/// under the `OpId` that was there before; the length does not change.
pub proof fn lemma_set_then_get<T>(before: Seq<(OpId, T)>, i: int, v: T)
    requires
        0 <= i < before.len(),
    ensures
        ({
            let after = before.update(i, (before[i].0, v));
            &&& after.len() == before.len()
            &&& after[i].1 == v
            &&& after[i].0 == before[i].0
        }),
{
}

/// Removing position `i` drops exactly that pair: the length goes down by one,
/// the pairs before `i` stay where they were, and those after it move down by one.
pub proof fn lemma_remove_shifts<T>(before: Seq<(OpId, T)>, i: int)
    requires
        0 <= i < before.len(),
    ensures
        before.remove(i).len() == before.len() - 1,
        forall|j: int| 0 <= j < i ==> #[trigger] before.remove(i)[j] == before[j],
        forall|j: int| i <= j < before.len() - 1 ==> #[trigger] before.remove(i)[j] == before[j + 1],
{
}

/// A second pair inserted into a one-pair sequence comes first when inserted at
/// position 0 and second when inserted at position 1.
pub proof fn lemma_second_insert_order<T>(first: (OpId, T), second: (OpId, T))
    ensures
        seq![first].insert(0, second) == seq![second, first],
        seq![first].insert(1, second) == seq![first, second],
{
    assert(seq![first].insert(0, second) =~= seq![second, first]);
    assert(seq![first].insert(1, second) =~= seq![first, second]);
}

/// An insertion at `i` followed by a removal at `i` restores the sequence.
pub proof fn lemma_insert_then_remove<T>(before: Seq<(OpId, T)>, i: int, pair: (OpId, T))
    requires
        0 <= i <= before.len(),
    ensures
        before.insert(i, pair)[i] == pair,
        before.insert(i, pair).remove(i) == before,
{
    assert(before.insert(i, pair).remove(i) =~= before);
}

} // verus!
