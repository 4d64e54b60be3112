use vstd::prelude::*;

use crate::handle::BodyHandle;

verus! {

/// One entry of a body set: the body's state, and whether its mass is finite.
///
/// A body of infinite mass is an anchor: nothing that goes through the set
/// can change its state.
pub struct Slot<B> {
    pub body: B,
    pub finite_mass: bool,
}

/// An append-only sequence of bodies, addressed by insertion index.
///
/// The set is generic in the body's state, which it stores and hands out but
/// never inspects.
pub struct BodySet<B> {
    slots: Vec<Slot<B>>,
}

impl<B> View for BodySet<B> {
    type V = Seq<Slot<B>>;

    closed spec fn view(&self) -> Seq<Slot<B>> {
        self.slots@
    }
}

impl<B> BodySet<B> {
    /// Whether `handle` names a body of this set.
    pub open spec fn contains_spec(&self, handle: BodyHandle) -> bool {
        handle.index_spec() < self@.len()
    }

    /// Whether every anchor of `self` is present in `other` with the same state.
    pub open spec fn anchors_kept_by(&self, other: &BodySet<B>) -> bool {
        forall|i: int|
            0 <= i < self@.len() && !(#[trigger] self@[i]).finite_mass ==> i < other@.len()
                && other@[i] == self@[i]
    }

    pub fn new() -> (set: BodySet<B>)
        ensures
            set@ == Seq::<Slot<B>>::empty(),
    {
        BodySet { slots: Vec::new() }
    }

    pub fn len(&self) -> (len: usize)
        ensures
            len == self@.len(),
    {
        self.slots.len()
    }

    pub fn contains(&self, handle: BodyHandle) -> (found: bool)
        ensures
            found == self.contains_spec(handle),
    {
        handle.index() < self.slots.len()
    }

    /// Appends a body. Its handle is the number of bodies that were there
    /// before, and every earlier handle goes on naming the same body.
    pub fn add(&mut self, body: B, finite_mass: bool) -> (handle: BodyHandle)
        ensures
            handle.index_spec() == old(self)@.len(),
            final(self)@ == old(self)@.push(Slot { body, finite_mass }),
            final(self).contains_spec(handle),
            forall|h: BodyHandle| #[trigger]
                old(self).contains_spec(h) ==> final(self).contains_spec(h) && final(self)@[h.index_spec()]
                    == old(self)@[h.index_spec()],
            old(self).anchors_kept_by(final(self)),
    {
        let index: usize = self.slots.len();
        self.slots.push(Slot { body, finite_mass });
        BodyHandle::new(index)
    }

    pub fn has_finite_mass(&self, i: usize) -> (finite: bool)
        requires
            i < self@.len(),
        ensures
            finite == self@[i as int].finite_mass,
    {
        self.slots[i].finite_mass
    }

    pub fn body(&self, i: usize) -> (body: &B)
        requires
            i < self@.len(),
        ensures
            *body == self@[i as int].body,
    {
        &self.slots[i].body
    }

    /// Lends out body `i` for writing if its mass is finite; an anchor is not
    /// lent out. Whatever the borrower writes, the set keeps its length, every
    /// other body and every mass flag.
    pub fn body_mut(&mut self, i: usize) -> (body: Option<&mut B>)
        requires
            i < old(self)@.len(),
        ensures
            body.is_some() == old(self)@[i as int].finite_mass,
            body.is_none() ==> final(self)@ == old(self)@,
            body.is_some() ==> {
                &&& *body.unwrap() == old(self)@[i as int].body
                &&& final(self)@ == old(self)@.update(
                    i as int,
                    (Slot { body: *final(body.unwrap()), finite_mass: true }),
                )
            },
            old(self).anchors_kept_by(final(self)),
    {
        if self.slots[i].finite_mass {
            Some(&mut self.slots[i].body)
        } else {
            None
        }
    }
}

/// Anchors stay as they are over any run of operations: if every anchor of
/// `first` is unchanged in `second`, and every anchor of `second` is unchanged
/// in `third`, then every anchor of `first` is unchanged in `third`.
pub proof fn lemma_anchors_kept_transitive<B>(
    first: &BodySet<B>,
    second: &BodySet<B>,
    third: &BodySet<B>,
)
    requires
        first.anchors_kept_by(second),
        second.anchors_kept_by(third),
    ensures
        first.anchors_kept_by(third),
{
    assert forall|i: int| 0 <= i < first@.len() && !(#[trigger] first@[i]).finite_mass implies i
        < third@.len() && third@[i] == first@[i] by {
        assert(second@[i] == first@[i]);
        assert(!second@[i].finite_mass);
    }
}

impl<B> Default for BodySet<B> {
    fn default() -> (set: BodySet<B>)
        ensures
            set@ == Seq::<Slot<B>>::empty(),
    {
        BodySet::new()
    }
}

} // verus!
