use vstd::prelude::*;

verus! {

/// Identifies one body of a body set by the position at which it was inserted.
#[derive(Copy, Clone, Debug, PartialEq, Eq, Hash, Structural)]
pub struct BodyHandle(pub usize);

impl BodyHandle {
    /// The position this handle names, as a mathematical integer.
    pub open spec fn index_spec(self) -> int {
        self.0 as int
    }

    pub fn new(index: usize) -> (handle: BodyHandle)
        ensures
            handle.index_spec() == index,
            handle == BodyHandle(index),
    {
        BodyHandle(index)
    }

    /// The handle that stands for "no body": its index is the largest there is.
    pub fn invalid() -> (handle: BodyHandle)
        ensures
            handle.index_spec() == usize::MAX,
    {
        BodyHandle(usize::MAX)
    }

    pub fn index(&self) -> (index: usize)
        ensures
            index == self.index_spec(),
    {
        self.0
    }
}

impl std::ops::Deref for BodyHandle {
    type Target = usize;

    fn deref(&self) -> (index: &usize)
        ensures
            *index == self.index_spec(),
    {
        &self.0
    }
}

} // verus!
