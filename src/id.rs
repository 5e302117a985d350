use vstd::prelude::*;

verus! {

/// The identifier of a span: a nonzero number, compared by value.
#[derive(Debug, Clone, Copy, PartialEq, Eq, Structural, Hash)]
pub struct SerializeId {
    id: u64,
}

impl View for SerializeId {
    type V = u64;

    closed spec fn view(&self) -> u64 {
        self.id
    }
}

impl SerializeId {
    #[verifier::type_invariant]
    spec fn nonzero(self) -> bool {
        self.id != 0
    }

    /// An identifier for `id`; zero identifies nothing.
    pub fn new(id: u64) -> (r: Option<SerializeId>)
        ensures
            r is Some <==> id != 0,
            r matches Some(x) ==> x@ == id,
    {
        if id == 0 {
            None
        } else {
            Some(SerializeId { id })
        }
    }

    /// The number, never zero.
    pub fn get(&self) -> (r: u64)
        ensures
            r == self@,
            r != 0,
    {
        proof {
            use_type_invariant(self);
        }
        self.id
    }

    pub fn to_owned(&self) -> (r: Self)
        ensures
            r == *self,
    {
        *self
    }
}

} // verus!
