use vstd::prelude::*;

verus! {

/// The arena type of the `typed_arena` crate, carried as an opaque value.
#[verifier::external_type_specification]
#[verifier::external_body]
#[verifier::reject_recursive_types(T)]
pub struct ExTypedArena<T>(typed_arena::Arena<T>);

/// The values allocated so far in a `typed_arena` arena of units.
pub uninterp spec fn arena_items(a: typed_arena::Arena<()>) -> Seq<()>;

/// Calls `typed_arena::Arena::new`, which builds an arena whose chunk list
/// holds one empty chunk and no earlier chunks: nothing is allocated in it.
#[verifier::external_body]
fn new_unit_arena() -> (a: typed_arena::Arena<()>)
    ensures
        arena_items(a) == Seq::<()>::empty(),
{
    typed_arena::Arena::new()
}

/// Storage for tree nodes; for now it only holds an arena of units.
pub struct NodeArena {
    placeholder: typed_arena::Arena<()>,
}

impl View for NodeArena {
    type V = Seq<()>;

    closed spec fn view(&self) -> Seq<()> {
        arena_items(self.placeholder)
    }
}

impl NodeArena {
    pub fn new() -> (a: Self)
        ensures
            a@ == Seq::<()>::empty(),
    {
        NodeArena { placeholder: new_unit_arena() }
    }
}

impl Default for NodeArena {
    fn default() -> (a: Self)
        ensures
            a@ == Seq::<()>::empty(),
    {
        Self::new()
    }
}

} // verus!
