//! The lookup from reference ids to reference names.

use vstd::prelude::*;

verus! {

/// The names of the reference sequences, in the order of their ids: the
/// reference with id `i` has the `i`-th name. Names are kept as bytes.
#[derive(Debug)]
pub struct ReferenceNames {
    names: Vec<Vec<u8>>,
}

impl View for ReferenceNames {
    type V = Seq<Seq<u8>>;

    closed spec fn view(&self) -> Seq<Seq<u8>> {
        byte_rows(self.names@)
    }
}

/// The contents of a list of byte strings.
pub open spec fn byte_rows(rows: Seq<Vec<u8>>) -> Seq<Seq<u8>> {
    rows.map_values(|row: Vec<u8>| row@)
}

/// The name that `names` holds for `reference_id`, if it holds one.
pub open spec fn name_of(names: Seq<Seq<u8>>, reference_id: nat) -> Option<Seq<u8>> {
    if reference_id < names.len() {
        Some(names[reference_id as int])
    } else {
        None
    }
}

impl ReferenceNames {
    /// A table without names.
    pub fn new() -> (table: ReferenceNames)
        ensures
            table@ == Seq::<Seq<u8>>::empty(),
    {
        let table = ReferenceNames { names: Vec::new() };
        assert(table@ =~= Seq::<Seq<u8>>::empty());
        table
    }

    /// A table that holds `names` in their order.
    pub fn from_names(names: Vec<Vec<u8>>) -> (table: ReferenceNames)
        ensures
            table@ == byte_rows(names@),
    {
        ReferenceNames { names }
    }

    /// Gives the next free id to `name`.
    pub fn push(&mut self, name: Vec<u8>)
        ensures
            final(self)@ == old(self)@.push(name@),
    {
        self.names.push(name);
        assert(self@ =~= old(self)@.push(name@));
    }

    /// The number of names, which is the smallest id without a name.
    pub fn len(&self) -> (n: usize)
        ensures
            n == self@.len(),
    {
        self.names.len()
    }

    /// Looks up the name of `reference_id`.
    pub fn resolve(&self, reference_id: u32) -> (name: Option<&Vec<u8>>)
        ensures
            match name {
                Some(bytes) => name_of(self@, reference_id as nat) == Some(bytes@),
                None => name_of(self@, reference_id as nat) is None,
            },
    {
        if (reference_id as usize) < self.names.len() {
            let bytes = &self.names[reference_id as usize];
            Some(bytes)
        } else {
            None
        }
    }
}

} // verus!
