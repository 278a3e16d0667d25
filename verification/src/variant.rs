use vstd::prelude::*;

verus! {

/// What a [`Variant`] holds, as mathematical values.
pub struct VariantView {
    pub id: Option<u32>,
    pub name: Seq<char>,
}

/// A kind of attribute that a product can carry, such as "size".
#[derive(Clone, Debug)]
pub struct Variant {
    id: Option<u32>,
    name: String,
}

impl View for Variant {
    type V = VariantView;

    closed spec fn view(&self) -> VariantView {
        VariantView { id: self.id, name: self.name@ }
    }
}

impl Variant {
    pub fn new(name: String, id: Option<u32>) -> (v: Variant)
        ensures
            v@ == (VariantView { id, name: name@ }),
    {
        Variant { name, id }
    }

    pub fn id(&self) -> (id: Option<u32>)
        ensures
            id == self@.id,
    {
        self.id
    }

    pub fn name(&self) -> (name: &str)
        ensures
            name@ == self@.name,
    {
        self.name.as_str()
    }
}

} // verus!
