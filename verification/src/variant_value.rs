use crate::product_variant::value_view;
use crate::variant::{Variant, VariantView};
use vstd::prelude::*;

verus! {

/// The views of a sequence of values, each of which may be absent.
pub open spec fn values_view(values: Seq<Option<String>>) -> Seq<Option<Seq<char>>> {
    values.map_values(|v: Option<String>| value_view(v))
}

/// What a [`VariantValue`] holds, as mathematical values.
pub struct VariantValueView {
    pub variant: VariantView,
    pub values: Seq<Option<Seq<char>>>,
}

/// A variant together with the values that a product is to have for it, in
/// the order given. A value may occur more than once.
#[derive(Clone, Debug)]
pub struct VariantValue {
    variant: Variant,
    values: Vec<Option<String>>,
}

impl View for VariantValue {
    type V = VariantValueView;

    closed spec fn view(&self) -> VariantValueView {
        VariantValueView { variant: self.variant@, values: values_view(self.values@) }
    }
}

impl VariantValue {
    pub fn new(variant: Variant, values: Vec<Option<String>>) -> (vv: VariantValue)
        ensures
            vv@ == (VariantValueView { variant: variant@, values: values_view(values@) }),
    {
        VariantValue { variant, values }
    }

    pub fn variant(&self) -> (variant: &Variant)
        ensures
            variant@ == self@.variant,
    {
        &self.variant
    }

    pub fn values(&self) -> (values: &Vec<Option<String>>)
        ensures
            values_view(values@) == self@.values,
    {
        &self.values
    }
}

} // verus!
