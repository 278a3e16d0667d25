use crate::product::{Product, ProductView};
use crate::variant_value::{VariantValue, VariantValueView};
use vstd::prelude::*;

verus! {

/// The views of a sequence of variant groups.
pub open spec fn groups_view(groups: Seq<VariantValue>) -> Seq<VariantValueView> {
    groups.map_values(|g: VariantValue| g@)
}

/// What a [`CompleteProduct`] holds, as mathematical values.
pub struct CompleteProductView {
    pub product: ProductView,
    pub variants: Seq<VariantValueView>,
}

/// A product together with its variants and their values: what is handed
/// over to have all of it stored at once.
#[derive(Debug)]
pub struct CompleteProduct {
    product: Product,
    variants: Vec<VariantValue>,
}

impl View for CompleteProduct {
    type V = CompleteProductView;

    closed spec fn view(&self) -> CompleteProductView {
        CompleteProductView { product: self.product@, variants: groups_view(self.variants@) }
    }
}

impl CompleteProduct {
    pub fn new(product: Product, variants: Vec<VariantValue>) -> (cp: CompleteProduct)
        ensures
            cp@ == (CompleteProductView { product: product@, variants: groups_view(variants@) }),
    {
        Self { product, variants }
    }

    pub fn product(&self) -> (product: &Product)
        ensures
            product@ == self@.product,
    {
        &self.product
    }

    pub fn variants(&self) -> (variants: &[VariantValue])
        ensures
            groups_view(variants@) == self@.variants,
    {
        self.variants.as_slice()
    }
}

} // verus!
