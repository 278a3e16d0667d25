use vstd::prelude::*;

verus! {

/// The view of a value that may be absent.
pub open spec fn value_view(value: Option<String>) -> Option<Seq<char>> {
    match value {
        Some(s) => Some(s@),
        None => None,
    }
}

/// What a [`ProductVariant`] holds, as mathematical values.
pub struct ProductVariantView {
    pub product_id: int,
    pub variant_id: int,
    pub value: Option<Seq<char>>,
}

/// One value that a product has for one variant. A product with several
/// values for a variant has one of these for each.
#[derive(Debug)]
pub struct ProductVariant {
    product_id: i32,
    variant_id: i32,
    value: Option<String>,
}

impl View for ProductVariant {
    type V = ProductVariantView;

    closed spec fn view(&self) -> ProductVariantView {
        ProductVariantView {
            product_id: self.product_id as int,
            variant_id: self.variant_id as int,
            value: value_view(self.value),
        }
    }
}

impl ProductVariant {
    pub fn new(product_id: i32, variant_id: i32, value: Option<String>) -> (pv: Self)
        ensures
            pv@ == (ProductVariantView {
                product_id: product_id as int,
                variant_id: variant_id as int,
                value: value_view(value),
            }),
    {
        ProductVariant { product_id, variant_id, value }
    }

    pub fn product_id(&self) -> (id: i32)
        ensures
            id == self@.product_id,
    {
        self.product_id
    }

    pub fn variant_id(&self) -> (id: i32)
        ensures
            id == self@.variant_id,
    {
        self.variant_id
    }

    pub fn value(&self) -> (value: &Option<String>)
        ensures
            value_view(*value) == self@.value,
    {
        &self.value
    }
}

} // verus!
