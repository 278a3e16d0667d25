use crate::models::{ProductModel, ProductRow, ProductVariantModel, VariantModel, VariantRow};
use crate::product::{Product, ProductView};
use crate::product_variant::ProductVariant;
use crate::variant::{Variant, VariantView};
use vstd::prelude::*;

verus! {

/// A stored key as the unsigned number that the entities carry: the key
/// itself where it is not negative, and its two's complement otherwise.
pub open spec fn key_as_u32(id: int) -> u32 {
    if id >= 0 {
        id as u32
    } else {
        (id + 0x1_0000_0000) as u32
    }
}

/// The product that a stored row stands for.
pub open spec fn product_of_row(row: ProductRow) -> ProductView {
    ProductView { id: Some(key_as_u32(row.id)), name: row.name, cost: row.cost, active: row.active }
}

/// The variant that a stored row stands for.
pub open spec fn variant_of_row(row: VariantRow) -> VariantView {
    VariantView { id: Some(key_as_u32(row.id)), name: row.name }
}

/// Turns a stored key into the unsigned number that the entities carry.
pub fn key_to_u32(id: i32) -> (key: u32)
    ensures
        key == key_as_u32(id as int),
{
    if id >= 0 {
        id as u32
    } else {
        let wide: i64 = id as i64 + 0x1_0000_0000i64;
        wide as u32
    }
}

pub fn map_product_model_to_product(product_model: ProductModel) -> (product: Product)
    ensures
        product@ == product_of_row(product_model@),
{
    Product::new(
        product_model.name,
        product_model.cost,
        product_model.active,
        Some(key_to_u32(product_model.id)),
    )
}

pub fn map_product_variant_model_to_product_variant(
    product_variant_model: ProductVariantModel,
) -> (product_variant: ProductVariant)
    ensures
        product_variant@ == product_variant_model@,
{
    ProductVariant::new(
        product_variant_model.product_id,
        product_variant_model.variant_id,
        product_variant_model.value,
    )
}

pub fn map_variant_model_to_variant(variant_model: VariantModel) -> (variant: Variant)
    ensures
        variant@ == variant_of_row(variant_model@),
{
    Variant::new(variant_model.name, Some(key_to_u32(variant_model.id)))
}

pub fn map_product_and_variant_model_to_variant(model: (ProductVariantModel, VariantModel)) -> (pair:
    (ProductVariant, Variant))
    ensures
        pair.0@ == model.0@,
        pair.1@ == variant_of_row(model.1@),
{
    (map_product_variant_model_to_product_variant(model.0), map_variant_model_to_variant(model.1))
}

} // verus!
