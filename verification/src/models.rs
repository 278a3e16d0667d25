use crate::product_variant::{value_view, ProductVariantView};
use vstd::prelude::*;

verus! {

/// A row of the table of products, as mathematical values.
pub struct ProductRow {
    pub id: int,
    pub name: Seq<char>,
    pub cost: u64,
    pub active: bool,
}

/// What is handed over to have a row of the table of products made.
pub struct NewProductRow {
    pub name: Seq<char>,
    pub cost: u64,
    pub active: bool,
}

/// A row of the table of variants, as mathematical values.
pub struct VariantRow {
    pub id: int,
    pub name: Seq<char>,
}

/// A row of the table that links products to variants. The key of the row
/// itself is not part of it.
pub type LinkRow = ProductVariantView;

/// A stored product.
#[derive(Debug)]
pub struct ProductModel {
    pub id: i32,
    pub name: String,
    pub cost: u64,
    pub active: bool,
}

impl View for ProductModel {
    type V = ProductRow;

    open spec fn view(&self) -> ProductRow {
        ProductRow { id: self.id as int, name: self.name@, cost: self.cost, active: self.active }
    }
}

/// A product that is to be stored: it has no key yet.
#[derive(Debug)]
pub struct NewProductModel {
    pub name: String,
    pub cost: u64,
    pub active: bool,
}

impl View for NewProductModel {
    type V = NewProductRow;

    open spec fn view(&self) -> NewProductRow {
        NewProductRow { name: self.name@, cost: self.cost, active: self.active }
    }
}

/// A stored variant.
#[derive(Debug)]
pub struct VariantModel {
    pub id: i32,
    pub name: String,
}

impl View for VariantModel {
    type V = VariantRow;

    open spec fn view(&self) -> VariantRow {
        VariantRow { id: self.id as int, name: self.name@ }
    }
}

/// A variant that is to be stored: it has no key yet.
#[derive(Debug, Clone)]
pub struct NewVariantModel {
    pub name: String,
}

impl View for NewVariantModel {
    type V = Seq<char>;

    open spec fn view(&self) -> Seq<char> {
        self.name@
    }
}

/// A link between a product and a variant, with the value that the product
/// has for the variant, if one is recorded.
#[derive(Debug)]
pub struct ProductVariantModel {
    pub product_id: i32,
    pub variant_id: i32,
    pub value: Option<String>,
}

impl View for ProductVariantModel {
    type V = LinkRow;

    open spec fn view(&self) -> LinkRow {
        ProductVariantView {
            product_id: self.product_id as int,
            variant_id: self.variant_id as int,
            value: value_view(self.value),
        }
    }
}

/// The rows that stored products stand for.
pub open spec fn product_rows(models: Seq<ProductModel>) -> Seq<ProductRow> {
    models.map_values(|m: ProductModel| m@)
}

/// The rows that stored variants stand for.
pub open spec fn variant_rows(models: Seq<VariantModel>) -> Seq<VariantRow> {
    models.map_values(|m: VariantModel| m@)
}

/// The rows that stored links stand for.
pub open spec fn link_rows(models: Seq<ProductVariantModel>) -> Seq<LinkRow> {
    models.map_values(|m: ProductVariantModel| m@)
}

/// The rows that stored links with their variants stand for.
pub open spec fn joined_rows(models: Seq<(ProductVariantModel, VariantModel)>) -> Seq<
    (LinkRow, VariantRow),
> {
    models.map_values(|pair: (ProductVariantModel, VariantModel)| (pair.0@, pair.1@))
}

/// A copy of a stored product.
pub fn copy_product(model: &ProductModel) -> (copy: ProductModel)
    ensures
        copy@ == model@,
{
    ProductModel {
        id: model.id,
        name: model.name.clone(),
        cost: model.cost,
        active: model.active,
    }
}

/// A copy of a stored variant.
pub fn copy_variant(model: &VariantModel) -> (copy: VariantModel)
    ensures
        copy@ == model@,
{
    VariantModel { id: model.id, name: model.name.clone() }
}

/// A copy of a stored link.
pub fn copy_link(model: &ProductVariantModel) -> (copy: ProductVariantModel)
    ensures
        copy@ == model@,
{
    ProductVariantModel {
        product_id: model.product_id,
        variant_id: model.variant_id,
        value: match &model.value {
            Some(s) => Some(s.clone()),
            None => None,
        },
    }
}

} // verus!
