use crate::complete_product::CompleteProduct;
use crate::error::{ErrorKind, StoreError, StoreErrorView};
use crate::listing::{pair_of_row, pairs_view, products_view};
use crate::mappers::product_of_row;
use crate::models::{LinkRow, NewProductRow, ProductRow, VariantRow};
use crate::params::ListQueryParams;
use crate::product::{Product, ProductView};
use crate::product_variant::ProductVariant;
use crate::soundness::composite_result;
use crate::tables::{Tables, MAX_KEY};
use crate::variant::Variant;
use vstd::prelude::*;

verus! {

/// What a store of products offers, and what each operation does to the
/// rows of the store for every way in which it can end. When an operation
/// succeeds is for each store to say: a backend may fail at any time.
pub trait ProductDatastore {
    /// Whether the rows of the store are known and keep their constraints.
    /// Every operation starts from such a state and ends in one. A store
    /// whose rows are out of sight, as those of a database are, leaves this
    /// as it is: nothing is then stated of it.
    open spec fn wf(&self) -> bool {
        false
    }

    /// The rows that the store holds.
    open spec fn tables(&self) -> Tables {
        Tables::empty()
    }

    /// Stores one product and returns it as it was stored, with its key: the
    /// name, the cost and the flag are those that were handed over. A key
    /// that the product brings along is not used. Where the product is
    /// refused, nothing is stored, and the error is a failed validation
    /// exactly where the product breaks a field constraint.
    fn create_product(&mut self, product: Product) -> (result: Result<Product, StoreError>)
        requires
            old(self).wf(),
        ensures
            final(self).wf(),
            match result {
                Ok(created) => {
                    &&& product@.valid()
                    &&& old(self).tables().next_product_id <= MAX_KEY
                    &&& created@ == (ProductView {
                        id: Some(old(self).tables().next_product_id as u32),
                        name: product@.name,
                        cost: product@.cost,
                        active: product@.active,
                    })
                    &&& final(self).tables() == old(self).tables().insert_product(
                        NewProductRow {
                            name: product@.name,
                            cost: product@.cost,
                            active: product@.active,
                        },
                    )
                },
                Err(error) => {
                    &&& final(self).tables() == old(self).tables()
                    &&& error@.kind == ErrorKind::Validation <==> !product@.valid()
                },
            },
    ;

    /// Stores a product together with its variants and their values, all of
    /// it or nothing, and returns the key of the product. The groups are
    /// taken in their order: the variant of each is looked for by its exact
    /// name and stored only where there is none, and every value of the
    /// group is linked to it, as often as it occurs. Where the write fails,
    /// the rows are as they were, and the error is a failed validation
    /// exactly where the product breaks a field constraint.
    fn create_complete_product(&mut self, complete_product: CompleteProduct) -> (result: Result<
        i32,
        StoreError,
    >)
        requires
            old(self).wf(),
        ensures
            final(self).wf(),
            match result {
                Ok(id) => composite_result(old(self).tables(), complete_product@) == Ok::<
                    int,
                    StoreErrorView,
                >(id as int) && final(self).tables() == old(self).tables().composite_write(
                    complete_product@,
                ),
                Err(error) => final(self).tables() == old(self).tables() && (error@.kind
                    == ErrorKind::Validation <==> !complete_product@.product.valid()),
            },
    ;

    /// The product with this key. The rows stay as they are. Only where no
    /// product has the key is the error that of a row that was not found.
    fn get_product(&mut self, id: u32) -> (result: Result<Product, StoreError>)
        requires
            old(self).wf(),
        ensures
            final(self).wf(),
            final(self).tables() == old(self).tables(),
            match result {
                Ok(product) => old(self).tables().find_product(id as int) matches Some(row)
                    && product@ == product_of_row(row),
                Err(error) => error@.kind != ErrorKind::Validation && (error@.kind
                    == ErrorKind::NotFound ==> old(self).tables().find_product(id as int) is None),
            },
    ;

    /// The product with this key, with its links and their variants in the
    /// order in which the links were stored. The rows stay as they are. Only
    /// where no product has the key is the error that of a row that was not
    /// found.
    fn get_product_with_variants(&mut self, id: u32) -> (result: Result<
        (Product, Vec<(ProductVariant, Variant)>),
        StoreError,
    >)
        requires
            old(self).wf(),
        ensures
            final(self).wf(),
            final(self).tables() == old(self).tables(),
            match result {
                Ok(found) => old(self).tables().find_product(id as int) matches Some(row)
                    && found.0@ == product_of_row(row) && pairs_view(found.1@) == old(
                    self,
                ).tables().variants_of_product(id as int).map_values(
                    |row: (LinkRow, VariantRow)| pair_of_row(row),
                ),
                Err(error) => error@.kind != ErrorKind::Validation && (error@.kind
                    == ErrorKind::NotFound ==> old(self).tables().find_product(id as int) is None),
            },
    ;

    /// The products from `offset` on, at most `limit` of them, by ascending
    /// key. There are none where the offset is not below the number of
    /// products, or the limit is zero. The rows stay as they are.
    fn list_products(&mut self, params: ListQueryParams) -> (products: Vec<Product>)
        requires
            old(self).wf(),
        ensures
            final(self).wf(),
            final(self).tables() == old(self).tables(),
            products_view(products@) == old(self).tables().page(
                params.offset as nat,
                params.limit as nat,
            ).map_values(|row: ProductRow| product_of_row(row)),
    ;

    /// The products from `offset` on, at most `limit` of them, by ascending
    /// key, each with its links and their variants in the order in which
    /// the links were stored. A product without links comes with an empty
    /// sequence. The rows stay as they are.
    fn list_products_with_variants(&mut self, params: ListQueryParams) -> (result: Result<
        Vec<(Product, Vec<(ProductVariant, Variant)>)>,
        StoreError,
    >)
        requires
            old(self).wf(),
        ensures
            final(self).wf(),
            final(self).tables() == old(self).tables(),
            match result {
                Ok(listed) => listed.len() == old(self).tables().page(
                    params.offset as nat,
                    params.limit as nat,
                ).len() && forall|i: int|
                    0 <= i < listed.len() ==> (#[trigger] listed[i]).0@ == product_of_row(
                        old(self).tables().page(params.offset as nat, params.limit as nat)[i],
                    ) && pairs_view(listed[i].1@) == old(self).tables().variants_of_product(
                        old(self).tables().page(params.offset as nat, params.limit as nat)[i].id,
                    ).map_values(|row: (LinkRow, VariantRow)| pair_of_row(row)),
                Err(error) => error@.kind != ErrorKind::Validation,
            },
    ;
}

} // verus!
