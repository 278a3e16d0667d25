use crate::composite::{invalid_product, unexpected_reply, Reply, ReplyView, Statement, StatementView};
use crate::error::{error_of_backend, ErrorKind, StoreError, StoreErrorView};
use crate::listing::{
    group_by_product, map_product_models, pair_of_row, pairs_view, products_view, rows_of,
};
use crate::mappers::{map_product_model_to_product, product_of_row};
use crate::models::{
    joined_rows, product_rows, LinkRow, NewProductModel, NewProductRow, ProductModel, ProductRow,
    ProductVariantModel, VariantModel, VariantRow,
};
use crate::product_variant::ProductVariant;
use crate::variant::Variant;
use crate::product::{Product, ProductView};
use crate::tables::MAX_KEY;
use vstd::prelude::*;

verus! {

/// The error for a key that no product has.
pub open spec fn not_found() -> StoreErrorView {
    StoreErrorView { kind: ErrorKind::NotFound, detail: "no product has this key"@ }
}

/// The error for a key that no product has.
pub fn product_not_found() -> (error: StoreError)
    ensures
        error@ == not_found(),
{
    StoreError::new(ErrorKind::NotFound, "no product has this key".to_owned())
}

/// The key of an entity as a row has it, or `None` where no row can have
/// such a key.
pub fn stored_key(id: u32) -> (key: Option<i32>)
    ensures
        key == if id <= MAX_KEY {
            Some(id as i32)
        } else {
            None
        },
{
    if id <= MAX_KEY as u32 {
        Some(id as i32)
    } else {
        None
    }
}

/// The statement that stores one product, or the error for a product that
/// breaks a field constraint.
pub open spec fn creation(product: ProductView) -> Result<StatementView, StoreErrorView> {
    if product.valid() {
        Ok(
            StatementView::InsertProduct(
                NewProductRow { name: product.name, cost: product.cost, active: product.active },
            ),
        )
    } else {
        Err(invalid_product())
    }
}

/// What storing one product returns once the backend has answered: the
/// product that the new row stands for, the failure that the backend
/// reported, or the error for an answer that does not belong here.
pub open spec fn created(reply: ReplyView) -> Result<ProductView, StoreErrorView> {
    match reply {
        ReplyView::ProductInserted(row) => Ok(product_of_row(row)),
        ReplyView::Failed(error) => Err(error),
        _ => Err(unexpected_reply()),
    }
}

/// The view of what storing one product may return.
pub open spec fn creation_view(result: Result<Statement, StoreError>) -> Result<
    StatementView,
    StoreErrorView,
> {
    match result {
        Ok(statement) => Ok(statement@),
        Err(error) => Err(error@),
    }
}

/// The view of a product or an error.
pub open spec fn product_result_view(result: Result<Product, StoreError>) -> Result<
    ProductView,
    StoreErrorView,
> {
    match result {
        Ok(product) => Ok(product@),
        Err(error) => Err(error@),
    }
}

/// Says how one product is stored: checks its field constraints, before
/// anything is written, and hands out the statement for the backend. A key
/// that the product brings along is not used.
pub fn create_product_statement(product: &Product) -> (result: Result<Statement, StoreError>)
    ensures
        creation_view(result) == creation(product@),
{
    if product.is_valid() {
        Ok(
            Statement::InsertProduct(
                NewProductModel {
                    name: product.name().to_owned(),
                    cost: product.cost(),
                    active: product.active(),
                },
            ),
        )
    } else {
        Err(
            StoreError::new(
                ErrorKind::Validation,
                "a product needs a name and a cost that is not negative".to_owned(),
            ),
        )
    }
}

/// Takes the answer of the backend to the statement that stores one product.
pub fn created_product(reply: Reply) -> (result: Result<Product, StoreError>)
    ensures
        product_result_view(result) == created(reply@),
{
    match reply {
        Reply::ProductInserted(row) => Ok(map_product_model_to_product(row)),
        Reply::Failed(error) => Err(error),
        _ => Err(
            StoreError::new(
                ErrorKind::Persistence,
                "the answer of the backend does not fit the statement".to_owned(),
            ),
        ),
    }
}

/// The answer that a relational backend gave to the statement that stores a
/// product. A row is handed on as it is, and an error of the backend as the
/// error of the store that it is reported as.
pub fn product_reply(result: Result<ProductModel, diesel::result::Error>) -> (reply: Reply)
    ensures
        match result {
            Ok(row) => reply@ == ReplyView::ProductInserted(row@),
            Err(cause) => reply@ == ReplyView::Failed(error_of_backend(cause)),
        },
{
    match result {
        Ok(row) => Reply::ProductInserted(row),
        Err(error) => Reply::Failed(StoreError::from_backend(&error)),
    }
}

/// The answer that a relational backend gave to the lookup of a variant by
/// name: the first of the rows, if there is one.
pub fn lookup_reply(result: Result<Vec<VariantModel>, diesel::result::Error>) -> (reply: Reply)
    ensures
        match result {
            Ok(rows) => reply@ == ReplyView::VariantLookup(
                if rows.len() > 0 {
                    Some(rows[0]@)
                } else {
                    None
                },
            ),
            Err(cause) => reply@ == ReplyView::Failed(error_of_backend(cause)),
        },
{
    match result {
        Ok(rows) => {
            if rows.len() > 0 {
                Reply::VariantLookup(Some(crate::models::copy_variant(&rows[0])))
            } else {
                Reply::VariantLookup(None)
            }
        },
        Err(error) => Reply::Failed(StoreError::from_backend(&error)),
    }
}

/// The answer that a relational backend gave to the statement that stores a
/// variant.
pub fn variant_reply(result: Result<VariantModel, diesel::result::Error>) -> (reply: Reply)
    ensures
        match result {
            Ok(row) => reply@ == ReplyView::VariantInserted(row@),
            Err(cause) => reply@ == ReplyView::Failed(error_of_backend(cause)),
        },
{
    match result {
        Ok(row) => Reply::VariantInserted(row),
        Err(error) => Reply::Failed(StoreError::from_backend(&error)),
    }
}

/// The answer that a relational backend gave to the statement that stores a
/// link. The number of rows that it reports is of no interest.
pub fn link_reply(result: Result<usize, diesel::result::Error>) -> (reply: Reply)
    ensures
        match result {
            Ok(_) => reply@ == ReplyView::LinkInserted,
            Err(cause) => reply@ == ReplyView::Failed(error_of_backend(cause)),
        },
{
    match result {
        Ok(_) => Reply::LinkInserted,
        Err(error) => Reply::Failed(StoreError::from_backend(&error)),
    }
}

/// The products that a relational backend loaded, one for one and in
/// their order, or the error that its failure is reported as.
pub fn listed_products(result: Result<Vec<ProductModel>, diesel::result::Error>) -> (listed: Result<
    Vec<Product>,
    StoreError,
>)
    ensures
        match result {
            Ok(rows) => listed matches Ok(products) && products_view(products@) == product_rows(
                rows@,
            ).map_values(|row: ProductRow| product_of_row(row)),
            Err(cause) => listed matches Err(error) && error@ == error_of_backend(cause),
        },
{
    match result {
        Ok(rows) => Ok(map_product_models(rows)),
        Err(error) => Err(StoreError::from_backend(&error)),
    }
}

/// The links with their variants that a relational backend loaded for the
/// given products, put together with the products they belong to, or the
/// error that its failure is reported as.
pub fn listed_with_variants(
    products: Vec<ProductModel>,
    result: Result<Vec<(ProductVariantModel, VariantModel)>, diesel::result::Error>,
) -> (listed: Result<Vec<(Product, Vec<(ProductVariant, Variant)>)>, StoreError>)
    ensures
        match result {
            Ok(rows) => listed matches Ok(groups) && groups.len() == products.len() && forall|
                i: int,
            |
                0 <= i < groups.len() ==> (#[trigger] groups[i]).0@ == product_of_row(
                    products[i]@,
                ) && pairs_view(groups[i].1@) == rows_of(
                    joined_rows(rows@),
                    product_rows(products@),
                    i,
                ).map_values(|row: (LinkRow, VariantRow)| pair_of_row(row)),
            Err(cause) => listed matches Err(error) && error@ == error_of_backend(cause),
        },
{
    match result {
        Ok(rows) => Ok(group_by_product(products, rows)),
        Err(error) => Err(StoreError::from_backend(&error)),
    }
}

/// The product that a relational backend found for a key, or the error that
/// its failure is reported as.
pub fn found_product(result: Result<ProductModel, diesel::result::Error>) -> (found: Result<
    Product,
    StoreError,
>)
    ensures
        match result {
            Ok(row) => found matches Ok(product) && product@ == product_of_row(row@),
            Err(cause) => found matches Err(error) && error@ == error_of_backend(cause),
        },
{
    match result {
        Ok(row) => Ok(map_product_model_to_product(row)),
        Err(error) => Err(StoreError::from_backend(&error)),
    }
}

} // verus!
