use crate::composite::{ReplyView, StatementView};
use crate::error::{ErrorKind, StoreErrorView};
use crate::models::VariantRow;
use crate::tables::{product_row, Tables, MAX_KEY};
use vstd::prelude::*;

verus! {

/// The error for a row that cannot be made because no key is left for it.
pub open spec fn keys_exhausted() -> StoreErrorView {
    StoreErrorView { kind: ErrorKind::Persistence, detail: "no key is left for the row"@ }
}

/// The error for a variant whose name another variant has.
pub open spec fn duplicate_variant() -> StoreErrorView {
    StoreErrorView { kind: ErrorKind::Conflict, detail: "a variant with this name exists"@ }
}

/// The error for a link that names a product or a variant that is not there.
pub open spec fn missing_parent() -> StoreErrorView {
    StoreErrorView {
        kind: ErrorKind::Conflict,
        detail: "the product or the variant of the link does not exist"@,
    }
}

/// What a backend that keeps its constraints does with a statement: the
/// tables afterwards, and its answer. A statement that fails changes
/// nothing. A product or a variant gets the next key, unless none is left. A
/// variant is refused where its name is taken, and a link where its product
/// or its variant does not exist.
pub open spec fn answer(tables: Tables, statement: StatementView) -> (Tables, ReplyView) {
    match statement {
        StatementView::InsertProduct(new) => {
            if tables.next_product_id <= MAX_KEY {
                (
                    tables.insert_product(new),
                    ReplyView::ProductInserted(product_row(tables.next_product_id, new)),
                )
            } else {
                (tables, ReplyView::Failed(keys_exhausted()))
            }
        },
        StatementView::FindVariant(name) => (
            tables,
            ReplyView::VariantLookup(tables.find_variant(name)),
        ),
        StatementView::InsertVariant(name) => {
            if tables.has_variant_named(name) {
                (tables, ReplyView::Failed(duplicate_variant()))
            } else if tables.next_variant_id <= MAX_KEY {
                (
                    tables.insert_variant(name),
                    ReplyView::VariantInserted(VariantRow { id: tables.next_variant_id, name }),
                )
            } else {
                (tables, ReplyView::Failed(keys_exhausted()))
            }
        },
        StatementView::InsertLink(link) => {
            if tables.has_product(link.product_id) && tables.has_variant(link.variant_id) {
                (tables.insert_link(link), ReplyView::LinkInserted)
            } else {
                (tables, ReplyView::Failed(missing_parent()))
            }
        },
    }
}

/// A product that the tables have is still there after rows were added.
pub proof fn lemma_product_stays(before: Tables, after: Tables, id: int)
    requires
        before.has_product(id),
        before.products.len() <= after.products.len(),
        after.products.take(before.products.len() as int) == before.products,
    ensures
        after.has_product(id),
{
    let i = before.product_index(id);
    assert(after.products.take(before.products.len() as int)[i] == after.products[i]);
    assert(after.products[i].id == id);
}

/// A variant that the tables have is still there after rows were added.
pub proof fn lemma_variant_stays(before: Tables, after: Tables, id: int)
    requires
        before.has_variant(id),
        before.variants.len() <= after.variants.len(),
        after.variants.take(before.variants.len() as int) == before.variants,
    ensures
        after.has_variant(id),
{
    let i = before.variant_index(id);
    assert(after.variants.take(before.variants.len() as int)[i] == after.variants[i]);
    assert(after.variants[i].id == id);
}

/// Whatever statement is run, and in whatever order the statements of
/// several writers arrive, the tables keep their constraints: above all, no
/// two variants ever have the same name.
pub proof fn lemma_answer_keeps_constraints(tables: Tables, statement: StatementView)
    requires
        tables.wf(),
    ensures
        answer(tables, statement).0.wf(),
{
    let after = answer(tables, statement).0;
    assert(tables.products.take(tables.products.len() as int) == tables.products);
    assert(tables.variants.take(tables.variants.len() as int) == tables.variants);
    assert(tables.products.len() <= after.products.len() && after.products.take(
        tables.products.len() as int,
    ) == tables.products);
    assert(tables.variants.len() <= after.variants.len() && after.variants.take(
        tables.variants.len() as int,
    ) == tables.variants);
    assert forall|k: int| 0 <= k < after.links.len() implies after.has_product(
        (#[trigger] after.links[k]).product_id,
    ) && after.has_variant(after.links[k].variant_id) by {
        let link = after.links[k];
        if k < tables.links.len() {
            assert(link == tables.links[k]);
            lemma_product_stays(tables, after, link.product_id);
            lemma_variant_stays(tables, after, link.variant_id);
        }
    }
    match statement {
        StatementView::InsertVariant(name) => {
            if !tables.has_variant_named(name) && tables.next_variant_id <= MAX_KEY {
                assert forall|i: int, j: int| 0 <= i < j < after.variants.len() implies (
                #[trigger] after.variants[i]).name != (#[trigger] after.variants[j]).name by {
                    if j == tables.variants.len() {
                        assert(tables.variants[i].name != name);
                    }
                }
            }
        },
        _ => {},
    }
}

} // verus!
