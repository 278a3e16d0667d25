use crate::backend::{
    answer, keys_exhausted, lemma_answer_keeps_constraints, lemma_product_stays,
};
use crate::complete_product::CompleteProductView;
use crate::composite::{
    advance, begin, invalid_product, link_or_seek, CompositeWriteView, Stage, StatementView,
    StepView,
};
use crate::error::StoreErrorView;
use crate::models::NewProductRow;
use crate::product_variant::ProductVariantView;
use crate::tables::{Tables, MAX_KEY};
use crate::variant_value::VariantValueView;
use vstd::prelude::*;

verus! {

/// What is stored for the product of a composite write.
pub open spec fn new_row(input: CompleteProductView) -> NewProductRow {
    NewProductRow {
        name: input.product.name,
        cost: input.product.cost,
        active: input.product.active,
    }
}

/// The tables after the product and the first `count` groups of a composite
/// write were stored.
pub open spec fn after_groups(start: Tables, input: CompleteProductView, count: int) -> Tables {
    start.insert_product(new_row(input)).add_groups(
        start.next_product_id,
        input.variants.take(count),
    )
}

/// The statement that a composite write is waiting for the answer to.
pub open spec fn pending(write: CompositeWriteView) -> StatementView {
    let group = write.input.variants[write.group];
    match write.stage {
        Stage::Product => StatementView::InsertProduct(new_row(write.input)),
        Stage::Lookup => StatementView::FindVariant(group.variant.name),
        Stage::Variant => StatementView::InsertVariant(group.variant.name),
        Stage::Link => StatementView::InsertLink(
            ProductVariantView {
                product_id: write.product_id,
                variant_id: write.variant_id,
                value: group.values[write.value],
            },
        ),
    }
}

/// The tables that a composite write has brought about when it waits for an
/// answer, if the backend kept its constraints and nobody else wrote.
pub open spec fn reached(start: Tables, write: CompositeWriteView) -> Tables {
    let group = write.input.variants[write.group];
    let base = after_groups(start, write.input, write.group);
    match write.stage {
        Stage::Product => start,
        Stage::Lookup | Stage::Variant => base,
        Stage::Link => base.resolve_variant(group.variant.name).add_links(
            write.product_id,
            write.variant_id,
            group.values.take(write.value),
        ),
    }
}

/// Whether `after` holds all the rows of `before`, in their places, and
/// perhaps more behind them.
pub open spec fn extends(before: Tables, after: Tables) -> bool {
    &&& before.products.len() <= after.products.len()
    &&& after.products.take(before.products.len() as int) =~= before.products
    &&& before.variants.len() <= after.variants.len()
    &&& after.variants.take(before.variants.len() as int) =~= before.variants
    &&& before.links.len() <= after.links.len()
    &&& after.links.take(before.links.len() as int) =~= before.links
}

/// Whether a composite write that started on the tables `start` and has
/// come to `step`, with the tables now being `tables`, is where it should be.
/// While it runs, the tables are those that it should have reached. Where it
/// commits, all of it is stored and the key of the product is the result.
/// Where it rolls back, the product was not valid or the keys did not
/// suffice.
pub open spec fn on_track(
    start: Tables,
    input: CompleteProductView,
    tables: Tables,
    step: StepView,
) -> bool {
    match step {
        StepView::Run(write, statement) => {
            let name = input.variants[write.group].variant.name;
            &&& write.input == input
            &&& write.wf()
            &&& statement == pending(write)
            &&& tables == reached(start, write)
            &&& input.product.valid()
            &&& write.stage != Stage::Product ==> write.product_id == start.next_product_id
                && start.next_product_id <= MAX_KEY
            &&& write.stage == Stage::Variant ==> !tables.has_variant_named(name)
            &&& write.stage == Stage::Link ==> write.variant_id == after_groups(
                start,
                input,
                write.group,
            ).resolved_key(name)
        },
        StepView::Commit(id) => {
            &&& input.product.valid()
            &&& start.composite_fits(input)
            &&& id == start.next_product_id
            &&& tables == start.composite_write(input)
        },
        StepView::Rollback(error) => {
            if input.product.valid() {
                !start.composite_fits(input) && error == keys_exhausted()
            } else {
                tables == start && error == invalid_product()
            }
        },
    }
}

/// How many groups a composite write still has to store, the product
/// counting as one more.
pub open spec fn groups_left(step: StepView) -> int {
    match step {
        StepView::Run(write, _) => if write.stage == Stage::Product {
            (write.input.variants.len() + 1) as int
        } else {
            write.input.variants.len() - write.group
        },
        _ => 0,
    }
}

/// How many answers a composite write still needs before it links the
/// values of its current group.
pub open spec fn answers_left(step: StepView) -> int {
    match step {
        StepView::Run(write, _) => match write.stage {
            Stage::Lookup => 2,
            Stage::Variant => 1,
            _ => 0,
        },
        _ => 0,
    }
}

/// How many values of its current group a composite write still has to
/// link.
pub open spec fn values_left(step: StepView) -> int {
    match step {
        StepView::Run(write, _) => if write.stage == Stage::Link {
            write.input.variants[write.group].values.len() - write.value
        } else {
            0
        },
        _ => 0,
    }
}

/// What storing a product with its groups returns: the key of the product,
/// or the error for a product that is not valid, or else the error for keys
/// that do not suffice.
pub open spec fn composite_result(tables: Tables, input: CompleteProductView) -> Result<
    int,
    StoreErrorView,
> {
    if !input.product.valid() {
        Err(invalid_product())
    } else if !tables.composite_fits(input) {
        Err(keys_exhausted())
    } else {
        Ok(tables.next_product_id)
    }
}

/// A statement only ever adds rows behind those that are there.
pub proof fn lemma_answer_extends(tables: Tables, statement: StatementView)
    ensures
        extends(tables, answer(tables, statement).0),
{
    let after = answer(tables, statement).0;
}

pub proof fn lemma_extends_transitive(a: Tables, b: Tables, c: Tables)
    requires
        extends(a, b),
        extends(b, c),
    ensures
        extends(a, c),
{
}

/// Storing one more group comes after storing those before it.
pub proof fn lemma_add_groups_step(
    tables: Tables,
    product_id: int,
    groups: Seq<VariantValueView>,
    count: int,
)
    requires
        0 <= count < groups.len(),
    ensures
        tables.add_groups(product_id, groups.take(count + 1)) == tables.add_groups(
            product_id,
            groups.take(count),
        ).add_group(product_id, groups[count]),
{
    let upto = groups.take(count + 1);
    assert(upto.drop_last() =~= groups.take(count));
    assert(upto.last() == groups[count]);
}

/// Storing groups never takes a variant away, so the next key of a variant
/// never gets smaller.
pub proof fn lemma_keys_grow(
    tables: Tables,
    product_id: int,
    groups: Seq<VariantValueView>,
    count: int,
)
    requires
        0 <= count <= groups.len(),
    ensures
        tables.add_groups(product_id, groups.take(count)).next_variant_id <= tables.add_groups(
            product_id,
            groups,
        ).next_variant_id,
    decreases groups.len() - count,
{
    if count < groups.len() {
        lemma_keys_grow(tables, product_id, groups, count + 1);
        lemma_add_groups_step(tables, product_id, groups, count);
    } else {
        assert(groups.take(count) =~= groups);
    }
}

/// Linking one more value comes after linking those before it.
pub proof fn lemma_add_links_step(
    tables: Tables,
    product_id: int,
    variant_id: int,
    values: Seq<Option<Seq<char>>>,
    count: int,
)
    requires
        0 <= count < values.len(),
    ensures
        tables.add_links(product_id, variant_id, values.take(count + 1)) == tables.add_links(
            product_id,
            variant_id,
            values.take(count),
        ).insert_link(ProductVariantView { product_id, variant_id, value: values[count] }),
{
    let more = tables.add_links(product_id, variant_id, values.take(count + 1));
    let less = tables.add_links(product_id, variant_id, values.take(count)).insert_link(
        ProductVariantView { product_id, variant_id, value: values[count] },
    );
    assert(more.links =~= less.links);
}

/// Linking none of the values changes nothing.
pub proof fn lemma_add_links_none(
    tables: Tables,
    product_id: int,
    variant_id: int,
    values: Seq<Option<Seq<char>>>,
)
    ensures
        tables.add_links(product_id, variant_id, values.take(0)) == tables,
{
    assert(tables.add_links(product_id, variant_id, values.take(0)).links =~= tables.links);
}

/// The first step of a composite write is where it should be.
pub proof fn lemma_begin_on_track(start: Tables, input: CompleteProductView)
    ensures
        on_track(start, input, start, begin(input)),
{
}

/// Where a composite write has linked all the values of a group or goes on
/// to the next value, it is where it should be.
proof fn lemma_link_or_seek_on_track(
    start: Tables,
    input: CompleteProductView,
    tables: Tables,
    variant_id: int,
    group: int,
    value: int,
)
    requires
        start.wf(),
        tables.wf(),
        input.product.valid(),
        start.next_product_id <= MAX_KEY,
        0 <= group < input.variants.len(),
        0 <= value <= input.variants[group].values.len(),
        variant_id == after_groups(start, input, group).resolved_key(
            input.variants[group].variant.name,
        ),
        tables == after_groups(start, input, group).resolve_variant(
            input.variants[group].variant.name,
        ).add_links(start.next_product_id, variant_id, input.variants[group].values.take(value)),
    ensures
        on_track(
            start,
            input,
            tables,
            link_or_seek(input, start.next_product_id, variant_id, group, value),
        ),
{
    let values = input.variants[group].values;
    if value < values.len() {
    } else {
        assert(values.take(value) =~= values);
        lemma_add_groups_step(
            start.insert_product(new_row(input)),
            start.next_product_id,
            input.variants,
            group,
        );
        assert(tables == after_groups(start, input, group + 1));
        if group + 1 < input.variants.len() {
        } else {
        }
    }
}

/// A composite write that is where it should be stays so when the backend
/// runs its statement and the write takes the answer.
pub proof fn lemma_advance_on_track(
    start: Tables,
    input: CompleteProductView,
    tables: Tables,
    write: CompositeWriteView,
    statement: StatementView,
)
    requires
        start.wf(),
        tables.wf(),
        extends(start, tables),
        on_track(start, input, tables, StepView::Run(write, statement)),
    ensures
        on_track(
            start,
            input,
            answer(tables, statement).0,
            advance(write, answer(tables, statement).1),
        ),
{
    let (after, reply) = answer(tables, statement);
    let step = advance(write, reply);
    let product_id = start.next_product_id;
    let stored = start.insert_product(new_row(input));
    let group = input.variants[write.group];
    let name = group.variant.name;
    lemma_answer_keeps_constraints(tables, statement);
    match write.stage {
        Stage::Product => {
            if start.next_product_id <= MAX_KEY {
                assert(after == after_groups(start, input, 0));
                if input.variants.len() == 0 {
                }
            }
        },
        Stage::Lookup => {
            let base = after_groups(start, input, write.group);
            lemma_add_links_none(base.resolve_variant(name), product_id, base.resolved_key(name), group.values);
            match tables.find_variant(name) {
                Some(row) => {
                    lemma_link_or_seek_on_track(start, input, after, row.id, write.group, 0);
                },
                None => {},
            }
        },
        Stage::Variant => {
            let base = after_groups(start, input, write.group);
            if tables.next_variant_id <= MAX_KEY {
                lemma_add_links_none(
                    base.resolve_variant(name),
                    product_id,
                    base.resolved_key(name),
                    group.values,
                );
                lemma_link_or_seek_on_track(
                    start,
                    input,
                    after,
                    tables.next_variant_id,
                    write.group,
                    0,
                );
            } else {
                lemma_add_groups_step(stored, product_id, input.variants, write.group);
                lemma_keys_grow(stored, product_id, input.variants, write.group + 1);
                assert(after_groups(start, input, write.group + 1).next_variant_id
                    == tables.next_variant_id + 1);
            }
        },
        Stage::Link => {
            let base = after_groups(start, input, write.group);
            // The product and the variant of the link are there.
            assert(stored.products[start.products.len() as int].id == product_id);
            assert(stored.has_product(product_id));
            lemma_stored_extends(start, input, write.group);
            lemma_product_stays(stored, base, product_id);
            let resolved = base.resolve_variant(name);
            assert(resolved.has_variant(write.variant_id)) by {
                if base.has_variant_named(name) {
                    let i = base.variant_index_named(name);
                    assert(resolved.variants[i].id == write.variant_id);
                } else {
                    assert(resolved.variants[base.variants.len() as int].id == write.variant_id);
                }
            }
            assert(tables.products == base.products);
            assert(tables.variants == resolved.variants);
            assert(tables.has_product(product_id));
            assert(tables.has_variant(write.variant_id));
            lemma_add_links_step(resolved, product_id, write.variant_id, group.values, write.value);
            lemma_link_or_seek_on_track(
                start,
                input,
                after,
                write.variant_id,
                write.group,
                write.value + 1,
            );
        },
    }
}

/// The tables after some groups hold all that was there when the product
/// had just been stored.
pub proof fn lemma_stored_extends(start: Tables, input: CompleteProductView, count: int)
    requires
        0 <= count <= input.variants.len(),
    ensures
        extends(start.insert_product(new_row(input)), after_groups(start, input, count)),
    decreases count,
{
    let stored = start.insert_product(new_row(input));
    if count == 0 {
    } else {
        lemma_stored_extends(start, input, count - 1);
        lemma_add_groups_step(stored, start.next_product_id, input.variants, count - 1);
        let before = after_groups(start, input, count - 1);
        let after = after_groups(start, input, count);
        lemma_extends_transitive(stored, before, after);
    }
}

} // verus!
