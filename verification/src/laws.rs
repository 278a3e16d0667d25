use crate::backend::{answer, duplicate_variant, lemma_answer_keeps_constraints};
use crate::complete_product::CompleteProductView;
use crate::composite::{
    advance, CompositeWriteView, ReplyView, Stage, StatementView, StepView,
};
use crate::error::{ErrorKind, StoreErrorView};
use crate::models::{LinkRow, VariantRow};
use crate::soundness::{
    after_groups, extends, lemma_add_groups_step, lemma_extends_transitive, new_row, pending,
};
use crate::tables::{links_for, total_values, Tables};
use crate::variant_value::VariantValueView;
use vstd::prelude::*;

verus! {

/// Where no two variants have the same name, a name is that of one variant
/// or of none.
pub proof fn lemma_count_named(tables: Tables, name: Seq<char>)
    requires
        tables.names_unique(),
    ensures
        tables.count_variants_named(name) == if tables.has_variant_named(name) {
            1nat
        } else {
            0nat
        },
    decreases tables.variants.len(),
{
    if tables.variants.len() > 0 {
        let front = Tables { variants: tables.variants.drop_last(), ..tables };
        let last = tables.variants.len() - 1;
        assert forall|i: int, j: int| 0 <= i < j < front.variants.len() implies (
        #[trigger] front.variants[i]).name != (#[trigger] front.variants[j]).name by {
            assert(front.variants[i] == tables.variants[i]);
            assert(front.variants[j] == tables.variants[j]);
        }
        lemma_count_named(front, name);
        if tables.variants.last().name == name {
            assert(tables.variants[last].name == name);
            if front.has_variant_named(name) {
                let i = front.variant_index_named(name);
                assert(tables.variants[i].name == name);
            }
        } else {
            if front.has_variant_named(name) {
                let i = front.variant_index_named(name);
                assert(tables.variants[i].name == name);
            }
            if tables.has_variant_named(name) {
                let i = tables.variant_index_named(name);
                assert(front.variants[i].name == name);
            }
        }
    }
}

/// A variant that is there is found again, as the same row, after rows were
/// added, as long as names stay unique.
pub proof fn lemma_variant_found_again(before: Tables, after: Tables, name: Seq<char>)
    requires
        after.names_unique(),
        extends(before, after),
        before.has_variant_named(name),
    ensures
        after.has_variant_named(name),
        after.find_variant(name) == before.find_variant(name),
{
    let i = before.variant_index_named(name);
    assert(after.variants.take(before.variants.len() as int)[i] == after.variants[i]);
    assert(after.variants[i].name == name);
    let j = after.variant_index_named(name);
    assert(after.variants[j].name == name);
    if i < j {
        assert(after.variants[i].name != after.variants[j].name);
    }
    if j < i {
        assert(after.variants[j].name != after.variants[i].name);
    }
}

/// Find-or-create keeps names unique, adds rows only behind those that are
/// there, and leaves the variant in the tables under the key that it
/// reports.
pub proof fn lemma_resolve_variant(tables: Tables, name: Seq<char>)
    requires
        tables.names_unique(),
    ensures
        tables.resolve_variant(name).names_unique(),
        extends(tables, tables.resolve_variant(name)),
        tables.resolve_variant(name).has_variant_named(name),
        tables.resolve_variant(name).find_variant(name) matches Some(row) && row.id
            == tables.resolved_key(name),
        tables.resolve_variant(name).products == tables.products,
        tables.resolve_variant(name).links == tables.links,
{
    let after = tables.resolve_variant(name);
    if tables.has_variant_named(name) {
    } else {
        let last = tables.variants.len() as int;
        assert forall|i: int, j: int| 0 <= i < j < after.variants.len() implies (
        #[trigger] after.variants[i]).name != (#[trigger] after.variants[j]).name by {
            if j == last {
                assert(tables.variants[i].name != name);
            }
        }
        assert(after.variants[last].name == name);
        let j = after.variant_index_named(name);
        assert(after.variants[j].name == name);
        if j < last {
            assert(after.variants[j].name != after.variants[last].name);
        }
    }
}

/// Storing one group keeps names unique and adds rows only behind those
/// that are there: the variant of the group where it was not found, and one
/// link for each value of the group, under the key of that variant.
pub proof fn lemma_add_group(tables: Tables, product_id: int, group: VariantValueView)
    requires
        tables.names_unique(),
    ensures
        tables.add_group(product_id, group).names_unique(),
        extends(tables, tables.add_group(product_id, group)),
        tables.add_group(product_id, group).products == tables.products,
        tables.add_group(product_id, group).links == tables.links + links_for(
            product_id,
            tables.resolved_key(group.variant.name),
            group.values,
        ),
        tables.add_group(product_id, group).find_variant(group.variant.name) matches Some(row)
            && row.id == tables.resolved_key(group.variant.name),
        tables.add_group(product_id, group).variants == tables.resolve_variant(
            group.variant.name,
        ).variants,
{
    let name = group.variant.name;
    let resolved = tables.resolve_variant(name);
    let after = tables.add_group(product_id, group);
    lemma_resolve_variant(tables, name);
    assert(after.variants == resolved.variants);
    assert(after.has_variant_named(name)) by {
        let i = resolved.variant_index_named(name);
        assert(after.variants[i].name == name);
    }
    assert(after.variant_index_named(name) == resolved.variant_index_named(name)) by {
        let i = resolved.variant_index_named(name);
        let j = after.variant_index_named(name);
        assert(after.variants[i].name == name);
        assert(after.variants[j].name == name);
        if i < j {
            assert(after.variants[i].name != after.variants[j].name);
        }
        if j < i {
            assert(after.variants[j].name != after.variants[i].name);
        }
    }
}

/// Storing groups keeps names unique and adds rows only behind those that
/// are there; it adds no product, and one link for each value.
pub proof fn lemma_add_groups(tables: Tables, product_id: int, groups: Seq<VariantValueView>)
    requires
        tables.names_unique(),
    ensures
        tables.add_groups(product_id, groups).names_unique(),
        extends(tables, tables.add_groups(product_id, groups)),
        tables.add_groups(product_id, groups).products == tables.products,
        tables.add_groups(product_id, groups).links.len() == tables.links.len() + total_values(
            groups,
        ),
    decreases groups.len(),
{
    if groups.len() == 0 {
    } else {
        let before = tables.add_groups(product_id, groups.drop_last());
        lemma_add_groups(tables, product_id, groups.drop_last());
        lemma_add_group(before, product_id, groups.last());
        lemma_extends_transitive(tables, before, before.add_group(product_id, groups.last()));
    }
}

/// What is there after the first groups were stored is still there, in its
/// place, after all of them were.
pub proof fn lemma_later_groups_extend(
    tables: Tables,
    product_id: int,
    groups: Seq<VariantValueView>,
    count: int,
)
    requires
        tables.names_unique(),
        0 <= count <= groups.len(),
    ensures
        extends(
            tables.add_groups(product_id, groups.take(count)),
            tables.add_groups(product_id, groups),
        ),
    decreases groups.len() - count,
{
    let upto = tables.add_groups(product_id, groups.take(count));
    if count < groups.len() {
        lemma_later_groups_extend(tables, product_id, groups, count + 1);
        lemma_add_groups_step(tables, product_id, groups, count);
        lemma_add_groups(tables, product_id, groups.take(count));
        lemma_add_group(upto, product_id, groups[count]);
        lemma_extends_transitive(
            upto,
            tables.add_groups(product_id, groups.take(count + 1)),
            tables.add_groups(product_id, groups),
        );
    } else {
        assert(groups.take(count) =~= groups);
    }
}

/// How many links there are once a composite write has stored the groups
/// before the one at `group`: those that were there, and one for each value
/// of those groups.
pub open spec fn links_before(tables: Tables, input: CompleteProductView, group: int) -> int {
    (tables.links.len() + total_values(input.variants.take(group))) as int
}

/// A composite write stores one product, and one link for each value of all
/// its groups together.
pub proof fn law_one_link_for_each_value(tables: Tables, input: CompleteProductView)
    requires
        tables.wf(),
    ensures
        tables.composite_write(input).products.len() == tables.products.len() + 1,
        tables.composite_write(input).links.len() == tables.links.len() + total_values(
            input.variants,
        ),
{
    let stored = tables.insert_product(new_row(input));
    lemma_add_groups(stored, tables.next_product_id, input.variants);
}

/// After a composite write, the variant that a group names is there exactly
/// once, and the links of the group, which stand behind those of the groups
/// before it, carry the key of the product and the key of that variant, one
/// link for each value and in the order of the values.
pub proof fn law_links_of_group(tables: Tables, input: CompleteProductView, group: int)
    requires
        tables.wf(),
        0 <= group < input.variants.len(),
    ensures
        tables.composite_write(input).count_variants_named(input.variants[group].variant.name)
            == 1,
        tables.composite_write(input).find_variant(input.variants[group].variant.name) matches Some(
            row,
        ) && tables.composite_write(input).links.subrange(
            links_before(tables, input, group),
            links_before(tables, input, group + 1),
        ) == links_for(tables.next_product_id, row.id, input.variants[group].values),
{
    let product_id = tables.next_product_id;
    let stored = tables.insert_product(new_row(input));
    let name = input.variants[group].variant.name;
    let before = after_groups(tables, input, group);
    let with_group = after_groups(tables, input, group + 1);
    let after = tables.composite_write(input);
    assert(stored.names_unique());
    lemma_add_groups(stored, product_id, input.variants.take(group));
    lemma_add_groups(stored, product_id, input.variants.take(group + 1));
    lemma_add_groups(stored, product_id, input.variants);
    lemma_add_groups_step(stored, product_id, input.variants, group);
    lemma_add_group(before, product_id, input.variants[group]);
    lemma_later_groups_extend(stored, product_id, input.variants, group + 1);
    lemma_variant_found_again(with_group, after, name);
    lemma_count_named(after, name);
    let row = after.find_variant(name)->Some_0;
    let from = tables.links.len() + total_values(input.variants.take(group));
    let to = tables.links.len() + total_values(input.variants.take(group + 1));
    assert(before.links.len() == from);
    assert(with_group.links.len() == to);
    assert(after.links.subrange(from as int, to as int) =~= after.links.take(to as int).subrange(
        from as int,
        to as int,
    ));
    assert(with_group.links.subrange(from as int, to as int) =~= links_for(
        product_id,
        row.id,
        input.variants[group].values,
    ));
}

/// A composite write that names a variant which is not there yet stores it
/// once: no variant has the name before, and exactly one has it afterwards.
pub proof fn law_new_variant_stored_once(tables: Tables, input: CompleteProductView, group: int)
    requires
        tables.wf(),
        0 <= group < input.variants.len(),
        !tables.has_variant_named(input.variants[group].variant.name),
    ensures
        tables.count_variants_named(input.variants[group].variant.name) == 0,
        tables.composite_write(input).count_variants_named(input.variants[group].variant.name)
            == 1,
{
    lemma_count_named(tables, input.variants[group].variant.name);
    law_links_of_group(tables, input, group);
}

/// A composite write that names a variant which is there stores none for
/// that name: there is one before and one afterwards, it is the same row,
/// and so the links of the group carry the key that the variant had.
pub proof fn law_existing_variant_reused(tables: Tables, input: CompleteProductView, group: int)
    requires
        tables.wf(),
        0 <= group < input.variants.len(),
        tables.has_variant_named(input.variants[group].variant.name),
    ensures
        tables.count_variants_named(input.variants[group].variant.name) == 1,
        tables.composite_write(input).count_variants_named(input.variants[group].variant.name)
            == 1,
        tables.composite_write(input).find_variant(input.variants[group].variant.name)
            == tables.find_variant(input.variants[group].variant.name),
        tables.find_variant(input.variants[group].variant.name) matches Some(row)
            && tables.composite_write(input).links.subrange(
            links_before(tables, input, group),
            links_before(tables, input, group + 1),
        ) == links_for(tables.next_product_id, row.id, input.variants[group].values),
{
    let name = input.variants[group].variant.name;
    let stored = tables.insert_product(new_row(input));
    let after = tables.composite_write(input);
    lemma_count_named(tables, name);
    law_links_of_group(tables, input, group);
    lemma_add_groups(stored, tables.next_product_id, input.variants);
    lemma_extends_transitive(tables, stored, after);
    lemma_variant_found_again(tables, after, name);
}

/// Two composite writes, one after the other, that both name a variant
/// which was not there leave exactly one variant with that name.
pub proof fn law_two_writes_one_variant(
    tables: Tables,
    first: CompleteProductView,
    second: CompleteProductView,
    name: Seq<char>,
    group_of_first: int,
    group_of_second: int,
)
    requires
        tables.wf(),
        !tables.has_variant_named(name),
        0 <= group_of_first < first.variants.len(),
        first.variants[group_of_first].variant.name == name,
        0 <= group_of_second < second.variants.len(),
        second.variants[group_of_second].variant.name == name,
    ensures
        tables.composite_write(first).composite_write(second).count_variants_named(name) == 1,
{
    let stored = tables.insert_product(new_row(first));
    let between = tables.composite_write(first);
    lemma_add_groups(stored, tables.next_product_id, first.variants);
    let stored_again = between.insert_product(new_row(second));
    lemma_add_groups(stored_again, between.next_product_id, second.variants);
    lemma_count_named(between.composite_write(second), name);
    law_links_of_group(tables, first, group_of_first);
    assert(between.has_variant_named(name));
    lemma_extends_transitive(between, stored_again, between.composite_write(second));
    lemma_variant_found_again(between, between.composite_write(second), name);
}

/// Whatever statements are run on the tables, by however many writers and
/// in whatever order they arrive, no two variants ever have the same name:
/// a writer that comes second with a new name is refused.
pub proof fn law_names_stay_unique(tables: Tables, statements: Seq<StatementView>)
    requires
        tables.wf(),
    ensures
        run(tables, statements).wf(),
        run(tables, statements).names_unique(),
    decreases statements.len(),
{
    if statements.len() > 0 {
        law_names_stay_unique(tables, statements.drop_last());
        lemma_answer_keeps_constraints(run(tables, statements.drop_last()), statements.last());
    }
}

/// The tables after the statements were run, one after the other.
pub open spec fn run(tables: Tables, statements: Seq<StatementView>) -> Tables
    decreases statements.len(),
{
    if statements.len() == 0 {
        tables
    } else {
        answer(run(tables, statements.drop_last()), statements.last()).0
    }
}

/// A writer that comes second with a variant whose name is taken by then is
/// refused: the tables stay as they are, and its composite write ends with
/// a conflict, for the caller to try again.
pub proof fn law_second_variant_is_refused(tables: Tables, write: CompositeWriteView)
    requires
        write.wf(),
        write.stage == Stage::Variant,
        tables.has_variant_named(write.input.variants[write.group].variant.name),
    ensures
        answer(tables, pending(write)) == (tables, ReplyView::Failed(duplicate_variant())),
        advance(write, answer(tables, pending(write)).1) == StepView::Rollback(
            duplicate_variant(),
        ),
        duplicate_variant().kind == ErrorKind::Conflict,
{
}

/// A composite write that is told of a failure hands out no further
/// statement: it ends, and the failure is its result. What was written is
/// for the transaction to take back.
pub proof fn law_failure_ends_write(write: CompositeWriteView, error: StoreErrorView)
    ensures
        advance(write, ReplyView::Failed(error)) == StepView::Rollback(error),
{
}

/// The products are listed by ascending key: of two products of a page,
/// the one that was stored first comes first and has the smaller key.
pub proof fn law_page_ascends(tables: Tables, offset: nat, limit: nat, i: int, j: int)
    requires
        tables.wf(),
        0 <= i < j < tables.page(offset, limit).len(),
    ensures
        tables.page(offset, limit)[i].id < tables.page(offset, limit)[j].id,
        tables.page(offset, limit)[i] == tables.products[offset + i],
        tables.page(offset, limit)[j] == tables.products[offset + j],
{
}

/// A page that starts at the first product and has room for all of them is
/// all the products; a page of no rows, or one that starts behind the last
/// product, is empty.
pub proof fn law_page_bounds(tables: Tables, offset: nat, limit: nat)
    ensures
        offset == 0 && limit >= tables.products.len() ==> tables.page(offset, limit)
            == tables.products,
        limit == 0 || offset >= tables.products.len() ==> tables.page(offset, limit).len() == 0,
        tables.page(offset, limit).len() <= limit,
{
    if offset == 0 && limit >= tables.products.len() {
        assert(tables.page(offset, limit) =~= tables.products);
    }
}

/// A product that no link names has no variants: what is listed with it is
/// the empty sequence.
pub proof fn law_no_links_no_variants(tables: Tables, id: int)
    requires
        forall|k: int| 0 <= k < tables.links.len() ==> (#[trigger] tables.links[k]).product_id != id,
    ensures
        tables.variants_of_product(id) == Seq::<(LinkRow, VariantRow)>::empty(),
{
    lemma_join_without_links(tables, tables.links, id);
}

proof fn lemma_join_without_links(tables: Tables, links: Seq<LinkRow>, id: int)
    requires
        forall|k: int| 0 <= k < links.len() ==> (#[trigger] links[k]).product_id != id,
    ensures
        tables.join(links, set![id]) == Seq::<(LinkRow, VariantRow)>::empty(),
    decreases links.len(),
{
    if links.len() > 0 {
        assert forall|k: int| 0 <= k < links.drop_last().len() implies (
        #[trigger] links.drop_last()[k]).product_id != id by {
            assert(links.drop_last()[k] == links[k]);
        }
        lemma_join_without_links(tables, links.drop_last(), id);
        assert(links.last() == links[links.len() - 1]);
    }
}

} // verus!
