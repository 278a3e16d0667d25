use crate::mappers::{
    map_product_and_variant_model_to_variant, map_product_model_to_product, product_of_row,
    variant_of_row,
};
use crate::models::{
    copy_link, copy_product, copy_variant, joined_rows, product_rows, LinkRow, ProductModel,
    ProductRow, ProductVariantModel, VariantModel, VariantRow,
};
use crate::product::{Product, ProductView};
use crate::tables::{keys_of, Tables};
use crate::product_variant::{ProductVariant, ProductVariantView};
use crate::variant::{Variant, VariantView};
use vstd::prelude::*;

verus! {

/// The views of a sequence of products.
pub open spec fn products_view(products: Seq<Product>) -> Seq<ProductView> {
    products.map_values(|p: Product| p@)
}

/// The views of a sequence of links with their variants.
pub open spec fn pairs_view(pairs: Seq<(ProductVariant, Variant)>) -> Seq<
    (ProductVariantView, VariantView),
> {
    pairs.map_values(|pair: (ProductVariant, Variant)| (pair.0@, pair.1@))
}

/// The link and the variant that a joined row stands for.
pub open spec fn pair_of_row(row: (LinkRow, VariantRow)) -> (ProductVariantView, VariantView) {
    (row.0, variant_of_row(row.1))
}

/// The place of the last of the products that has this key, or -1 where
/// none has it.
pub open spec fn owner(products: Seq<ProductRow>, id: int) -> int
    decreases products.len(),
{
    if products.len() == 0 {
        -1
    } else if products.last().id == id {
        products.len() - 1
    } else {
        owner(products.drop_last(), id)
    }
}

/// The rows that belong to the product at `place`, in their order: those
/// whose link names the key of that product. Where several products have
/// one key, the rows belong to the last of them.
pub open spec fn rows_of(rows: Seq<(LinkRow, VariantRow)>, products: Seq<ProductRow>, place: int)
    -> Seq<(LinkRow, VariantRow)>
    decreases rows.len(),
{
    if rows.len() == 0 {
        Seq::empty()
    } else if owner(products, rows.last().0.product_id) == place {
        rows_of(rows.drop_last(), products, place).push(rows.last())
    } else {
        rows_of(rows.drop_last(), products, place)
    }
}

/// Turns stored products into products, one for one and in their order.
pub fn map_product_models(records: Vec<ProductModel>) -> (products: Vec<Product>)
    ensures
        products_view(products@) == product_rows(records@).map_values(
            |row: ProductRow| product_of_row(row),
        ),
{
    let mut products: Vec<Product> = Vec::new();
    let mut i: usize = 0;
    while i < records.len()
        invariant
            i <= records.len(),
            products.len() == i,
            forall|j: int| 0 <= j < i ==> (#[trigger] products[j])@ == product_of_row(records[j]@),
        decreases records.len() - i,
    {
        let product = map_product_model_to_product(copy_product(&records[i]));
        products.push(product);
        i += 1;
    }
    assert(products_view(products@) =~= product_rows(records@).map_values(
        |row: ProductRow| product_of_row(row),
    ));
    products
}

/// Where the last of the products with this key is.
fn owner_of(products: &Vec<ProductModel>, id: i32) -> (place: Option<usize>)
    ensures
        match place {
            Some(i) => i < products.len() && owner(product_rows(products@), id as int) == i,
            None => owner(product_rows(products@), id as int) == -1,
        },
{
    let mut i: usize = products.len();
    assert(product_rows(products@).take(i as int) =~= product_rows(products@));
    while i > 0
        invariant
            i <= products.len(),
            owner(product_rows(products@), id as int) == owner(
                product_rows(products@).take(i as int),
                id as int,
            ),
        decreases i,
    {
        i -= 1;
        assert(product_rows(products@).take(i + 1).drop_last() =~= product_rows(products@).take(
            i as int,
        ));
        if products[i].id == id {
            return Some(i);
        }
    }
    None
}

/// The links with their variants that belong to the product at `place`.
fn pairs_at(
    products: &Vec<ProductModel>,
    rows: &Vec<(ProductVariantModel, VariantModel)>,
    place: usize,
) -> (pairs: Vec<(ProductVariant, Variant)>)
    requires
        place < products.len(),
    ensures
        pairs_view(pairs@) == rows_of(
            joined_rows(rows@),
            product_rows(products@),
            place as int,
        ).map_values(|row: (LinkRow, VariantRow)| pair_of_row(row)),
{
    let mut pairs: Vec<(ProductVariant, Variant)> = Vec::new();
    let mut k: usize = 0;
    assert(joined_rows(rows@).take(0) =~= Seq::empty());
    while k < rows.len()
        invariant
            k <= rows.len(),
            place < products.len(),
            pairs_view(pairs@) == rows_of(
                joined_rows(rows@).take(k as int),
                product_rows(products@),
                place as int,
            ).map_values(|row: (LinkRow, VariantRow)| pair_of_row(row)),
        decreases rows.len() - k,
    {
        let ghost before = joined_rows(rows@).take(k as int);
        let ghost upto = joined_rows(rows@).take(k + 1);
        assert(upto.drop_last() =~= before);
        assert(upto.last() == joined_rows(rows@)[k as int]);
        let ghost chosen = rows_of(before, product_rows(products@), place as int);
        let ghost earlier = pairs_view(pairs@);
        let found = owner_of(products, rows[k].0.product_id);
        if found == Some(place) {
            let pair = map_product_and_variant_model_to_variant(
                (copy_link(&rows[k].0), copy_variant(&rows[k].1)),
            );
            pairs.push(pair);
            assert(pairs_view(pairs@) =~= earlier.push(pair_of_row(upto.last())));
            assert(chosen.push(upto.last()).map_values(
                |row: (LinkRow, VariantRow)| pair_of_row(row),
            ) =~= earlier.push(pair_of_row(upto.last())));
        }
        k += 1;
    }
    assert(joined_rows(rows@).take(k as int) =~= joined_rows(rows@));
    pairs
}

/// Puts each product together with the links, and their variants, that
/// belong to it. The products keep their order, and so do the rows of each
/// product; a product without rows gets an empty sequence. A row whose
/// link names none of the products is left out.
pub fn group_by_product(
    products: Vec<ProductModel>,
    rows: Vec<(ProductVariantModel, VariantModel)>,
) -> (groups: Vec<(Product, Vec<(ProductVariant, Variant)>)>)
    ensures
        groups.len() == products.len(),
        forall|i: int|
            0 <= i < groups.len() ==> (#[trigger] groups[i]).0@ == product_of_row(products[i]@)
                && pairs_view(groups[i].1@) == rows_of(
                joined_rows(rows@),
                product_rows(products@),
                i,
            ).map_values(|row: (LinkRow, VariantRow)| pair_of_row(row)),
{
    let mut groups: Vec<(Product, Vec<(ProductVariant, Variant)>)> = Vec::new();
    let mut i: usize = 0;
    while i < products.len()
        invariant
            i <= products.len(),
            groups.len() == i,
            forall|j: int|
                0 <= j < i ==> (#[trigger] groups[j]).0@ == product_of_row(products[j]@)
                    && pairs_view(groups[j].1@) == rows_of(
                    joined_rows(rows@),
                    product_rows(products@),
                    j,
                ).map_values(|row: (LinkRow, VariantRow)| pair_of_row(row)),
        decreases products.len() - i,
    {
        let product = map_product_model_to_product(copy_product(&products[i]));
        let pairs = pairs_at(&products, &rows, i);
        groups.push((product, pairs));
        i += 1;
    }
    groups
}

/// Puts one product together with the links, and their variants, that belong
/// to it, in their order. A row whose link names another product is left
/// out.
pub fn product_with_variants(
    product: ProductModel,
    rows: Vec<(ProductVariantModel, VariantModel)>,
) -> (found: (Product, Vec<(ProductVariant, Variant)>))
    ensures
        found.0@ == product_of_row(product@),
        pairs_view(found.1@) == rows_of(joined_rows(rows@), seq![product@], 0).map_values(
            |row: (LinkRow, VariantRow)| pair_of_row(row),
        ),
{
    let mut products: Vec<ProductModel> = Vec::new();
    products.push(copy_product(&product));
    assert(product_rows(products@) =~= seq![product@]);
    let pairs = pairs_at(&products, &rows, 0);
    (map_product_model_to_product(product), pairs)
}

/// Where the keys of the products are all different, the product that a
/// key belongs to is the one that has it.
pub proof fn lemma_owner(products: Seq<ProductRow>, id: int)
    requires
        forall|a: int, b: int|
            0 <= a < b < products.len() ==> (#[trigger] products[a]).id != (
            #[trigger] products[b]).id,
    ensures
        owner(products, id) == -1 <==> !keys_of(products).contains(id),
        owner(products, id) != -1 ==> 0 <= owner(products, id) < products.len()
            && products[owner(products, id)].id == id,
        forall|i: int|
            0 <= i < products.len() && (#[trigger] products[i]).id == id ==> owner(products, id)
                == i,
    decreases products.len(),
{
    if products.len() > 0 {
        let front = products.drop_last();
        lemma_owner(front, id);
        if products.last().id == id {
            assert(keys_of(products).contains(id));
        } else {
            if keys_of(front).contains(id) {
                let j = choose|j: int| 0 <= j < front.len() && (#[trigger] front[j]).id == id;
                assert(products[j].id == id);
            }
            if keys_of(products).contains(id) {
                let j = choose|j: int| 0 <= j < products.len() && (#[trigger] products[j]).id == id;
                assert(front[j].id == id);
            }
            assert forall|i: int| 0 <= i < products.len() && (#[trigger] products[i]).id
                == id implies owner(products, id) == i by {
                assert(front[i].id == id);
            }
        }
    }
}

/// Of the joined rows of a page of products with different keys, those that
/// belong to one product of the page are the joined rows of that product.
pub proof fn lemma_rows_of_join(tables: Tables, links: Seq<LinkRow>, page: Seq<ProductRow>, place: int)
    requires
        0 <= place < page.len(),
        forall|a: int, b: int|
            0 <= a < b < page.len() ==> (#[trigger] page[a]).id != (#[trigger] page[b]).id,
    ensures
        rows_of(tables.join(links, keys_of(page)), page, place) == tables.join(
            links,
            set![page[place].id],
        ),
    decreases links.len(),
{
    if links.len() > 0 {
        let link = links.last();
        lemma_rows_of_join(tables, links.drop_last(), page, place);
        lemma_owner(page, link.product_id);
        let rest = tables.join(links.drop_last(), keys_of(page));
        if keys_of(page).contains(link.product_id) && tables.has_variant(link.variant_id) {
            let row = (link, tables.variants[tables.variant_index(link.variant_id)]);
            assert(rest.push(row).drop_last() =~= rest);
            assert(rest.push(row).last() == row);
        }
        assert(keys_of(page).contains(page[place].id));
    }
}

} // verus!
