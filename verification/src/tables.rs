use crate::complete_product::CompleteProductView;
use crate::models::{LinkRow, NewProductRow, ProductRow, VariantRow};
use crate::product_variant::ProductVariantView;
use crate::variant_value::VariantValueView;
use vstd::prelude::*;

verus! {

/// The largest key that a row can have.
pub const MAX_KEY: i32 = 0x7FFF_FFFF;

/// The link rows that give one product the values of one variant, one row
/// for each value, in the order of the values.
pub open spec fn links_for(product_id: int, variant_id: int, values: Seq<Option<Seq<char>>>) -> Seq<
    LinkRow,
> {
    values.map_values(
        |value: Option<Seq<char>>| (ProductVariantView { product_id, variant_id, value }),
    )
}

/// What the row that is made for a new product holds.
pub open spec fn product_row(id: int, new: NewProductRow) -> ProductRow {
    ProductRow { id, name: new.name, cost: new.cost, active: new.active }
}

/// The keys of the given products.
pub open spec fn keys_of(products: Seq<ProductRow>) -> Set<int> {
    Set::new(
        |id: int| exists|j: int| 0 <= j < products.len() && (#[trigger] products[j]).id == id,
    )
}

/// How many of the variants have exactly this name.
pub open spec fn count_named(variants: Seq<VariantRow>, name: Seq<char>) -> nat
    decreases variants.len(),
{
    if variants.len() == 0 {
        0
    } else if variants.last().name == name {
        count_named(variants.drop_last(), name) + 1
    } else {
        count_named(variants.drop_last(), name)
    }
}

/// How many values the groups have, all together.
pub open spec fn total_values(groups: Seq<VariantValueView>) -> nat
    decreases groups.len(),
{
    if groups.len() == 0 {
        0
    } else {
        total_values(groups.drop_last()) + groups.last().values.len()
    }
}

/// The persisted state: three tables, each in the order in which its rows
/// were made, and the keys that the next product and the next variant get.
pub struct Tables {
    pub products: Seq<ProductRow>,
    pub variants: Seq<VariantRow>,
    pub links: Seq<LinkRow>,
    pub next_product_id: int,
    pub next_variant_id: int,
}

impl Tables {
    /// The tables with no row in them. Keys start at one.
    pub open spec fn empty() -> Tables {
        Tables {
            products: Seq::empty(),
            variants: Seq::empty(),
            links: Seq::empty(),
            next_product_id: 1,
            next_variant_id: 1,
        }
    }

    pub open spec fn has_product(self, id: int) -> bool {
        exists|i: int| 0 <= i < self.products.len() && (#[trigger] self.products[i]).id == id
    }

    pub open spec fn has_variant(self, id: int) -> bool {
        exists|i: int| 0 <= i < self.variants.len() && (#[trigger] self.variants[i]).id == id
    }

    pub open spec fn has_variant_named(self, name: Seq<char>) -> bool {
        exists|i: int| 0 <= i < self.variants.len() && (#[trigger] self.variants[i]).name == name
    }

    /// The place of a product with this key among the products, where there
    /// is one.
    pub open spec fn product_index(self, id: int) -> int {
        choose|i: int| 0 <= i < self.products.len() && (#[trigger] self.products[i]).id == id
    }

    /// The place of a variant with this key among the variants, where there
    /// is one.
    pub open spec fn variant_index(self, id: int) -> int {
        choose|i: int| 0 <= i < self.variants.len() && (#[trigger] self.variants[i]).id == id
    }

    /// The place of a variant with this name among the variants, where there
    /// is one.
    pub open spec fn variant_index_named(self, name: Seq<char>) -> int {
        choose|i: int| 0 <= i < self.variants.len() && (#[trigger] self.variants[i]).name == name
    }

    /// The product with this key, if there is one.
    pub open spec fn find_product(self, id: int) -> Option<ProductRow> {
        if self.has_product(id) {
            Some(self.products[self.product_index(id)])
        } else {
            None
        }
    }

    /// The variant with exactly this name, if there is one.
    pub open spec fn find_variant(self, name: Seq<char>) -> Option<VariantRow> {
        if self.has_variant_named(name) {
            Some(self.variants[self.variant_index_named(name)])
        } else {
            None
        }
    }

    /// How many variants have exactly this name.
    pub open spec fn count_variants_named(self, name: Seq<char>) -> nat {
        count_named(self.variants, name)
    }

    /// Whether no two variants have the same name.
    pub open spec fn names_unique(self) -> bool {
        forall|i: int, j: int|
            0 <= i < j < self.variants.len() ==> (#[trigger] self.variants[i]).name != (
            #[trigger] self.variants[j]).name
    }

    /// The constraints that the tables keep: keys are positive, ascend in the
    /// order of the rows and lie below the next key to be given out; no two
    /// variants have the same name; every link names a product and a variant
    /// that exist.
    pub open spec fn wf(self) -> bool {
        &&& 1 <= self.next_product_id <= MAX_KEY + 1
        &&& 1 <= self.next_variant_id <= MAX_KEY + 1
        &&& forall|i: int|
            0 <= i < self.products.len() ==> 1 <= (#[trigger] self.products[i]).id
                < self.next_product_id
        &&& forall|i: int, j: int|
            0 <= i < j < self.products.len() ==> (#[trigger] self.products[i]).id < (
            #[trigger] self.products[j]).id
        &&& forall|i: int|
            0 <= i < self.variants.len() ==> 1 <= (#[trigger] self.variants[i]).id
                < self.next_variant_id
        &&& forall|i: int, j: int|
            0 <= i < j < self.variants.len() ==> (#[trigger] self.variants[i]).id < (
            #[trigger] self.variants[j]).id
        &&& forall|i: int, j: int|
            0 <= i < j < self.variants.len() ==> (#[trigger] self.variants[i]).name != (
            #[trigger] self.variants[j]).name
        &&& forall|k: int|
            0 <= k < self.links.len() ==> self.has_product((#[trigger] self.links[k]).product_id)
                && self.has_variant(self.links[k].variant_id)
    }

    /// The tables after a product was stored: it is the last of the products
    /// and has the next key.
    pub open spec fn insert_product(self, new: NewProductRow) -> Tables {
        Tables {
            products: self.products.push(product_row(self.next_product_id, new)),
            next_product_id: self.next_product_id + 1,
            ..self
        }
    }

    /// The tables after a variant was stored: it is the last of the variants
    /// and has the next key.
    pub open spec fn insert_variant(self, name: Seq<char>) -> Tables {
        Tables {
            variants: self.variants.push(VariantRow { id: self.next_variant_id, name }),
            next_variant_id: self.next_variant_id + 1,
            ..self
        }
    }

    /// The tables after a link was stored: it is the last of the links.
    pub open spec fn insert_link(self, link: LinkRow) -> Tables {
        Tables { links: self.links.push(link), ..self }
    }

    /// The key of the variant with this name after find-or-create.
    pub open spec fn resolved_key(self, name: Seq<char>) -> int {
        match self.find_variant(name) {
            Some(row) => row.id,
            None => self.next_variant_id,
        }
    }

    /// The tables after find-or-create of the variant with this name: as
    /// they were where it exists, and with one more variant where it does not.
    pub open spec fn resolve_variant(self, name: Seq<char>) -> Tables {
        match self.find_variant(name) {
            Some(row) => self,
            None => self.insert_variant(name),
        }
    }

    /// The tables after one link was stored for each of the values.
    pub open spec fn add_links(self, product_id: int, variant_id: int, values: Seq<Option<Seq<char>>>)
        -> Tables {
        Tables { links: self.links + links_for(product_id, variant_id, values), ..self }
    }

    /// The tables after one group was stored for a product: its variant found
    /// or made, then one link for each of its values.
    pub open spec fn add_group(self, product_id: int, group: VariantValueView) -> Tables {
        self.resolve_variant(group.variant.name).add_links(
            product_id,
            self.resolved_key(group.variant.name),
            group.values,
        )
    }

    /// The tables after the groups were stored for a product, one after the
    /// other.
    pub open spec fn add_groups(self, product_id: int, groups: Seq<VariantValueView>) -> Tables
        decreases groups.len(),
    {
        if groups.len() == 0 {
            self
        } else {
            self.add_groups(product_id, groups.drop_last()).add_group(product_id, groups.last())
        }
    }

    /// The tables after a product was stored together with all its groups.
    pub open spec fn composite_write(self, input: CompleteProductView) -> Tables {
        self.insert_product(
            NewProductRow {
                name: input.product.name,
                cost: input.product.cost,
                active: input.product.active,
            },
        ).add_groups(self.next_product_id, input.variants)
    }

    /// Whether there are keys left for the product and for every variant
    /// that storing it with its groups would make.
    pub open spec fn composite_fits(self, input: CompleteProductView) -> bool {
        &&& self.next_product_id <= MAX_KEY
        &&& self.composite_write(input).next_variant_id <= MAX_KEY + 1
    }

    /// The rows from `offset` on, at most `limit` of them.
    pub open spec fn page(self, offset: nat, limit: nat) -> Seq<ProductRow> {
        if offset >= self.products.len() {
            Seq::empty()
        } else if offset + limit >= self.products.len() {
            self.products.subrange(offset as int, self.products.len() as int)
        } else {
            self.products.subrange(offset as int, (offset + limit) as int)
        }
    }

    /// The inner join of the given links with the variants, for the links
    /// of the wanted products: each such link with the variant that it
    /// names, in the order of the links. A link whose variant does not
    /// exist has no row.
    pub open spec fn join(self, links: Seq<LinkRow>, wanted: Set<int>) -> Seq<(LinkRow, VariantRow)>
        decreases links.len(),
    {
        if links.len() == 0 {
            Seq::empty()
        } else {
            let rest = self.join(links.drop_last(), wanted);
            let link = links.last();
            if wanted.contains(link.product_id) && self.has_variant(link.variant_id) {
                rest.push((link, self.variants[self.variant_index(link.variant_id)]))
            } else {
                rest
            }
        }
    }

    /// The links of one product, each with its variant, in the order in
    /// which they were stored.
    pub open spec fn variants_of_product(self, id: int) -> Seq<(LinkRow, VariantRow)> {
        self.join(self.links, set![id])
    }
}

} // verus!
