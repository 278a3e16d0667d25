use crate::backend::{answer, keys_exhausted, lemma_answer_keeps_constraints};
use crate::complete_product::CompleteProduct;
use crate::composite::{invalid_product, CompositeWrite, Reply, Statement, Step};
use crate::datastore::ProductDatastore;
use crate::error::{ErrorKind, StoreError, StoreErrorView};
use crate::listing::{
    group_by_product, lemma_rows_of_join, map_product_models, product_with_variants, rows_of,
};
use crate::mappers::map_product_model_to_product;
use crate::models::{
    copy_link, copy_product, copy_variant, joined_rows, link_rows, product_rows, variant_rows,
    ProductModel, ProductVariantModel, VariantModel,
};
use crate::params::ListQueryParams;
use crate::product::Product;
use crate::product_variant::ProductVariant;
use crate::repository::{
    create_product_statement, created_product, not_found, product_not_found, stored_key,
};
use crate::soundness::{
    answers_left, composite_result, extends, groups_left, lemma_advance_on_track,
    lemma_answer_extends, lemma_begin_on_track, lemma_extends_transitive, on_track, values_left,
};
use crate::tables::{keys_of, Tables, MAX_KEY};
use crate::variant::Variant;
use vstd::prelude::*;

verus! {

/// Whether one of the products has this key.
fn has_key(products: &Vec<ProductModel>, id: i32) -> (found: bool)
    ensures
        found == keys_of(product_rows(products@)).contains(id as int),
{
    let mut j: usize = 0;
    while j < products.len()
        invariant
            j <= products.len(),
            forall|i: int| 0 <= i < j ==> (#[trigger] product_rows(products@)[i]).id != id,
        decreases products.len() - j,
    {
        if products[j].id == id {
            assert(product_rows(products@)[j as int].id == id);
            return true;
        }
        j += 1;
    }
    false
}

/// A backend that keeps the three tables in memory and enforces their
/// constraints itself. It serves one writer at a time. What a failed write
/// had stored is taken back together with the keys that it had used, which
/// are given out again.
pub struct MemoryStore {
    products: Vec<ProductModel>,
    variants: Vec<VariantModel>,
    links: Vec<ProductVariantModel>,
    next_product_id: i64,
    next_variant_id: i64,
}

impl View for MemoryStore {
    type V = Tables;

    closed spec fn view(&self) -> Tables {
        Tables {
            products: product_rows(self.products@),
            variants: variant_rows(self.variants@),
            links: link_rows(self.links@),
            next_product_id: self.next_product_id as int,
            next_variant_id: self.next_variant_id as int,
        }
    }
}

impl MemoryStore {
    /// A store with no rows, whose keys start at one.
    pub fn new() -> (store: MemoryStore)
        ensures
            store@ == Tables::empty(),
            store.wf(),
    {
        let store = MemoryStore {
            products: Vec::new(),
            variants: Vec::new(),
            links: Vec::new(),
            next_product_id: 1,
            next_variant_id: 1,
        };
        assert(store@.products =~= Seq::empty());
        assert(store@.variants =~= Seq::empty());
        assert(store@.links =~= Seq::empty());
        store
    }

    /// A store with no rows, whose keys start where the caller says.
    /// Returns `None` where a first key is less than one.
    pub fn starting_at(first_product_id: i32, first_variant_id: i32) -> (store: Option<MemoryStore>)
        ensures
            store is Some <==> first_product_id >= 1 && first_variant_id >= 1,
            store matches Some(s) ==> s.wf() && s@ == (Tables {
                next_product_id: first_product_id as int,
                next_variant_id: first_variant_id as int,
                ..Tables::empty()
            }),
    {
        if first_product_id >= 1 && first_variant_id >= 1 {
            let store = MemoryStore {
                products: Vec::new(),
                variants: Vec::new(),
                links: Vec::new(),
                next_product_id: first_product_id as i64,
                next_variant_id: first_variant_id as i64,
            };
            assert(store@.products =~= Seq::empty());
            assert(store@.variants =~= Seq::empty());
            assert(store@.links =~= Seq::empty());
            Some(store)
        } else {
            None
        }
    }

    /// How many products, variants and links are stored.
    pub fn row_counts(&self) -> (counts: (usize, usize, usize))
        ensures
            counts.0 == self@.products.len(),
            counts.1 == self@.variants.len(),
            counts.2 == self@.links.len(),
    {
        (self.products.len(), self.variants.len(), self.links.len())
    }

    /// Where the variant with exactly this name is, if there is one.
    fn position_of_variant_named(&self, name: &String) -> (place: Option<usize>)
        ensures
            match place {
                Some(i) => i < self@.variants.len() && self@.variants[i as int].name == name@,
                None => !self@.has_variant_named(name@),
            },
    {
        let mut i: usize = 0;
        while i < self.variants.len()
            invariant
                i <= self.variants.len(),
                forall|j: int| 0 <= j < i ==> (#[trigger] self@.variants[j]).name != name@,
            decreases self.variants.len() - i,
        {
            if self.variants[i].name == *name {
                return Some(i);
            }
            i += 1;
        }
        None
    }

    /// Where the product with this key is, if there is one.
    fn position_of_product(&self, id: i32) -> (place: Option<usize>)
        ensures
            match place {
                Some(i) => i < self@.products.len() && self@.products[i as int].id == id,
                None => !self@.has_product(id as int),
            },
    {
        let mut i: usize = 0;
        while i < self.products.len()
            invariant
                i <= self.products.len(),
                forall|j: int| 0 <= j < i ==> (#[trigger] self@.products[j]).id != id,
            decreases self.products.len() - i,
        {
            if self.products[i].id == id {
                return Some(i);
            }
            i += 1;
        }
        None
    }

    /// Where the variant with this key is, if there is one.
    fn position_of_variant(&self, id: i32) -> (place: Option<usize>)
        ensures
            match place {
                Some(i) => i < self@.variants.len() && self@.variants[i as int].id == id,
                None => !self@.has_variant(id as int),
            },
    {
        let mut i: usize = 0;
        while i < self.variants.len()
            invariant
                i <= self.variants.len(),
                forall|j: int| 0 <= j < i ==> (#[trigger] self@.variants[j]).id != id,
            decreases self.variants.len() - i,
        {
            if self.variants[i].id == id {
                return Some(i);
            }
            i += 1;
        }
        None
    }

    /// Runs one statement as a backend that keeps its constraints does.
    pub fn execute(&mut self, statement: Statement) -> (reply: Reply)
        requires
            old(self).wf(),
        ensures
            (final(self)@, reply@) == answer(old(self)@, statement@),
            final(self).wf(),
    {
        proof {
            lemma_answer_keeps_constraints(self@, statement@);
        }
        match statement {
            Statement::InsertProduct(new) => {
                if self.next_product_id <= MAX_KEY as i64 {
                    let id = self.next_product_id as i32;
                    let row = ProductModel {
                        id,
                        name: new.name.clone(),
                        cost: new.cost,
                        active: new.active,
                    };
                    self.products.push(
                        ProductModel { id, name: new.name, cost: new.cost, active: new.active },
                    );
                    self.next_product_id = self.next_product_id + 1;
                    assert(self@.products =~= old(self)@.insert_product(new@).products);
                    Reply::ProductInserted(row)
                } else {
                    Reply::Failed(
                        StoreError::new(
                            ErrorKind::Persistence,
                            "no key is left for the row".to_owned(),
                        ),
                    )
                }
            },
            Statement::FindVariant(name) => {
                match self.position_of_variant_named(&name) {
                    Some(i) => {
                        assert(self@.variants[self@.variant_index_named(name@)].name == name@);
                        Reply::VariantLookup(Some(copy_variant(&self.variants[i])))
                    },
                    None => Reply::VariantLookup(None),
                }
            },
            Statement::InsertVariant(new) => {
                match self.position_of_variant_named(&new.name) {
                    Some(_) => Reply::Failed(
                        StoreError::new(
                            ErrorKind::Conflict,
                            "a variant with this name exists".to_owned(),
                        ),
                    ),
                    None => {
                        if self.next_variant_id <= MAX_KEY as i64 {
                            let id = self.next_variant_id as i32;
                            let row = VariantModel { id, name: new.name.clone() };
                            self.variants.push(VariantModel { id, name: new.name });
                            self.next_variant_id = self.next_variant_id + 1;
                            assert(self@.variants =~= old(self)@.insert_variant(new@).variants);
                            Reply::VariantInserted(row)
                        } else {
                            Reply::Failed(
                                StoreError::new(
                                    ErrorKind::Persistence,
                                    "no key is left for the row".to_owned(),
                                ),
                            )
                        }
                    },
                }
            },
            Statement::InsertLink(link) => {
                let product = self.position_of_product(link.product_id);
                let variant = self.position_of_variant(link.variant_id);
                if product.is_some() && variant.is_some() {
                    self.links.push(link);
                    assert(self@.links =~= old(self)@.insert_link(link@).links);
                    Reply::LinkInserted
                } else {
                    Reply::Failed(
                        StoreError::new(
                            ErrorKind::Conflict,
                            "the product or the variant of the link does not exist".to_owned(),
                        ),
                    )
                }
            },
        }
    }

    /// Takes back whatever was added behind the given numbers of rows, and
    /// sets the next keys.
    fn restore(
        &mut self,
        products: usize,
        variants: usize,
        links: usize,
        next_product_id: i64,
        next_variant_id: i64,
        Ghost(start): Ghost<Tables>,
    )
        requires
            extends(start, old(self)@),
            products == start.products.len(),
            variants == start.variants.len(),
            links == start.links.len(),
            next_product_id == start.next_product_id,
            next_variant_id == start.next_variant_id,
        ensures
            final(self)@ == start,
    {
        self.products.truncate(products);
        self.variants.truncate(variants);
        self.links.truncate(links);
        self.next_product_id = next_product_id;
        self.next_variant_id = next_variant_id;
        assert(self@.products =~= old(self)@.products.take(products as int));
        assert(self@.variants =~= old(self)@.variants.take(variants as int));
        assert(self@.links =~= old(self)@.links.take(links as int));
    }

    /// Copies of the stored products from `offset` on, at most `limit` of
    /// them, by ascending key.
    pub fn fetch_products(&self, params: ListQueryParams) -> (records: Vec<ProductModel>)
        ensures
            product_rows(records@) == self@.page(params.offset as nat, params.limit as nat),
    {
        let mut records: Vec<ProductModel> = Vec::new();
        let len = self.products.len();
        if params.offset >= len as u64 {
            assert(product_rows(records@) =~= self@.page(
                params.offset as nat,
                params.limit as nat,
            ));
            return records;
        }
        let first = params.offset as usize;
        let room = len - first;
        let count = if params.limit >= room as u64 {
            room
        } else {
            params.limit as usize
        };
        let mut i: usize = 0;
        while i < count
            invariant
                i <= count,
                first + count <= self.products.len(),
                records.len() == i,
                forall|j: int| 0 <= j < i ==> (#[trigger] records[j])@ == self.products[first + j]@,
            decreases count - i,
        {
            records.push(copy_product(&self.products[first + i]));
            i += 1;
        }
        assert(product_rows(records@) =~= self@.page(params.offset as nat, params.limit as nat));
        records
    }

    /// Copies of the links of the given products, each with its variant, in
    /// the order in which the links were stored.
    fn join_for(&self, products: &Vec<ProductModel>) -> (rows: Vec<
        (ProductVariantModel, VariantModel),
    >)
        requires
            self.wf(),
        ensures
            joined_rows(rows@) == self@.join(self@.links, keys_of(product_rows(products@))),
    {
        let mut rows: Vec<(ProductVariantModel, VariantModel)> = Vec::new();
        let mut k: usize = 0;
        let ghost wanted = keys_of(product_rows(products@));
        assert(self@.links.take(0) =~= Seq::empty());
        assert(joined_rows(rows@) =~= Seq::empty());
        while k < self.links.len()
            invariant
                k <= self.links.len(),
                self.wf(),
                wanted == keys_of(product_rows(products@)),
                joined_rows(rows@) == self@.join(self@.links.take(k as int), wanted),
            decreases self.links.len() - k,
        {
            let ghost upto = self@.links.take(k + 1);
            assert(upto.drop_last() =~= self@.links.take(k as int));
            assert(upto.last() == self.links[k as int]@);
            let ghost earlier = joined_rows(rows@);
            let link = &self.links[k];
            if has_key(products, link.product_id) {
                match self.position_of_variant(link.variant_id) {
                    Some(i) => {
                        assert(self@.variants[self@.variant_index(link.variant_id as int)].id
                            == link.variant_id);
                        assert(self@.variant_index(link.variant_id as int) == i);
                        rows.push((copy_link(link), copy_variant(&self.variants[i])));
                        assert(joined_rows(rows@) =~= earlier.push((link@, self@.variants[i as int])));
                    },
                    None => {},
                }
            }
            k += 1;
        }
        assert(self@.links.take(k as int) =~= self@.links);
        rows
    }
}

impl ProductDatastore for MemoryStore {
    /// Whether the tables keep their constraints.
    open spec fn wf(&self) -> bool {
        self@.wf()
    }

    /// The tables that the store keeps.
    open spec fn tables(&self) -> Tables {
        self@
    }

    /// Stores the product wherever it is valid and a key is left for it.
    /// A product that breaks a field constraint is refused before anything
    /// else is looked at, and any other once no key is left.
    fn create_product(&mut self, product: Product) -> (result: Result<Product, StoreError>)
        ensures
            result is Ok <==> product@.valid() && old(self)@.next_product_id <= MAX_KEY,
            result matches Err(error) ==> error@ == if !product@.valid() {
                invalid_product()
            } else {
                keys_exhausted()
            },
    {
        match create_product_statement(&product) {
            Ok(statement) => {
                let reply = self.execute(statement);
                created_product(reply)
            },
            Err(error) => Err(error),
        }
    }

    /// Stores the product with its groups wherever the product is valid and
    /// keys are left for it and for every variant that is to be made. A
    /// product that breaks a field constraint is refused before anything is
    /// written; a write for which the keys do not suffice is taken back.
    fn create_complete_product(&mut self, complete_product: CompleteProduct) -> (result: Result<
        i32,
        StoreError,
    >)
        ensures
            result matches Err(error) ==> composite_result(old(self)@, complete_product@) == Err::<
                int,
                StoreErrorView,
            >(error@),
    {
        let ghost start = self@;
        let ghost input = complete_product@;
        let products = self.products.len();
        let variants = self.variants.len();
        let links = self.links.len();
        let next_product_id = self.next_product_id;
        let next_variant_id = self.next_variant_id;
        let mut step = CompositeWrite::begin(complete_product);
        proof {
            lemma_begin_on_track(start, input);
        }
        loop
            invariant
                start == old(self)@,
                input == complete_product@,
                start.wf(),
                self.wf(),
                extends(start, self@),
                step@.wf(),
                on_track(start, input, self@, step@),
                products == start.products.len(),
                variants == start.variants.len(),
                links == start.links.len(),
                next_product_id == start.next_product_id,
                next_variant_id == start.next_variant_id,
            decreases groups_left(step@), answers_left(step@), values_left(step@),
        {
            match step {
                Step::Commit(id) => {
                    return Ok(id);
                },
                Step::Rollback(error) => {
                    self.restore(
                        products,
                        variants,
                        links,
                        next_product_id,
                        next_variant_id,
                        Ghost(start),
                    );
                    return Err(error);
                },
                Step::Run(write, statement) => {
                    proof {
                        lemma_advance_on_track(start, input, self@, write@, statement@);
                        lemma_answer_extends(self@, statement@);
                        lemma_extends_transitive(start, self@, answer(self@, statement@).0);
                    }
                    let reply = self.execute(statement);
                    step = write.advance(reply);
                },
            }
        }
    }

    /// The product with this key wherever there is one, and else the error
    /// that says that there is none.
    fn get_product(&mut self, id: u32) -> (result: Result<Product, StoreError>)
        ensures
            result matches Err(error) ==> old(self)@.find_product(id as int) is None && error@
                == not_found(),
    {
        match stored_key(id) {
            Some(key) => match self.position_of_product(key) {
                Some(i) => {
                    assert(self@.products[self@.product_index(id as int)].id == id);
                    Ok(map_product_model_to_product(copy_product(&self.products[i])))
                },
                None => Err(product_not_found()),
            },
            None => Err(product_not_found()),
        }
    }

    /// The product with this key and its variants wherever there is such a
    /// product, and else the error that says that there is none.
    fn get_product_with_variants(&mut self, id: u32) -> (result: Result<
        (Product, Vec<(ProductVariant, Variant)>),
        StoreError,
    >)
        ensures
            result matches Err(error) ==> old(self)@.find_product(id as int) is None && error@
                == not_found(),
    {
        match stored_key(id) {
            Some(key) => match self.position_of_product(key) {
                Some(i) => {
                    assert(self@.products[self@.product_index(id as int)].id == id);
                    let mut records: Vec<ProductModel> = Vec::new();
                    records.push(copy_product(&self.products[i]));
                    let rows = self.join_for(&records);
                    let ghost page = product_rows(records@);
                    proof {
                        assert(page =~= seq![self.products[i as int]@]);
                        assert(page[0].id == id);
                        assert(keys_of(page) =~= set![id as int]);
                        lemma_rows_of_join(self@, self@.links, page, 0);
                    }
                    Ok(product_with_variants(copy_product(&self.products[i]), rows))
                },
                None => Err(product_not_found()),
            },
            None => Err(product_not_found()),
        }
    }

    /// The page of products that is asked for.
    fn list_products(&mut self, params: ListQueryParams) -> (products: Vec<Product>) {
        let records = self.fetch_products(params);
        map_product_models(records)
    }

    /// The page of products that is asked for, each with its variants. No
    /// error is returned.
    fn list_products_with_variants(&mut self, params: ListQueryParams) -> (result: Result<
        Vec<(Product, Vec<(ProductVariant, Variant)>)>,
        StoreError,
    >)
        ensures
            result is Ok,
    {
        let records = self.fetch_products(params);
        let rows = self.join_for(&records);
        let ghost page = product_rows(records@);
        proof {
            assert forall|i: int| 0 <= i < page.len() implies rows_of(
                joined_rows(rows@),
                page,
                i,
            ) == self@.variants_of_product(#[trigger] page[i].id) by {
                lemma_rows_of_join(self@, self@.links, page, i);
            }
        }
        let listed = group_by_product(records, rows);
        Ok(listed)
    }
}

} // verus!
