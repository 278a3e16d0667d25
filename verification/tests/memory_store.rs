use product_store::complete_product::CompleteProduct;
use product_store::composite::{Reply, Statement};
use product_store::datastore::ProductDatastore;
use product_store::error::ErrorKind;
use product_store::memory::MemoryStore;
use product_store::models::{NewProductModel, NewVariantModel, ProductVariantModel};
use product_store::params::ListQueryParams;
use product_store::product::Product;
use product_store::variant::Variant;
use product_store::variant_value::VariantValue;

fn product(name: &str, cost: f64) -> Product {
    Product::new(name.to_string(), cost.to_bits(), true, None)
}

fn group(name: &str, values: &[Option<&str>]) -> VariantValue {
    VariantValue::new(
        Variant::new(name.to_string(), None),
        values.iter().map(|v| v.map(|s| s.to_string())).collect(),
    )
}

fn render(products: &[Product]) -> String {
    let mut rows = Vec::new();
    for p in products {
        let mut row = serde_json::Map::new();
        row.insert(
            "id".to_string(),
            match p.id() {
                Some(id) => serde_json::Value::from(id),
                None => serde_json::Value::Null,
            },
        );
        row.insert("name".to_string(), serde_json::Value::from(p.name()));
        row.insert("cost".to_string(), serde_json::Value::from(f64::from_bits(p.cost())));
        row.insert("active".to_string(), serde_json::Value::from(p.active()));
        rows.push(serde_json::Value::Object(row));
    }
    serde_json::to_string(&serde_json::Value::Array(rows)).unwrap()
}

#[test]
fn datastore_test_create_product() {
    let mut store = MemoryStore::new();

    let product_name = String::from("boots");
    let product_cost = 1323.12;
    let is_product_active = &true;

    let expected = product_store::models::ProductModel {
        id: 1,
        name: (*product_name).parse().unwrap(),
        cost: f64::to_bits(product_cost),
        active: *is_product_active,
    };

    let actual = store.execute(Statement::InsertProduct(NewProductModel {
        name: product_name.clone(),
        cost: f64::to_bits(product_cost),
        active: *is_product_active,
    }));

    let actual_product = match actual {
        Reply::ProductInserted(row) => row,
        other => panic!("{:?}", other),
    };

    assert_eq!(expected.id, actual_product.id);
    assert_eq!(expected.name, actual_product.name);
    assert_eq!(expected.active, actual_product.active);
    assert_eq!(f64::from_bits(expected.cost), f64::from_bits(actual_product.cost));
}

#[test]
fn product_repository_test_create_product() {
    let mut store = MemoryStore::new();

    let product_name = String::from("boots");
    let product_cost = 1323.12f64;
    let is_product_active = true;

    let actual = store.create_product(Product::new(
        product_name,
        product_cost.to_bits(),
        is_product_active,
        None,
    ));

    let actual_product = actual.unwrap();
    let expected_id: u32 = 1;

    assert_eq!(Some(expected_id), actual_product.id());
}

#[test]
fn test_list_products() {
    let mut store = MemoryStore::new();
    let product_one = product("boots", 13.23);

    let product_two = product("running shoes", 10.99);
    let product_three = product("running shoes", 10.99);

    store.create_product(product_one).expect("Error creating product");
    store.create_product(product_two).expect("Should be able to created");
    store.create_product(product_three).expect("Failed to insert product ");

    // Ten rows are skipped, and there are only three.
    let actual_products = store.list_products(ListQueryParams { limit: 10, offset: 10 });
    assert_eq!(render(&actual_products), serde_json::to_string(&Vec::<u8>::new()).unwrap());

    // From the first row on, the three come as they were stored; a product
    // that nobody stored is not among them.
    let from_start = store.list_products(ListQueryParams { limit: 10, offset: 0 });
    assert_eq!(
        render(&from_start),
        render(&[
            Product::new("boots".to_string(), 13.23f64.to_bits(), true, Some(1)),
            Product::new("running shoes".to_string(), 10.99f64.to_bits(), true, Some(2)),
            Product::new("running shoes".to_string(), 10.99f64.to_bits(), true, Some(3)),
        ])
    );
    assert_ne!(
        render(&from_start),
        render(&[
            Product::new("boots".to_string(), 13.23f64.to_bits(), true, Some(1)),
            Product::new("high heels".to_string(), 20.99f64.to_bits(), true, Some(2)),
            Product::new("running shoes".to_string(), 10.99f64.to_bits(), true, Some(3)),
        ])
    );
}

#[test]
fn create_product_round_trips_fields() {
    let mut store = MemoryStore::new();
    let created = store
        .create_product(Product::new("boots".to_string(), 1323.12f64.to_bits(), false, None))
        .unwrap();
    assert_eq!(created.id(), Some(1));
    assert_eq!(created.name(), "boots");
    assert_eq!(created.cost(), 1323.12f64.to_bits());
    assert!(!created.active());
    let second = store.create_product(product("sandals", 0.0)).unwrap();
    assert_eq!(second.id(), Some(2));
    assert_eq!(store.row_counts(), (2, 0, 0));
}

#[test]
fn create_product_does_not_use_a_key_that_comes_along() {
    let mut store = MemoryStore::new();
    let created = store
        .create_product(Product::new("boots".to_string(), 1.0f64.to_bits(), true, Some(41)))
        .unwrap();
    assert_eq!(created.id(), Some(1));
}

#[test]
fn create_product_refuses_what_is_not_valid() {
    let mut store = MemoryStore::new();
    let nameless = store.create_product(product("", 1.0)).unwrap_err();
    assert_eq!(nameless.kind(), ErrorKind::Validation);
    assert_eq!(nameless.detail(), "a product needs a name and a cost that is not negative");
    let negative = store.create_product(product("boots", -0.01)).unwrap_err();
    assert_eq!(negative.kind(), ErrorKind::Validation);
    let not_a_number = store.create_product(product("boots", f64::NAN)).unwrap_err();
    assert_eq!(not_a_number.kind(), ErrorKind::Validation);
    assert_eq!(store.row_counts(), (0, 0, 0));
    assert_eq!(store.create_product(product("boots", 1.0)).unwrap().id(), Some(1));
}

#[test]
fn create_product_fails_when_keys_run_out() {
    let mut store = MemoryStore::starting_at(i32::MAX, 1).unwrap();
    let last = store.create_product(product("boots", 1.0)).unwrap();
    assert_eq!(last.id(), Some(i32::MAX as u32));
    let error = store.create_product(product("sandals", 1.0)).unwrap_err();
    assert_eq!(error.kind(), ErrorKind::Persistence);
    assert_eq!(error.detail(), "no key is left for the row");
    assert_eq!(store.row_counts(), (1, 0, 0));
}

#[test]
fn starting_at_wants_positive_keys() {
    assert!(MemoryStore::starting_at(0, 1).is_none());
    assert!(MemoryStore::starting_at(1, 0).is_none());
    assert!(MemoryStore::starting_at(-5, -5).is_none());
    let mut store = MemoryStore::starting_at(10, 20).unwrap();
    let id = store
        .create_complete_product(CompleteProduct::new(
            product("boots", 1.0),
            vec![group("size", &[Some("12")])],
        ))
        .unwrap();
    assert_eq!(id, 10);
    let (_, pairs) = store.get_product_with_variants(10).unwrap();
    assert_eq!(pairs[0].1.id(), Some(20));
}

#[test]
fn composite_write_stores_new_variant_once_and_one_link_per_value() {
    let mut store = MemoryStore::new();
    let id = store
        .create_complete_product(CompleteProduct::new(
            product("boots", 1323.12),
            vec![group("size", &[Some("12"), Some("14"), Some("16"), Some("18")])],
        ))
        .unwrap();
    assert_eq!(id, 1);
    assert_eq!(store.row_counts(), (1, 1, 4));
    let (found, pairs) = store.get_product_with_variants(1).unwrap();
    assert_eq!(found.name(), "boots");
    assert_eq!(found.id(), Some(1));
    let values: Vec<Option<String>> = pairs.iter().map(|p| p.0.value().clone()).collect();
    assert_eq!(
        values,
        vec![
            Some("12".to_string()),
            Some("14".to_string()),
            Some("16".to_string()),
            Some("18".to_string())
        ]
    );
    for (link, variant) in &pairs {
        assert_eq!(link.product_id(), 1);
        assert_eq!(link.variant_id(), 1);
        assert_eq!(variant.id(), Some(1));
        assert_eq!(variant.name(), "size");
    }
}

#[test]
fn composite_write_counts_values_across_groups() {
    let mut store = MemoryStore::new();
    store
        .create_complete_product(CompleteProduct::new(
            product("boots", 1.0),
            vec![
                group("size", &[Some("12"), Some("14")]),
                group("color", &[Some("red"), None, Some("red")]),
                group("fit", &[]),
            ],
        ))
        .unwrap();
    assert_eq!(store.row_counts(), (1, 3, 5));
    let (_, pairs) = store.get_product_with_variants(1).unwrap();
    let seen: Vec<(i32, Option<String>, String)> = pairs
        .iter()
        .map(|p| (p.0.variant_id(), p.0.value().clone(), p.1.name().to_string()))
        .collect();
    assert_eq!(
        seen,
        vec![
            (1, Some("12".to_string()), "size".to_string()),
            (1, Some("14".to_string()), "size".to_string()),
            (2, Some("red".to_string()), "color".to_string()),
            (2, None, "color".to_string()),
            (2, Some("red".to_string()), "color".to_string()),
        ]
    );
}

#[test]
fn composite_write_reuses_existing_variant() {
    let mut store = MemoryStore::new();
    store
        .create_complete_product(CompleteProduct::new(
            product("boots", 1.0),
            vec![group("size", &[Some("12")]), group("color", &[Some("red")])],
        ))
        .unwrap();
    assert_eq!(store.row_counts(), (1, 2, 2));
    let id = store
        .create_complete_product(CompleteProduct::new(
            product("sandals", 2.0),
            vec![group("color", &[Some("blue"), Some("green")]), group("fit", &[Some("wide")])],
        ))
        .unwrap();
    assert_eq!(id, 2);
    assert_eq!(store.row_counts(), (2, 3, 5));
    let (_, pairs) = store.get_product_with_variants(2).unwrap();
    let seen: Vec<(i32, i32, String)> = pairs
        .iter()
        .map(|p| (p.0.product_id(), p.0.variant_id(), p.1.name().to_string()))
        .collect();
    assert_eq!(
        seen,
        vec![
            (2, 2, "color".to_string()),
            (2, 2, "color".to_string()),
            (2, 3, "fit".to_string()),
        ]
    );
}

#[test]
fn composite_write_matches_names_exactly() {
    let mut store = MemoryStore::new();
    store
        .create_complete_product(CompleteProduct::new(
            product("boots", 1.0),
            vec![group("size", &[]), group("Size", &[]), group("siz", &[]), group("size", &[])],
        ))
        .unwrap();
    assert_eq!(store.row_counts(), (1, 3, 0));
}

#[test]
fn composite_write_names_a_variant_twice() {
    let mut store = MemoryStore::new();
    store
        .create_complete_product(CompleteProduct::new(
            product("boots", 1.0),
            vec![group("size", &[Some("12")]), group("size", &[Some("14")])],
        ))
        .unwrap();
    assert_eq!(store.row_counts(), (1, 1, 2));
}

#[test]
fn composite_write_without_groups_stores_the_product() {
    let mut store = MemoryStore::new();
    let id = store.create_complete_product(CompleteProduct::new(product("boots", 1.0), vec![])).unwrap();
    assert_eq!(id, 1);
    assert_eq!(store.row_counts(), (1, 0, 0));
}

#[test]
fn composite_write_refuses_what_is_not_valid() {
    let mut store = MemoryStore::new();
    let error = store
        .create_complete_product(CompleteProduct::new(
            product("", 1.0),
            vec![group("size", &[Some("12")])],
        ))
        .unwrap_err();
    assert_eq!(error.kind(), ErrorKind::Validation);
    assert_eq!(store.row_counts(), (0, 0, 0));
}

#[test]
fn composite_write_rolls_back_when_it_fails() {
    let mut store = MemoryStore::starting_at(1, i32::MAX).unwrap();
    store.create_product(product("clogs", 3.0)).unwrap();
    let error = store
        .create_complete_product(CompleteProduct::new(
            product("boots", 1.0),
            vec![group("size", &[Some("12"), Some("14")]), group("color", &[Some("red")])],
        ))
        .unwrap_err();
    assert_eq!(error.kind(), ErrorKind::Persistence);
    assert_eq!(error.detail(), "no key is left for the row");
    assert_eq!(store.row_counts(), (1, 0, 0));
    let listed = store.list_products(ListQueryParams { limit: 10, offset: 0 });
    assert_eq!(listed.len(), 1);
    assert_eq!(listed[0].name(), "clogs");
    assert_eq!(store.get_product(2).unwrap_err().kind(), ErrorKind::NotFound);
    match store.execute(Statement::FindVariant("size".to_string())) {
        Reply::VariantLookup(None) => {}
        other => panic!("{:?}", other),
    }
    // What was taken back left no trace: the keys are given out again.
    let id = store
        .create_complete_product(CompleteProduct::new(
            product("boots", 1.0),
            vec![group("size", &[Some("12")])],
        ))
        .unwrap();
    assert_eq!(id, 2);
    let (_, pairs) = store.get_product_with_variants(2).unwrap();
    assert_eq!(pairs[0].1.id(), Some(i32::MAX as u32));
}

#[test]
fn composite_write_fails_when_product_keys_run_out() {
    let mut store = MemoryStore::starting_at(i32::MAX, 1).unwrap();
    store.create_product(product("clogs", 3.0)).unwrap();
    let error = store
        .create_complete_product(CompleteProduct::new(product("boots", 1.0), vec![]))
        .unwrap_err();
    assert_eq!(error.kind(), ErrorKind::Persistence);
    assert_eq!(store.row_counts(), (1, 0, 0));
}

#[test]
fn two_writes_with_a_new_variant_leave_one_row() {
    let mut store = MemoryStore::new();
    let first = store
        .create_complete_product(CompleteProduct::new(
            product("boots", 1.0),
            vec![group("size", &[Some("12")])],
        ))
        .unwrap();
    let second = store
        .create_complete_product(CompleteProduct::new(
            product("sandals", 1.0),
            vec![group("size", &[Some("14")])],
        ))
        .unwrap();
    assert_eq!((first, second), (1, 2));
    assert_eq!(store.row_counts(), (2, 1, 2));
}

#[test]
fn list_products_pages_by_ascending_key() {
    let mut store = MemoryStore::new();
    for name in ["a", "b", "c", "d", "e"] {
        store.create_product(product(name, 1.0)).unwrap();
    }
    let names = |products: Vec<Product>| -> Vec<(Option<u32>, String)> {
        products.iter().map(|p| (p.id(), p.name().to_string())).collect()
    };
    let all = names(store.list_products(ListQueryParams { limit: 10, offset: 0 }));
    assert_eq!(
        all,
        vec![
            (Some(1), "a".to_string()),
            (Some(2), "b".to_string()),
            (Some(3), "c".to_string()),
            (Some(4), "d".to_string()),
            (Some(5), "e".to_string())
        ]
    );
    let middle = names(store.list_products(ListQueryParams { limit: 2, offset: 1 }));
    assert_eq!(middle, vec![(Some(2), "b".to_string()), (Some(3), "c".to_string())]);
    let tail = names(store.list_products(ListQueryParams { limit: 10, offset: 4 }));
    assert_eq!(tail, vec![(Some(5), "e".to_string())]);
    assert!(store.list_products(ListQueryParams { limit: 0, offset: 0 }).is_empty());
    assert!(store.list_products(ListQueryParams { limit: 10, offset: 5 }).is_empty());
    assert!(store.list_products(ListQueryParams { limit: u64::MAX, offset: u64::MAX }).is_empty());
    assert_eq!(store.list_products(ListQueryParams { limit: u64::MAX, offset: 0 }).len(), 5);
    assert!(MemoryStore::new().list_products(ListQueryParams { limit: 10, offset: 0 }).is_empty());
}

#[test]
fn list_products_after_three_inserts() {
    let mut store = MemoryStore::new();
    store.create_product(product("boots", 13.23)).unwrap();
    store.create_product(product("high heels", 20.99)).unwrap();
    store.create_product(product("running shoes", 10.99)).unwrap();
    let listed = store.list_products(ListQueryParams { limit: 10, offset: 0 });
    assert_eq!(listed.len(), 3);
    assert_eq!(
        render(&listed),
        render(&[
            Product::new("boots".to_string(), 13.23f64.to_bits(), true, Some(1)),
            Product::new("high heels".to_string(), 20.99f64.to_bits(), true, Some(2)),
            Product::new("running shoes".to_string(), 10.99f64.to_bits(), true, Some(3)),
        ])
    );
}

#[test]
fn list_with_variants_gives_empty_sequence_for_bare_product() {
    let mut store = MemoryStore::new();
    store.create_product(product("boots", 1.0)).unwrap();
    store
        .create_complete_product(CompleteProduct::new(
            product("sandals", 1.0),
            vec![group("size", &[Some("12"), None])],
        ))
        .unwrap();
    store.create_product(product("clogs", 1.0)).unwrap();
    let listed = store.list_products_with_variants(ListQueryParams { limit: 10, offset: 0 }).unwrap();
    assert_eq!(listed.len(), 3);
    assert_eq!(listed[0].0.name(), "boots");
    assert!(listed[0].1.is_empty());
    assert_eq!(listed[1].0.name(), "sandals");
    assert_eq!(listed[1].1.len(), 2);
    assert_eq!(listed[1].1[0].0.value(), &Some("12".to_string()));
    assert_eq!(listed[1].1[1].0.value(), &None);
    assert_eq!(listed[1].1[1].1.name(), "size");
    assert_eq!(listed[2].0.name(), "clogs");
    assert!(listed[2].1.is_empty());
    let page = store.list_products_with_variants(ListQueryParams { limit: 1, offset: 1 }).unwrap();
    assert_eq!(page.len(), 1);
    assert_eq!(page[0].0.id(), Some(2));
    assert_eq!(page[0].1.len(), 2);
    assert!(store
        .list_products_with_variants(ListQueryParams { limit: 5, offset: 3 })
        .unwrap()
        .is_empty());
}

#[test]
fn get_product_tells_absent_from_present() {
    let mut store = MemoryStore::new();
    store.create_product(product("boots", 1.0)).unwrap();
    let found = store.get_product(1).unwrap();
    assert_eq!(found.id(), Some(1));
    assert_eq!(found.name(), "boots");
    for id in [0u32, 2, 77, i32::MAX as u32, i32::MAX as u32 + 1, u32::MAX] {
        let error = store.get_product(id).unwrap_err();
        assert_eq!(error.kind(), ErrorKind::NotFound);
        assert_eq!(error.detail(), "no product has this key");
        assert_eq!(store.get_product_with_variants(id).unwrap_err().kind(), ErrorKind::NotFound);
    }
    let (with, pairs) = store.get_product_with_variants(1).unwrap();
    assert_eq!(with.name(), "boots");
    assert!(pairs.is_empty());
}

#[test]
fn backend_refuses_second_variant_of_a_name() {
    let mut store = MemoryStore::new();
    match store.execute(Statement::InsertVariant(NewVariantModel { name: "size".to_string() })) {
        Reply::VariantInserted(row) => assert_eq!((row.id, row.name.as_str()), (1, "size")),
        other => panic!("{:?}", other),
    }
    match store.execute(Statement::InsertVariant(NewVariantModel { name: "size".to_string() })) {
        Reply::Failed(error) => {
            assert_eq!(error.kind(), ErrorKind::Conflict);
            assert_eq!(error.detail(), "a variant with this name exists");
        }
        other => panic!("{:?}", other),
    }
    assert_eq!(store.row_counts(), (0, 1, 0));
    match store.execute(Statement::FindVariant("size".to_string())) {
        Reply::VariantLookup(Some(row)) => assert_eq!(row.id, 1),
        other => panic!("{:?}", other),
    }
}

#[test]
fn backend_refuses_link_without_parents() {
    let mut store = MemoryStore::new();
    store.create_product(product("boots", 1.0)).unwrap();
    let dangling = ProductVariantModel { product_id: 1, variant_id: 1, value: None };
    match store.execute(Statement::InsertLink(dangling)) {
        Reply::Failed(error) => {
            assert_eq!(error.kind(), ErrorKind::Conflict);
            assert_eq!(error.detail(), "the product or the variant of the link does not exist");
        }
        other => panic!("{:?}", other),
    }
    store.execute(Statement::InsertVariant(NewVariantModel { name: "size".to_string() }));
    let orphan = ProductVariantModel { product_id: 2, variant_id: 1, value: None };
    assert!(matches!(store.execute(Statement::InsertLink(orphan)), Reply::Failed(_)));
    let sound = ProductVariantModel { product_id: 1, variant_id: 1, value: Some("12".to_string()) };
    assert!(matches!(store.execute(Statement::InsertLink(sound)), Reply::LinkInserted));
    assert_eq!(store.row_counts(), (1, 1, 1));
}

#[test]
fn backend_fails_when_variant_keys_run_out() {
    let mut store = MemoryStore::starting_at(1, i32::MAX).unwrap();
    assert!(matches!(
        store.execute(Statement::InsertVariant(NewVariantModel { name: "size".to_string() })),
        Reply::VariantInserted(_)
    ));
    match store.execute(Statement::InsertVariant(NewVariantModel { name: "color".to_string() })) {
        Reply::Failed(error) => assert_eq!(error.kind(), ErrorKind::Persistence),
        other => panic!("{:?}", other),
    }
}
