use product_store::complete_product::CompleteProduct;
use product_store::composite::{CompositeWrite, Reply, Statement, Step};
use product_store::error::{ErrorKind, StoreError};
use product_store::models::{ProductModel, VariantModel};
use product_store::product::Product;
use product_store::variant::Variant;
use product_store::variant_value::VariantValue;

fn input(groups: Vec<VariantValue>) -> CompleteProduct {
    CompleteProduct::new(Product::new("boots".to_string(), 13.23f64.to_bits(), true, None), groups)
}

fn group(name: &str, values: &[Option<&str>]) -> VariantValue {
    VariantValue::new(
        Variant::new(name.to_string(), Some(99)),
        values.iter().map(|v| v.map(|s| s.to_string())).collect(),
    )
}

fn running(step: Step) -> (CompositeWrite, Statement) {
    match step {
        Step::Run(write, statement) => (write, statement),
        Step::Commit(id) => panic!("committed {}", id),
        Step::Rollback(error) => panic!("rolled back {:?}", error),
    }
}

fn stored_product(id: i32) -> Reply {
    Reply::ProductInserted(ProductModel {
        id,
        name: "boots".to_string(),
        cost: 13.23f64.to_bits(),
        active: true,
    })
}

#[test]
fn write_begins_with_the_product() {
    let (_, statement) = running(CompositeWrite::begin(input(vec![group("size", &[Some("12")])])));
    match statement {
        Statement::InsertProduct(new) => {
            assert_eq!(new.name, "boots");
            assert_eq!(new.cost, 13.23f64.to_bits());
            assert!(new.active);
        }
        other => panic!("{:?}", other),
    }
}

#[test]
fn write_refuses_invalid_product_before_any_statement() {
    let nameless = CompleteProduct::new(
        Product::new(String::new(), 1.0f64.to_bits(), true, None),
        vec![group("size", &[Some("12")])],
    );
    match CompositeWrite::begin(nameless) {
        Step::Rollback(error) => {
            assert_eq!(error.kind(), ErrorKind::Validation);
            assert_eq!(error.detail(), "a product needs a name and a cost that is not negative");
        }
        _ => panic!("a product without a name was let through"),
    }
    let negative = CompleteProduct::new(
        Product::new("boots".to_string(), (-1.0f64).to_bits(), true, None),
        vec![],
    );
    assert!(matches!(CompositeWrite::begin(negative), Step::Rollback(_)));
}

#[test]
fn write_without_groups_commits_after_the_product() {
    let (write, _) = running(CompositeWrite::begin(input(vec![])));
    match write.advance(stored_product(7)) {
        Step::Commit(id) => assert_eq!(id, 7),
        _ => panic!("did not commit"),
    }
}

#[test]
fn write_finds_or_creates_then_links_each_value() {
    let groups = vec![
        group("size", &[Some("12"), Some("12"), None]),
        group("fit", &[]),
        group("color", &[Some("red")]),
    ];
    let (write, _) = running(CompositeWrite::begin(input(groups)));

    // The first variant is not there: it is stored, then linked three times.
    let (write, statement) = running(write.advance(stored_product(5)));
    assert!(matches!(&statement, Statement::FindVariant(name) if name == "size"));
    let (write, statement) = running(write.advance(Reply::VariantLookup(None)));
    assert!(matches!(&statement, Statement::InsertVariant(new) if new.name == "size"));
    let (mut write, mut statement) = running(
        write.advance(Reply::VariantInserted(VariantModel { id: 30, name: "size".to_string() })),
    );
    for expected in [Some("12".to_string()), Some("12".to_string()), None] {
        match &statement {
            Statement::InsertLink(link) => {
                assert_eq!((link.product_id, link.variant_id), (5, 30));
                assert_eq!(link.value, expected);
            }
            other => panic!("{:?}", other),
        }
        let next = running(write.advance(Reply::LinkInserted));
        write = next.0;
        statement = next.1;
    }

    // The second group has no values: its variant is found, and the third
    // group is next.
    assert!(matches!(&statement, Statement::FindVariant(name) if name == "fit"));
    let (write, statement) = running(
        write.advance(Reply::VariantLookup(Some(VariantModel { id: 2, name: "fit".to_string() }))),
    );
    assert!(matches!(&statement, Statement::FindVariant(name) if name == "color"));

    // The third variant is there: it is not stored again.
    let (write, statement) = running(
        write.advance(Reply::VariantLookup(Some(VariantModel { id: 4, name: "color".to_string() }))),
    );
    match &statement {
        Statement::InsertLink(link) => {
            assert_eq!((link.product_id, link.variant_id), (5, 4));
            assert_eq!(link.value, Some("red".to_string()));
        }
        other => panic!("{:?}", other),
    }
    match write.advance(Reply::LinkInserted) {
        Step::Commit(id) => assert_eq!(id, 5),
        _ => panic!("did not commit"),
    }
}

#[test]
fn write_ends_with_the_failure_it_is_told_of() {
    let failure = || StoreError::new(ErrorKind::Conflict, "duplicate key".to_string());
    let check = |step: Step| match step {
        Step::Rollback(error) => {
            assert_eq!(error.kind(), ErrorKind::Conflict);
            assert_eq!(error.detail(), "duplicate key");
        }
        _ => panic!("went on after a failure"),
    };
    let groups = || vec![group("size", &[Some("12")])];

    let (write, _) = running(CompositeWrite::begin(input(groups())));
    check(write.advance(Reply::Failed(failure())));

    let (write, _) = running(CompositeWrite::begin(input(groups())));
    let (write, _) = running(write.advance(stored_product(1)));
    check(write.advance(Reply::Failed(failure())));

    let (write, _) = running(CompositeWrite::begin(input(groups())));
    let (write, _) = running(write.advance(stored_product(1)));
    let (write, _) = running(write.advance(Reply::VariantLookup(None)));
    check(write.advance(Reply::Failed(failure())));

    let (write, _) = running(CompositeWrite::begin(input(groups())));
    let (write, _) = running(write.advance(stored_product(1)));
    let (write, _) = running(
        write.advance(Reply::VariantLookup(Some(VariantModel { id: 1, name: "size".to_string() }))),
    );
    check(write.advance(Reply::Failed(failure())));
}

#[test]
fn write_ends_on_an_answer_that_does_not_fit() {
    let check = |step: Step| match step {
        Step::Rollback(error) => {
            assert_eq!(error.kind(), ErrorKind::Persistence);
            assert_eq!(error.detail(), "the answer of the backend does not fit the statement");
        }
        _ => panic!("went on after a wrong answer"),
    };
    let groups = || vec![group("size", &[Some("12")])];

    let (write, _) = running(CompositeWrite::begin(input(groups())));
    check(write.advance(Reply::LinkInserted));

    let (write, _) = running(CompositeWrite::begin(input(groups())));
    let (write, _) = running(write.advance(stored_product(1)));
    check(write.advance(stored_product(2)));

    let (write, _) = running(CompositeWrite::begin(input(groups())));
    let (write, _) = running(write.advance(stored_product(1)));
    let (write, _) = running(write.advance(Reply::VariantLookup(None)));
    check(write.advance(Reply::VariantLookup(None)));

    let (write, _) = running(CompositeWrite::begin(input(groups())));
    let (write, _) = running(write.advance(stored_product(1)));
    let (write, _) = running(
        write.advance(Reply::VariantLookup(Some(VariantModel { id: 1, name: "size".to_string() }))),
    );
    check(write.advance(Reply::VariantInserted(VariantModel { id: 1, name: "size".to_string() })));
}
