use product_store::complete_product::CompleteProduct;
use product_store::mappers::{
    key_to_u32, map_product_and_variant_model_to_variant, map_product_model_to_product,
    map_product_variant_model_to_product_variant, map_variant_model_to_variant,
};
use product_store::models::{ProductModel, ProductVariantModel, VariantModel};
use product_store::params::ListQueryParams;
use product_store::product::Product;
use product_store::product_variant::ProductVariant;
use product_store::variant::Variant;
use product_store::variant_value::VariantValue;

#[test]
fn product_keeps_what_it_was_made_with() {
    let product = Product::new("boots".to_string(), 1323.12f64.to_bits(), true, Some(7));
    assert_eq!(product.id(), Some(7));
    assert_eq!(product.name(), "boots");
    assert_eq!(f64::from_bits(product.cost()), 1323.12);
    assert!(product.active());
    let transient = Product::new("sandals".to_string(), 0.5f64.to_bits(), false, None);
    assert_eq!(transient.id(), None);
    assert!(!transient.active());
}

#[test]
fn product_validity_follows_the_comparison_of_doubles() {
    let costs = [
        0.0f64,
        -0.0,
        0.01,
        1323.12,
        f64::MAX,
        f64::MIN_POSITIVE,
        f64::INFINITY,
        f64::NAN,
        -f64::NAN,
        -0.01,
        -1.0,
        f64::MIN,
        -f64::MIN_POSITIVE,
        f64::NEG_INFINITY,
    ];
    for cost in costs {
        let product = Product::new("boots".to_string(), cost.to_bits(), true, None);
        assert_eq!(product.is_valid(), cost >= 0.0, "cost {}", cost);
    }
}

#[test]
fn product_without_name_is_not_valid() {
    assert!(!Product::new(String::new(), 1.0f64.to_bits(), true, None).is_valid());
    assert!(Product::new(" ".to_string(), 1.0f64.to_bits(), true, None).is_valid());
}

#[test]
fn variant_keeps_what_it_was_made_with() {
    let variant = Variant::new("size".to_string(), Some(3));
    assert_eq!(variant.id(), Some(3));
    assert_eq!(variant.name(), "size");
    let copy = variant.clone();
    assert_eq!(copy.id(), Some(3));
    assert_eq!(copy.name(), "size");
    assert_eq!(Variant::new("color".to_string(), None).id(), None);
}

#[test]
fn product_variant_keeps_what_it_was_made_with() {
    let link = ProductVariant::new(4, 9, Some("12".to_string()));
    assert_eq!(link.product_id(), 4);
    assert_eq!(link.variant_id(), 9);
    assert_eq!(link.value(), &Some("12".to_string()));
    let bare = ProductVariant::new(-1, 0, None);
    assert_eq!(bare.product_id(), -1);
    assert_eq!(bare.variant_id(), 0);
    assert_eq!(bare.value(), &None);
}

#[test]
fn variant_value_keeps_values_in_order() {
    let values = vec![Some("12".to_string()), None, Some("12".to_string())];
    let group = VariantValue::new(Variant::new("size".to_string(), None), values.clone());
    assert_eq!(group.variant().name(), "size");
    assert_eq!(group.variant().id(), None);
    assert_eq!(group.values(), &values);
    let copy = group.clone();
    assert_eq!(copy.values(), &values);
}

#[test]
fn complete_product_keeps_product_and_groups() {
    let product = Product::new("boots".to_string(), 13.23f64.to_bits(), true, None);
    let groups = vec![
        VariantValue::new(Variant::new("size".to_string(), None), vec![Some("12".to_string())]),
        VariantValue::new(Variant::new("color".to_string(), None), vec![]),
    ];
    let complete = CompleteProduct::new(product, groups);
    assert_eq!(complete.product().name(), "boots");
    assert_eq!(complete.variants().len(), 2);
    assert_eq!(complete.variants()[0].variant().name(), "size");
    assert_eq!(complete.variants()[1].variant().name(), "color");
    assert!(complete.variants()[1].values().is_empty());
}

#[test]
fn key_to_u32_agrees_with_the_cast() {
    for key in [0i32, 1, 2, 1323, i32::MAX, -1, -2, i32::MIN, i32::MIN + 1] {
        assert_eq!(key_to_u32(key), key as u32);
    }
    assert_eq!(key_to_u32(-1), 4_294_967_295);
    assert_eq!(key_to_u32(i32::MIN), 2_147_483_648);
}

#[test]
fn product_model_maps_to_product() {
    let product = map_product_model_to_product(ProductModel {
        id: 5,
        name: "boots".to_string(),
        cost: 1323.12f64.to_bits(),
        active: true,
    });
    assert_eq!(product.id(), Some(5));
    assert_eq!(product.name(), "boots");
    assert_eq!(f64::from_bits(product.cost()), 1323.12);
    assert!(product.active());
}

#[test]
fn link_model_maps_to_product_variant() {
    let link = map_product_variant_model_to_product_variant(ProductVariantModel {
        product_id: 1,
        variant_id: 2,
        value: Some("red".to_string()),
    });
    assert_eq!(link.product_id(), 1);
    assert_eq!(link.variant_id(), 2);
    assert_eq!(link.value(), &Some("red".to_string()));
}

#[test]
fn variant_model_maps_to_variant() {
    let variant = map_variant_model_to_variant(VariantModel { id: 8, name: "color".to_string() });
    assert_eq!(variant.id(), Some(8));
    assert_eq!(variant.name(), "color");
}

#[test]
fn joined_models_map_to_pair() {
    let (link, variant) = map_product_and_variant_model_to_variant((
        ProductVariantModel { product_id: 1, variant_id: 8, value: None },
        VariantModel { id: 8, name: "color".to_string() },
    ));
    assert_eq!(link.product_id(), 1);
    assert_eq!(link.variant_id(), 8);
    assert_eq!(link.value(), &None);
    assert_eq!(variant.id(), Some(8));
    assert_eq!(variant.name(), "color");
}

#[test]
fn list_params_turn_signed() {
    let params = ListQueryParams { limit: 10, offset: 20 };
    assert_eq!(params.signed_limit(), 10);
    assert_eq!(params.signed_offset(), 20);
    let edge = ListQueryParams { limit: i64::MAX as u64, offset: 0 };
    assert_eq!(edge.signed_limit(), i64::MAX);
    assert_eq!(edge.signed_offset(), 0);
    let beyond = ListQueryParams { limit: u64::MAX, offset: i64::MAX as u64 + 1 };
    assert_eq!(beyond.signed_limit(), i64::MAX);
    assert_eq!(beyond.signed_offset(), i64::MAX);
}
