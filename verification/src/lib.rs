//! A product catalog store: products carry an open-ended set of variant
//! attributes, each with any number of values, linked through a join row.

pub mod backend;
pub mod complete_product;
pub mod composite;
pub mod concurrency;
pub mod datastore;
pub mod error;
pub mod laws;
pub mod listing;
pub mod mappers;
pub mod memory;
pub mod models;
pub mod params;
pub mod product;
pub mod product_variant;
pub mod repository;
pub mod soundness;
pub mod tables;
pub mod variant;
pub mod variant_value;
