pub mod customer_service;
pub mod product_service;
