//! The store's behaviour on concrete values: the CRUD round trips, the
//! foreign-key and duplicate checks, the seeding and the truncation.

use data::db_actions::{CustomerRepository, DbMockData, OrderRepository, ProductRepository};
use data::models::{Customer, Order, OrderLine, OrderWithProducts, Product};
use data::services::customer_service::CustomerService;
use data::services::product_service::ProductService;
use data::store::{DbError, Store};

fn product(name: &str, price: i32, available: bool) -> Product {
    Product {
        id: 0,
        name: name.to_string(),
        price,
        available,
    }
}

fn customer(name: &str, address: &str) -> Customer {
    Customer {
        id: 0,
        name: name.to_string(),
        address: address.to_string(),
    }
}

fn order(customer_id: i32, status: &str, created_at: i64) -> Order {
    Order {
        id: 0,
        customer_id,
        status: status.to_string(),
        created_at,
    }
}

#[test]
fn create_then_get_product_returns_equal_record() {
    let mut store = Store::new();
    let id = ProductService::create_product(&mut store, product("Widget", 10, true)).unwrap();
    let got = ProductService::get_product(&store, id).unwrap();
    assert_eq!(got.id, id);
    assert_eq!(got.name, "Widget");
    assert_eq!(got.price, 10);
    assert!(got.available);
}

#[test]
fn assigned_ids_are_fresh() {
    let mut store = Store::new();
    let first = ProductService::create_product(&mut store, product("a", 1, true)).unwrap();
    let second = ProductService::create_product(&mut store, product("b", 2, false)).unwrap();
    assert_ne!(first, second);
    let all = ProductService::get_all_products(&store).unwrap();
    assert!(all.iter().filter(|p| p.id == second).count() == 1);
}

#[test]
fn get_all_products_contains_all_created() {
    let mut store = Store::new();
    let rows = vec![
        product("a", 1, true),
        product("b", 2, false),
        product("c", 3, true),
    ];
    ProductService::create_products(&mut store, &rows).unwrap();
    let all = ProductService::get_all_products(&store).unwrap();
    assert!(all.len() >= rows.len());
    for row in &rows {
        assert!(all
            .iter()
            .any(|p| p.name == row.name && p.price == row.price && p.available == row.available));
    }
}

#[test]
fn create_products_drops_no_row_past_the_statement_limit() {
    let mut store = Store::new();
    let count = 21846; // one more row than fits a single statement at 3 columns
    let mut rows = Vec::new();
    for i in 0..count {
        rows.push(product("bulk", i, true));
    }
    ProductService::create_products(&mut store, &rows).unwrap();
    let all = ProductService::get_all_products(&store).unwrap();
    assert_eq!(all.len(), count as usize);
    assert_eq!(all[21845].price, 21845);
}

#[test]
fn update_product_changes_exactly_that_row() {
    let mut store = Store::new();
    let first = ProductService::create_product(&mut store, product("a", 1, true)).unwrap();
    let second = ProductService::create_product(&mut store, product("b", 2, false)).unwrap();
    ProductService::update_product(
        &mut store,
        Product {
            id: second,
            name: "b2".to_string(),
            price: 20,
            available: true,
        },
    )
    .unwrap();
    let kept = ProductService::get_product(&store, first).unwrap();
    assert_eq!(kept.name, "a");
    assert_eq!(kept.price, 1);
    let changed = ProductService::get_product(&store, second).unwrap();
    assert_eq!(changed.name, "b2");
    assert_eq!(changed.price, 20);
    assert!(changed.available);
}

#[test]
fn update_product_on_unknown_id_is_a_silent_no_op() {
    let mut store = Store::new();
    ProductService::create_product(&mut store, product("a", 1, true)).unwrap();
    let outcome = ProductService::update_product(
        &mut store,
        Product {
            id: 999,
            name: "ghost".to_string(),
            price: 0,
            available: false,
        },
    );
    assert!(outcome.is_ok());
    let all = ProductService::get_all_products(&store).unwrap();
    assert_eq!(all.len(), 1);
    assert_eq!(all[0].name, "a");
}

#[test]
fn get_product_on_unknown_id_reports_not_found() {
    let store = Store::new();
    assert_eq!(
        ProductService::get_product(&store, 7).unwrap_err(),
        DbError::NotFound
    );
}

#[test]
fn customer_round_trip() {
    let mut store = Store::new();
    CustomerService::create_customer(&mut store, customer("Ada", "1 Main St")).unwrap();
    let all = CustomerService::get_all_customers(&store).unwrap();
    assert_eq!(all.len(), 1);
    let got = CustomerService::get_customer(&store, all[0].id).unwrap();
    assert_eq!(got.name, "Ada");
    assert_eq!(got.address, "1 Main St");
    CustomerService::update_customer(
        &mut store,
        Customer {
            id: got.id,
            name: "Ada".to_string(),
            address: "2 Side St".to_string(),
        },
    )
    .unwrap();
    let moved = CustomerService::get_customer(&store, got.id).unwrap();
    assert_eq!(moved.address, "2 Side St");
}

#[test]
fn create_order_writes_exactly_its_join_rows() {
    let mut store = Store::new();
    CustomerService::create_customer(&mut store, customer("Ada", "1 Main St")).unwrap();
    let cid = CustomerService::get_all_customers(&store).unwrap()[0].id;
    let p0 = ProductService::create_product(&mut store, product("a", 1, true)).unwrap();
    let p1 = ProductService::create_product(&mut store, product("b", 2, true)).unwrap();
    let reqs = vec![OrderWithProducts {
        order: order(cid, "New", 1700000000),
        lines: vec![
            OrderLine {
                product_id: p0,
                quantity: 3,
            },
            OrderLine {
                product_id: p1,
                quantity: 4,
            },
        ],
    }];
    OrderRepository::create_orders(&mut store, &reqs).unwrap();
    let orders = store.all_orders();
    assert_eq!(orders.len(), 1);
    let oid = orders[0].id;
    let rows: Vec<_> = store
        .products_in_orders
        .iter()
        .filter(|j| j.order_id == oid)
        .collect();
    assert_eq!(rows.len(), 2);
    assert_eq!(store.products_in_orders.len(), 2);
    assert_eq!(rows[0].product_id, p0);
    assert_eq!(rows[0].quantity, 3);
    assert_eq!(rows[1].product_id, p1);
    assert_eq!(rows[1].quantity, 4);
}

#[test]
fn failed_order_creation_writes_nothing() {
    let mut store = Store::new();
    CustomerService::create_customer(&mut store, customer("Ada", "1 Main St")).unwrap();
    let cid = CustomerService::get_all_customers(&store).unwrap()[0].id;
    let reqs = vec![OrderWithProducts {
        order: order(cid, "New", 0),
        lines: vec![OrderLine {
            product_id: 42, // no such product
            quantity: 1,
        }],
    }];
    let outcome = OrderRepository::create_orders(&mut store, &reqs);
    assert_eq!(outcome.unwrap_err(), DbError::ForeignKeyViolation);
    assert_eq!(store.all_orders().len(), 0);
    assert_eq!(store.products_in_orders.len(), 0);
}

#[test]
fn order_for_unknown_customer_breaks_the_foreign_key() {
    let mut store = Store::new();
    let reqs = vec![OrderWithProducts {
        order: order(9, "New", 0),
        lines: vec![],
    }];
    assert_eq!(
        OrderRepository::create_orders(&mut store, &reqs).unwrap_err(),
        DbError::ForeignKeyViolation
    );
}

#[test]
fn repeated_product_in_one_order_is_a_duplicate_row() {
    let mut store = Store::new();
    CustomerService::create_customer(&mut store, customer("Ada", "1 Main St")).unwrap();
    let cid = CustomerService::get_all_customers(&store).unwrap()[0].id;
    let p0 = ProductService::create_product(&mut store, product("a", 1, true)).unwrap();
    let reqs = vec![OrderWithProducts {
        order: order(cid, "New", 0),
        lines: vec![
            OrderLine {
                product_id: p0,
                quantity: 1,
            },
            OrderLine {
                product_id: p0,
                quantity: 2,
            },
        ],
    }];
    assert_eq!(
        OrderRepository::create_orders(&mut store, &reqs).unwrap_err(),
        DbError::DuplicateRow
    );
    assert_eq!(store.products_in_orders.len(), 0);
}

#[test]
fn exhausted_serial_column_reports_id_space() {
    let mut store = Store::new();
    store.next_product_id = i32::MAX;
    assert_eq!(
        ProductService::create_product(&mut store, product("late", 1, true)).unwrap_err(),
        DbError::IdSpaceExhausted
    );
    assert_eq!(ProductService::get_all_products(&store).unwrap().len(), 0);
}

#[test]
fn clearing_products_with_live_join_rows_is_rejected() {
    let mut store = Store::new();
    let mock = DbMockData::new();
    mock.fill(&mut store).unwrap();
    assert_eq!(
        ProductRepository::clear(&mut store).unwrap_err(),
        DbError::ForeignKeyViolation
    );
    assert_eq!(ProductService::get_all_products(&store).unwrap().len(), 2);
}

#[test]
fn fill_seeds_the_demo_rows() {
    let mut store = Store::new();
    let mock = DbMockData::new();
    mock.fill(&mut store).unwrap();

    let products = ProductService::get_all_products(&store).unwrap();
    assert_eq!(products.len(), 2);
    assert_eq!(products[0].name, "Product 1");
    assert_eq!(products[0].price, 1);
    assert_eq!(products[1].name, "Product 2");
    assert_eq!(products[1].price, 2);

    let customers = CustomerService::get_all_customers(&store).unwrap();
    assert_eq!(customers.len(), 2);
    assert_eq!(customers[0].name, "Customer 1");
    assert_eq!(customers[0].address, "Address 1");
    assert_eq!(customers[1].name, "Customer 2");

    let orders = store.all_orders();
    assert_eq!(orders.len(), 3);
    assert_eq!(orders[0].customer_id, customers[0].id);
    assert_eq!(orders[0].status, "In progress");
    assert_eq!(orders[1].customer_id, customers[0].id);
    assert_eq!(orders[2].customer_id, customers[1].id);
    assert_eq!(orders[2].status, "New");

    assert_eq!(store.products_in_orders.len(), 6);
    let quantities: Vec<i32> = store.products_in_orders.iter().map(|j| j.quantity).collect();
    assert_eq!(quantities, vec![1, 2, 6, 2, 3, 4]);
}

#[test]
fn grouped_orders_follow_the_customers() {
    let mut store = Store::new();
    let mock = DbMockData::new();
    mock.fill(&mut store).unwrap();
    let grouped = OrderRepository::get_all_orders(&store).unwrap();
    assert_eq!(grouped.len(), 2);
    assert_eq!(grouped[0].0.name, "Customer 1");
    assert_eq!(grouped[0].1.len(), 2);
    assert_eq!(grouped[1].0.name, "Customer 2");
    assert_eq!(grouped[1].1.len(), 1);
    for (customer_row, customer_orders) in &grouped {
        for o in customer_orders {
            assert_eq!(o.customer_id, customer_row.id);
        }
    }
}

#[test]
fn clear_then_get_all_returns_empty_collections() {
    let mut store = Store::new();
    let mock = DbMockData::new();
    mock.fill(&mut store).unwrap();
    mock.clear(&mut store).unwrap();
    assert_eq!(ProductService::get_all_products(&store).unwrap().len(), 0);
    assert_eq!(CustomerService::get_all_customers(&store).unwrap().len(), 0);
    assert_eq!(store.all_orders().len(), 0);
    assert_eq!(store.products_in_orders.len(), 0);
    assert_eq!(OrderRepository::get_all_orders(&store).unwrap().len(), 0);
}

#[test]
fn serial_ids_keep_counting_after_clear() {
    let mut store = Store::new();
    let first = ProductService::create_product(&mut store, product("a", 1, true)).unwrap();
    let mock = DbMockData::new();
    mock.clear(&mut store).unwrap();
    let second = ProductService::create_product(&mut store, product("b", 2, true)).unwrap();
    assert_ne!(first, second);
    assert!(second > first);
}

#[test]
fn repositories_mirror_the_services() {
    let mut store = Store::new();
    ProductRepository::create_product(&mut store, product("a", 1, true)).unwrap();
    CustomerRepository::create_customer(&mut store, customer("Ada", "1 Main St")).unwrap();
    assert_eq!(
        ProductRepository::get_all_products(&store).unwrap().len(),
        1
    );
    assert_eq!(
        CustomerRepository::get_all_customers(&store).unwrap().len(),
        1
    );
    OrderRepository::clear(&mut store).unwrap();
    CustomerRepository::clear(&mut store).unwrap();
    ProductRepository::clear(&mut store).unwrap();
    assert_eq!(
        ProductRepository::get_all_products(&store).unwrap().len(),
        0
    );
}
