//! The HTTP surface on concrete requests: the route table, the id parser,
//! the dispatch, and the error mapping.

use data::app::{App, HttpMethod, Route};
use data::batch::{chunk_ranges, rows_per_statement};
use data::controllers::{CustomerBody, OrderBody, ProductBody, Request, RequestBody, Response, ResponseBody};
use data::models::OrderLine;
use data::store::Store;

fn path(segments: &[&str]) -> Vec<String> {
    segments.iter().map(|s| s.to_string()).collect()
}

fn split(p: &str) -> Vec<String> {
    p.split('/').map(|s| s.to_string()).collect()
}

#[test]
fn parse_id_accepts_decimal_digits() {
    assert_eq!(data::app::parse_id("123"), Some(123));
    assert_eq!(data::app::parse_id("0"), Some(0));
    assert_eq!(data::app::parse_id("007"), Some(7));
    assert_eq!(data::app::parse_id("2147483647"), Some(i32::MAX));
}

#[test]
fn parse_id_rejects_everything_else() {
    assert_eq!(data::app::parse_id(""), None);
    assert_eq!(data::app::parse_id("12a"), None);
    assert_eq!(data::app::parse_id("-4"), None);
    assert_eq!(data::app::parse_id("all"), None);
    assert_eq!(data::app::parse_id("2147483648"), None);
    assert_eq!(data::app::parse_id("99999999999999999999"), None);
}

#[test]
fn route_table_resolves_reads() {
    assert_eq!(
        App::match_route(HttpMethod::Get, &split("/api/product/all")),
        Route::GetAllProducts
    );
    assert_eq!(
        App::match_route(HttpMethod::Get, &split("/api/product/5")),
        Route::GetProduct(5)
    );
    assert_eq!(
        App::match_route(HttpMethod::Get, &split("/api/customer/all")),
        Route::GetAllCustomers
    );
    assert_eq!(
        App::match_route(HttpMethod::Get, &split("/api/order/7")),
        Route::GetOrder(7)
    );
    assert_eq!(
        App::match_route(HttpMethod::Get, &split("/api/order/all")),
        Route::GetAllOrders
    );
}

#[test]
fn route_table_resolves_writes() {
    assert_eq!(
        App::match_route(HttpMethod::Post, &split("/api/admin/product")),
        Route::CreateProduct
    );
    assert_eq!(
        App::match_route(HttpMethod::Put, &split("/api/admin/product/5")),
        Route::UpdateProduct(5)
    );
    assert_eq!(
        App::match_route(HttpMethod::Patch, &split("/api/admin/product/5")),
        Route::UpdateProduct(5)
    );
    assert_eq!(
        App::match_route(HttpMethod::Post, &split("/api/admin/order")),
        Route::CreateOrder
    );
    assert_eq!(
        App::match_route(HttpMethod::Patch, &split("/api/admin/customer/2")),
        Route::UpdateCustomer(2)
    );
}

#[test]
fn route_table_falls_back_to_unknown() {
    assert_eq!(
        App::match_route(HttpMethod::Get, &split("/api/product")),
        Route::Unknown
    );
    assert_eq!(
        App::match_route(HttpMethod::Get, &split("/api/basket/1")),
        Route::Unknown
    );
    assert_eq!(
        App::match_route(HttpMethod::Post, &split("/api/product/all")),
        Route::Unknown
    );
    assert_eq!(
        App::match_route(HttpMethod::Get, &split("/api/product/x9")),
        Route::Unknown
    );
    assert_eq!(
        App::match_route(HttpMethod::Put, &split("/api/admin/product/")),
        Route::Unknown
    );
    assert_eq!(
        App::match_route(HttpMethod::Get, &path(&["api", "product", "all"])),
        Route::Unknown
    );
}

#[test]
fn post_then_get_product_round_trip() {
    let mut store = Store::new();
    let created = App::handle_request(
        &mut store,
        Request {
            method: HttpMethod::Post,
            path: split("/api/admin/product"),
            body: RequestBody::Product(ProductBody {
                name: "Widget".to_string(),
                price: 10,
                available: true,
            }),
        },
    );
    assert_eq!(created.status, 200);
    let id = match created.body {
        ResponseBody::Id(id) => id,
        other => panic!("expected an id, got {:?}", other),
    };

    let fetched = App::handle_request(
        &mut store,
        Request {
            method: HttpMethod::Get,
            path: split(&format!("/api/product/{}", id)),
            body: RequestBody::Empty,
        },
    );
    assert_eq!(fetched.status, 200);
    match fetched.body {
        ResponseBody::Product(p) => {
            assert_eq!(p.id, id);
            assert_eq!(p.name, "Widget");
            assert_eq!(p.price, 10);
            assert!(p.available);
        }
        other => panic!("expected the product, got {:?}", other),
    }
}

#[test]
fn unknown_route_answers_404() {
    let mut store = Store::new();
    let r: Response = App::handle_request(
        &mut store,
        Request {
            method: HttpMethod::Get,
            path: split("/api/basket/1"),
            body: RequestBody::Empty,
        },
    );
    assert_eq!(r.status, 404);
    assert_eq!(store.products.len(), 0);
}

#[test]
fn mismatched_body_answers_400() {
    let mut store = Store::new();
    let r = App::handle_request(
        &mut store,
        Request {
            method: HttpMethod::Post,
            path: split("/api/admin/product"),
            body: RequestBody::Empty,
        },
    );
    assert_eq!(r.status, 400);
    assert_eq!(store.products.len(), 0);
}

#[test]
fn missing_row_surfaces_as_500() {
    let mut store = Store::new();
    let r = App::handle_request(
        &mut store,
        Request {
            method: HttpMethod::Get,
            path: split("/api/product/9"),
            body: RequestBody::Empty,
        },
    );
    assert_eq!(r.status, 500);
}

#[test]
fn error_mapper_distinguishes_timeouts() {
    let _app = App::new();
    assert_eq!(App::error_status(true), 408);
    assert_eq!(App::error_status(false), 500);
}

#[test]
fn statement_planning_respects_the_parameter_limit() {
    assert_eq!(rows_per_statement(3), 21845);
    assert_eq!(rows_per_statement(2), 32767);
    let plan = chunk_ranges(70000, 21845);
    assert_eq!(
        plan,
        vec![(0, 21845), (21845, 43690), (43690, 65535), (65535, 70000)]
    );
    let empty = chunk_ranges(0, 21845);
    assert!(empty.is_empty());
    let single = chunk_ranges(10, 21845);
    assert_eq!(single, vec![(0, 10)]);
}

#[test]
fn customer_write_routes_round_trip() {
    let mut store = Store::new();
    let created = App::handle_request(
        &mut store,
        Request {
            method: HttpMethod::Post,
            path: split("/api/admin/customer"),
            body: RequestBody::Customer(CustomerBody {
                name: "Ada".to_string(),
                address: "1 Main St".to_string(),
            }),
        },
    );
    assert_eq!(created.status, 200);
    let id = store.customers[0].id;

    let patched = App::handle_request(
        &mut store,
        Request {
            method: HttpMethod::Patch,
            path: split(&format!("/api/admin/customer/{}", id)),
            body: RequestBody::Customer(CustomerBody {
                name: "Ada".to_string(),
                address: "2 Side St".to_string(),
            }),
        },
    );
    assert_eq!(patched.status, 200);

    let fetched = App::handle_request(
        &mut store,
        Request {
            method: HttpMethod::Get,
            path: split(&format!("/api/customer/{}", id)),
            body: RequestBody::Empty,
        },
    );
    assert_eq!(fetched.status, 200);
    match fetched.body {
        ResponseBody::Customer(c) => {
            assert_eq!(c.address, "2 Side St");
            assert_eq!(c.name, "Ada");
        }
        other => panic!("expected the customer, got {:?}", other),
    }
}

#[test]
fn order_routes_create_and_group() {
    let mut store = Store::new();
    App::handle_request(
        &mut store,
        Request {
            method: HttpMethod::Post,
            path: split("/api/admin/customer"),
            body: RequestBody::Customer(CustomerBody {
                name: "Ada".to_string(),
                address: "1 Main St".to_string(),
            }),
        },
    );
    let cid = store.customers[0].id;
    let created_product = App::handle_request(
        &mut store,
        Request {
            method: HttpMethod::Post,
            path: split("/api/admin/product"),
            body: RequestBody::Product(ProductBody {
                name: "Widget".to_string(),
                price: 10,
                available: true,
            }),
        },
    );
    let pid = match created_product.body {
        ResponseBody::Id(id) => id,
        other => panic!("expected an id, got {:?}", other),
    };

    let created_order = App::handle_request(
        &mut store,
        Request {
            method: HttpMethod::Post,
            path: split("/api/admin/order"),
            body: RequestBody::Order(OrderBody {
                customer_id: cid,
                status: "New".to_string(),
                created_at: 1700000000,
                lines: vec![OrderLine {
                    product_id: pid,
                    quantity: 2,
                }],
            }),
        },
    );
    assert_eq!(created_order.status, 200);
    let oid = match created_order.body {
        ResponseBody::Id(id) => id,
        other => panic!("expected an id, got {:?}", other),
    };
    assert_eq!(store.products_in_orders.len(), 1);
    assert_eq!(store.products_in_orders[0].order_id, oid);

    let grouped = App::handle_request(
        &mut store,
        Request {
            method: HttpMethod::Get,
            path: split("/api/order/all"),
            body: RequestBody::Empty,
        },
    );
    assert_eq!(grouped.status, 200);
    match grouped.body {
        ResponseBody::CustomerOrders(v) => {
            assert_eq!(v.len(), 1);
            assert_eq!(v[0].0.id, cid);
            assert_eq!(v[0].1.len(), 1);
            assert_eq!(v[0].1[0].id, oid);
            assert_eq!(v[0].1[0].status, "New");
        }
        other => panic!("expected grouped orders, got {:?}", other),
    }
}

#[test]
fn rejected_order_leaves_the_store_unchanged_through_dispatch() {
    let mut store = Store::new();
    let r = App::handle_request(
        &mut store,
        Request {
            method: HttpMethod::Post,
            path: split("/api/admin/order"),
            body: RequestBody::Order(OrderBody {
                customer_id: 1, // no such customer
                status: "New".to_string(),
                created_at: 0,
                lines: vec![OrderLine {
                    product_id: 1,
                    quantity: 1,
                }],
            }),
        },
    );
    assert_eq!(r.status, 500);
    assert_eq!(store.orders.len(), 0);
    assert_eq!(store.products_in_orders.len(), 0);
}
