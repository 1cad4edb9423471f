//! The HTTP handlers: each one takes the values the framework extracted
//! from a request (path id, deserialized body), calls the matching
//! repository or service statement, and maps the outcome to a status code
//! and a response body.

use vstd::prelude::*;

use crate::db_actions::OrderRepository;
use crate::models::{Customer, Order, OrderLine, Product};
use crate::services::customer_service::CustomerService;
use crate::services::product_service::ProductService;
use crate::store::{DbError, Store};

verus! {

/// HTTP 200: the handler succeeded.
pub const STATUS_OK: u16 = 200;

/// HTTP 400: the request body does not fit the route.
pub const STATUS_BAD_REQUEST: u16 = 400;

/// HTTP 404: no route matches the request.
pub const STATUS_NOT_FOUND: u16 = 404;

/// HTTP 408: the request timed out.
pub const STATUS_REQUEST_TIMEOUT: u16 = 408;

/// HTTP 500: the store reported an error, propagated unchanged.
pub const STATUS_INTERNAL_ERROR: u16 = 500;

/// A product write's body: the fields of the row, id left to the store.
#[derive(Debug)]
pub struct ProductBody {
    pub name: String,
    pub price: i32,
    pub available: bool,
}

/// A customer write's body.
#[derive(Debug)]
pub struct CustomerBody {
    pub name: String,
    pub address: String,
}

/// An order write's body: the order row's fields and its line items.
#[derive(Debug)]
pub struct OrderBody {
    pub customer_id: i32,
    pub status: String,
    pub created_at: i64,
    pub lines: Vec<OrderLine>,
}

/// What a request body carried, once deserialized.
#[derive(Debug)]
pub enum RequestBody {
    Empty,
    Product(ProductBody),
    Customer(CustomerBody),
    Order(OrderBody),
}

/// One HTTP request, reduced to plain values: the method, the path split at
/// every `/`, and the deserialized body.
#[derive(Debug)]
pub struct Request {
    pub method: crate::app::HttpMethod,
    pub path: Vec<String>,
    pub body: RequestBody,
}

/// What a response carries; the serializer turns it into JSON.
#[derive(Debug)]
pub enum ResponseBody {
    Empty,
    Id(i32),
    Product(Product),
    Products(Vec<Product>),
    Customer(Customer),
    Customers(Vec<Customer>),
    Order(Order),
    CustomerOrders(Vec<(Customer, Vec<Order>)>),
    Failure(DbError),
}

/// One HTTP response: a status code and its body.
#[derive(Debug)]
pub struct Response {
    pub status: u16,
    pub body: ResponseBody,
}

/// The product row that a product body asks to write (id still unassigned).
pub open spec fn product_of_body(b: ProductBody, id: i32) -> Product {
    Product { id: id, name: b.name, price: b.price, available: b.available }
}

/// The customer row that a customer body asks to write.
pub open spec fn customer_of_body(b: CustomerBody, id: i32) -> Customer {
    Customer { id: id, name: b.name, address: b.address }
}

/// The order row that an order body asks to write.
pub open spec fn order_of_body(b: OrderBody, id: i32) -> Order {
    Order { id: id, customer_id: b.customer_id, status: b.status, created_at: b.created_at }
}

/// The handlers of the product routes.
pub struct ProductController;

/// The handlers of the customer routes.
pub struct CustomerController;

/// The handlers of the order routes.
pub struct OrderController;

impl ProductController {
    /// `GET /api/product/:id`: the row, or the store's error unchanged.
    pub fn get_product(store: &Store, id: i32) -> (r: Response)
        requires
            store@.wf(),
        ensures
            store@.has_product(id) ==> r.status == STATUS_OK && (r.body matches
                ResponseBody::Product(p) && exists|i: int|
                0 <= i < store@.products.len() && (#[trigger] store@.products[i]).id == id && p
                    == store@.products[i]),
            !store@.has_product(id) ==> r.status == STATUS_INTERNAL_ERROR && r.body
                == ResponseBody::Failure(DbError::NotFound),
    {
        match ProductService::get_product(store, id) {
            Ok(p) => Response { status: STATUS_OK, body: ResponseBody::Product(p) },
            Err(e) => Response { status: STATUS_INTERNAL_ERROR, body: ResponseBody::Failure(e) },
        }
    }

    /// `GET /api/product/all`: the whole table.
    pub fn get_all_products(store: &Store) -> (r: Response)
        ensures
            r.status == STATUS_OK,
            r.body matches ResponseBody::Products(v) && v@ == store@.products,
    {
        match ProductService::get_all_products(store) {
            Ok(v) => Response { status: STATUS_OK, body: ResponseBody::Products(v) },
            Err(e) => Response { status: STATUS_INTERNAL_ERROR, body: ResponseBody::Failure(e) },
        }
    }

    /// `POST /api/admin/product`: inserts the row and answers with the
    /// assigned id.
    pub fn create_product(store: &mut Store, body: ProductBody) -> (r: Response)
        requires
            old(store)@.wf(),
        ensures
            final(store)@.wf(),
            old(store)@.next_product_id < i32::MAX ==> r.status == STATUS_OK && r.body
                == ResponseBody::Id(old(store).next_product_id) && final(store)@ == old(store)@.with_product_inserted(product_of_body(body, 0)),
            old(store)@.next_product_id == i32::MAX ==> r.status == STATUS_INTERNAL_ERROR && r.body
                == ResponseBody::Failure(DbError::IdSpaceExhausted) && final(store)@ == old(store)@,
    {
        let row = Product { id: 0, name: body.name, price: body.price, available: body.available };
        match ProductService::create_product(store, row) {
            Ok(id) => Response { status: STATUS_OK, body: ResponseBody::Id(id) },
            Err(e) => Response { status: STATUS_INTERNAL_ERROR, body: ResponseBody::Failure(e) },
        }
    }

    /// `PUT /api/admin/product/:id` and `PATCH` alike: full-row overwrite by
    /// the path's id; a no-op for an unknown id, reported as success.
    pub fn update_product(store: &mut Store, id: i32, body: ProductBody) -> (r: Response)
        requires
            old(store)@.wf(),
        ensures
            final(store)@.wf(),
            r.status == STATUS_OK && r.body == ResponseBody::Empty,
            final(store)@ == old(store)@.with_product_overwritten(product_of_body(body, id)),
    {
        let row = Product { id, name: body.name, price: body.price, available: body.available };
        match ProductService::update_product(store, row) {
            Ok(_) => Response { status: STATUS_OK, body: ResponseBody::Empty },
            Err(e) => Response { status: STATUS_INTERNAL_ERROR, body: ResponseBody::Failure(e) },
        }
    }
}

impl CustomerController {
    /// `GET /api/customer/:id`: the row, or the store's error unchanged.
    pub fn get_customer(store: &Store, id: i32) -> (r: Response)
        requires
            store@.wf(),
        ensures
            store@.has_customer(id) ==> r.status == STATUS_OK && (r.body matches
                ResponseBody::Customer(c) && exists|i: int|
                0 <= i < store@.customers.len() && (#[trigger] store@.customers[i]).id == id && c
                    == store@.customers[i]),
            !store@.has_customer(id) ==> r.status == STATUS_INTERNAL_ERROR && r.body
                == ResponseBody::Failure(DbError::NotFound),
    {
        match CustomerService::get_customer(store, id) {
            Ok(c) => Response { status: STATUS_OK, body: ResponseBody::Customer(c) },
            Err(e) => Response { status: STATUS_INTERNAL_ERROR, body: ResponseBody::Failure(e) },
        }
    }

    /// `GET /api/customer/all`: the whole table.
    pub fn get_all_customers(store: &Store) -> (r: Response)
        ensures
            r.status == STATUS_OK,
            r.body matches ResponseBody::Customers(v) && v@ == store@.customers,
    {
        match CustomerService::get_all_customers(store) {
            Ok(v) => Response { status: STATUS_OK, body: ResponseBody::Customers(v) },
            Err(e) => Response { status: STATUS_INTERNAL_ERROR, body: ResponseBody::Failure(e) },
        }
    }

    /// `POST /api/admin/customer`: inserts the row.
    pub fn create_customer(store: &mut Store, body: CustomerBody) -> (r: Response)
        requires
            old(store)@.wf(),
        ensures
            final(store)@.wf(),
            old(store)@.next_customer_id < i32::MAX ==> r.status == STATUS_OK && r.body
                == ResponseBody::Empty && final(store)@ == old(store)@.with_customer_inserted(
                customer_of_body(body, 0),
            ),
            old(store)@.next_customer_id == i32::MAX ==> r.status == STATUS_INTERNAL_ERROR
                && r.body == ResponseBody::Failure(DbError::IdSpaceExhausted) && final(store)@
                == old(store)@,
    {
        let row = Customer { id: 0, name: body.name, address: body.address };
        match CustomerService::create_customer(store, row) {
            Ok(_) => Response { status: STATUS_OK, body: ResponseBody::Empty },
            Err(e) => Response { status: STATUS_INTERNAL_ERROR, body: ResponseBody::Failure(e) },
        }
    }

    /// `PUT /api/admin/customer/:id` and `PATCH` alike: full-row overwrite
    /// by the path's id; a no-op for an unknown id, reported as success.
    pub fn update_customer(store: &mut Store, id: i32, body: CustomerBody) -> (r: Response)
        requires
            old(store)@.wf(),
        ensures
            final(store)@.wf(),
            r.status == STATUS_OK && r.body == ResponseBody::Empty,
            final(store)@ == old(store)@.with_customer_overwritten(customer_of_body(body, id)),
    {
        let row = Customer { id, name: body.name, address: body.address };
        match CustomerService::update_customer(store, row) {
            Ok(_) => Response { status: STATUS_OK, body: ResponseBody::Empty },
            Err(e) => Response { status: STATUS_INTERNAL_ERROR, body: ResponseBody::Failure(e) },
        }
    }
}

impl OrderController {
    /// `GET /api/order/:id`: the order row, or the store's error unchanged.
    pub fn get_order(store: &Store, id: i32) -> (r: Response)
        requires
            store@.wf(),
        ensures
            store@.has_order(id) ==> r.status == STATUS_OK && (r.body matches ResponseBody::Order(
                o,
            ) && exists|i: int|
                0 <= i < store@.orders.len() && (#[trigger] store@.orders[i]).id == id && o
                    == store@.orders[i]),
            !store@.has_order(id) ==> r.status == STATUS_INTERNAL_ERROR && r.body
                == ResponseBody::Failure(DbError::NotFound),
    {
        match OrderRepository::get_order(store, id) {
            Ok(o) => Response { status: STATUS_OK, body: ResponseBody::Order(o) },
            Err(e) => Response { status: STATUS_INTERNAL_ERROR, body: ResponseBody::Failure(e) },
        }
    }

    /// `GET /api/order/all`: the orders table grouped by customer.
    pub fn get_all_orders(store: &Store) -> (r: Response)
        ensures
            r.status == STATUS_OK,
            r.body matches ResponseBody::CustomerOrders(v) && v@.len() == store@.customers.len()
                && forall|i: int|
                0 <= i < v@.len() ==> (#[trigger] v@[i]).0 == store@.customers[i] && v@[i].1@
                    == crate::store::orders_with_customer(store@.orders, store@.customers[i].id),
    {
        match OrderRepository::get_all_orders(store) {
            Ok(v) => Response { status: STATUS_OK, body: ResponseBody::CustomerOrders(v) },
            Err(e) => Response { status: STATUS_INTERNAL_ERROR, body: ResponseBody::Failure(e) },
        }
    }

    /// `POST /api/admin/order`: creates the order row and its join rows as
    /// one atomic unit and answers with the assigned id; when any check
    /// fails, nothing is written.
    pub fn create_order(store: &mut Store, body: OrderBody) -> (r: Response)
        requires
            old(store)@.wf(),
        ensures
            final(store)@.wf(),
            old(store)@.order_check(order_of_body(body, 0), body.lines@) is None ==> r.status
                == STATUS_OK && r.body == ResponseBody::Id(old(store).next_order_id) && final(store)@ == old(store)@.with_order_inserted(order_of_body(body, 0), body.lines@),
            old(store)@.order_check(order_of_body(body, 0), body.lines@) matches Some(e)
                ==> r.status == STATUS_INTERNAL_ERROR && r.body == ResponseBody::Failure(e)
                && final(store)@ == old(store)@,
    {
        let row = Order {
            id: 0,
            customer_id: body.customer_id,
            status: body.status,
            created_at: body.created_at,
        };
        match store.insert_order(&row, &body.lines) {
            Ok(id) => Response { status: STATUS_OK, body: ResponseBody::Id(id) },
            Err(e) => Response { status: STATUS_INTERNAL_ERROR, body: ResponseBody::Failure(e) },
        }
    }

    /// `PUT /api/admin/order/:id` and `PATCH` alike: full-row overwrite by
    /// the path's id; a no-op for an unknown id, and rejected when it would
    /// point the row at a customer that does not exist.
    pub fn update_order(store: &mut Store, id: i32, body: OrderBody) -> (r: Response)
        requires
            old(store)@.wf(),
        ensures
            final(store)@.wf(),
            old(store)@.has_order(id) && !old(store)@.has_customer(body.customer_id) ==> r.status
                == STATUS_INTERNAL_ERROR && r.body == ResponseBody::Failure(
                DbError::ForeignKeyViolation,
            ) && final(store)@ == old(store)@,
            !(old(store)@.has_order(id) && !old(store)@.has_customer(body.customer_id)) ==> r.status
                == STATUS_OK && r.body == ResponseBody::Empty && final(store)@ == old(store)@.with_order_overwritten(order_of_body(body, id)),
    {
        let row = Order {
            id,
            customer_id: body.customer_id,
            status: body.status,
            created_at: body.created_at,
        };
        match OrderRepository::update_order(store, row) {
            Ok(_) => Response { status: STATUS_OK, body: ResponseBody::Empty },
            Err(e) => Response { status: STATUS_INTERNAL_ERROR, body: ResponseBody::Failure(e) },
        }
    }
}

} // verus!
