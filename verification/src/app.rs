//! The application: the route table of the HTTP surface, the id segment's
//! parser, the dispatch of one request to its handler, and the catch-all
//! error mapping.

use vstd::prelude::*;
use vstd::string::StrSliceExecFns;

use crate::controllers::{
    customer_of_body, order_of_body, product_of_body, CustomerController, OrderController,
    ProductController, Request, RequestBody, Response, ResponseBody, STATUS_BAD_REQUEST,
    STATUS_INTERNAL_ERROR, STATUS_NOT_FOUND, STATUS_REQUEST_TIMEOUT,
};
use crate::store::{DbError, Store};

verus! {

/// The request methods the route table serves.
#[derive(Debug, Clone, Copy, PartialEq, Eq, Structural)]
pub enum HttpMethod {
    Get,
    Post,
    Put,
    Patch,
}

/// The handler a method and path resolve to; `Unknown` is the router's
/// fallback.
#[derive(Debug, Clone, Copy, PartialEq, Eq, Structural)]
pub enum Route {
    GetProduct(i32),
    GetAllProducts,
    GetCustomer(i32),
    GetAllCustomers,
    GetOrder(i32),
    GetAllOrders,
    CreateProduct,
    UpdateProduct(i32),
    CreateCustomer,
    UpdateCustomer(i32),
    CreateOrder,
    UpdateOrder(i32),
    Unknown,
}

/// A decimal digit.
pub open spec fn is_digit(c: char) -> bool {
    '0' <= c && c <= '9'
}

/// The value of a string of decimal digits, most significant first.
pub open spec fn digits_val(s: Seq<char>) -> int
    decreases s.len(),
{
    if s.len() == 0 {
        0
    } else {
        digits_val(s.drop_last()) * 10 + (s.last() as int - '0' as int)
    }
}

/// What parsing an id segment yields: the decimal value of a nonempty,
/// all-digit string that fits an `i32`, and nothing otherwise.
pub open spec fn parse_id_spec(s: Seq<char>) -> Option<i32> {
    if s.len() > 0 && (forall|i: int| 0 <= i < s.len() ==> is_digit(#[trigger] s[i]))
        && digits_val(s) <= i32::MAX {
        Some(digits_val(s) as i32)
    } else {
        None
    }
}

/// A string of digits has a nonnegative value.
proof fn lemma_digits_val_nonneg(s: Seq<char>)
    requires
        forall|i: int| 0 <= i < s.len() ==> is_digit(#[trigger] s[i]),
    ensures
        digits_val(s) >= 0,
    decreases s.len(),
{
    if s.len() > 0 {
        lemma_digits_val_nonneg(s.drop_last());
    }
}

/// Extending a string of digits never shrinks its value.
proof fn lemma_digits_val_grows(s: Seq<char>, i: int)
    requires
        forall|j: int| 0 <= j < s.len() ==> is_digit(#[trigger] s[j]),
        0 <= i <= s.len(),
    ensures
        digits_val(s.take(i)) <= digits_val(s),
    decreases s.len() - i,
{
    if i < s.len() {
        lemma_digits_val_nonneg(s.take(i + 1));
        assert(s.take(i + 1).drop_last() =~= s.take(i));
        assert(s.take(i + 1).last() == s[i]);
        assert(digits_val(s.take(i)) <= digits_val(s.take(i + 1)));
        lemma_digits_val_grows(s, i + 1);
        assert(s.take(s.len() as int) =~= s);
    } else {
        assert(s.take(i) =~= s);
    }
}

/// Parses a path's id segment: the decimal value of a nonempty, all-digit
/// string, and nothing on any other input or when the value overflows `i32`.
pub fn parse_id(s: &str) -> (r: Option<i32>)
    ensures
        r == parse_id_spec(s@),
{
    let n = s.unicode_len();
    if n == 0 {
        return None;
    }
    let mut val: i32 = 0;
    for i in 0..n
        invariant
            n == s@.len(),
            0 <= val,
            val == digits_val(s@.take(i as int)),
            forall|j: int| 0 <= j < i ==> is_digit(#[trigger] s@[j]),
    {
        let c = s.get_char(i);
        let cu = c as u32;
        if cu < 48 || cu > 57 {
            proof {
                assert(!is_digit(s@[i as int]));
            }
            return None;
        }
        let d = (cu - 48) as i32;
        proof {
            assert(s@.take(i as int + 1).drop_last() =~= s@.take(i as int));
            assert(s@.take(i as int + 1).last() == s@[i as int]);
        }
        if val > (i32::MAX - d) / 10 {
            proof {
                assert(digits_val(s@.take(i as int + 1)) > i32::MAX);
                if forall|j: int| 0 <= j < s@.len() ==> is_digit(#[trigger] s@[j]) {
                    lemma_digits_val_grows(s@, i as int + 1);
                }
            }
            return None;
        }
        val = val * 10 + d;
    }
    proof {
        assert(s@.take(n as int) =~= s@);
    }
    Some(val)
}

/// Whether a path segment equals a route literal.
fn segment_is(seg: &String, pat: &str) -> (b: bool)
    ensures
        b == (seg@ == pat@),
{
    let owned = pat.to_owned();
    *seg == owned
}

/// The route table, over the path split at every `/` (so a path starting
/// with `/` has an empty first segment): everything is nested under
/// `/api`, reads under the entity's name, writes under `/api/admin`.
pub open spec fn route_spec(m: HttpMethod, segs: Seq<Seq<char>>) -> Route {
    if segs.len() == 4 && segs[0] == ""@ && segs[1] == "api"@ && m is Get {
        if segs[2] == "product"@ {
            if segs[3] == "all"@ {
                Route::GetAllProducts
            } else {
                match parse_id_spec(segs[3]) {
                    Some(id) => Route::GetProduct(id),
                    None => Route::Unknown,
                }
            }
        } else if segs[2] == "customer"@ {
            if segs[3] == "all"@ {
                Route::GetAllCustomers
            } else {
                match parse_id_spec(segs[3]) {
                    Some(id) => Route::GetCustomer(id),
                    None => Route::Unknown,
                }
            }
        } else if segs[2] == "order"@ {
            if segs[3] == "all"@ {
                Route::GetAllOrders
            } else {
                match parse_id_spec(segs[3]) {
                    Some(id) => Route::GetOrder(id),
                    None => Route::Unknown,
                }
            }
        } else {
            Route::Unknown
        }
    } else if segs.len() == 4 && segs[0] == ""@ && segs[1] == "api"@ && segs[2] == "admin"@
        && m is Post {
        if segs[3] == "product"@ {
            Route::CreateProduct
        } else if segs[3] == "customer"@ {
            Route::CreateCustomer
        } else if segs[3] == "order"@ {
            Route::CreateOrder
        } else {
            Route::Unknown
        }
    } else if segs.len() == 5 && segs[0] == ""@ && segs[1] == "api"@ && segs[2] == "admin"@ && (m
        is Put || m is Patch) {
        match parse_id_spec(segs[4]) {
            Some(id) => {
                if segs[3] == "product"@ {
                    Route::UpdateProduct(id)
                } else if segs[3] == "customer"@ {
                    Route::UpdateCustomer(id)
                } else if segs[3] == "order"@ {
                    Route::UpdateOrder(id)
                } else {
                    Route::Unknown
                }
            },
            None => Route::Unknown,
        }
    } else {
        Route::Unknown
    }
}

/// The application: the router over the store and the error mapping around
/// it.
pub struct App;

impl Default for App {
    fn default() -> (r: App)
        ensures
            r == (App {  }),
    {
        App::new()
    }
}

impl App {
    /// A fresh application value; the router's table is fixed.
    pub fn new() -> App {
        App {  }
    }

    /// The catch-all error mapper's decision: a request that timed out
    /// answers 408, every other failure answers 500.
    pub fn error_status(timed_out: bool) -> (s: u16)
        ensures
            s == if timed_out {
                STATUS_REQUEST_TIMEOUT as int
            } else {
                STATUS_INTERNAL_ERROR as int
            },
    {
        if timed_out {
            STATUS_REQUEST_TIMEOUT
        } else {
            STATUS_INTERNAL_ERROR
        }
    }

    /// Resolves a method and split path against the route table.
    pub fn match_route(method: HttpMethod, path: &Vec<String>) -> (r: Route)
        ensures
            r == route_spec(method, path.deep_view()),
    {
        proof {
            assert forall|i: int| 0 <= i < path@.len() implies path.deep_view()[i] == (
            #[trigger] path@[i])@ by {}
        }
        let is_get = matches!(method, HttpMethod::Get);
        let is_post = matches!(method, HttpMethod::Post);
        if path.len() == 4 && segment_is(&path[0], "") && segment_is(&path[1], "api") && is_get {
            let all = segment_is(&path[3], "all");
            if segment_is(&path[2], "product") {
                if all {
                    Route::GetAllProducts
                } else {
                    match parse_id(path[3].as_str()) {
                        Some(id) => Route::GetProduct(id),
                        None => Route::Unknown,
                    }
                }
            } else if segment_is(&path[2], "customer") {
                if all {
                    Route::GetAllCustomers
                } else {
                    match parse_id(path[3].as_str()) {
                        Some(id) => Route::GetCustomer(id),
                        None => Route::Unknown,
                    }
                }
            } else if segment_is(&path[2], "order") {
                if all {
                    Route::GetAllOrders
                } else {
                    match parse_id(path[3].as_str()) {
                        Some(id) => Route::GetOrder(id),
                        None => Route::Unknown,
                    }
                }
            } else {
                Route::Unknown
            }
        } else if path.len() == 4 && segment_is(&path[0], "") && segment_is(&path[1], "api")
            && segment_is(&path[2], "admin") && is_post {
            if segment_is(&path[3], "product") {
                Route::CreateProduct
            } else if segment_is(&path[3], "customer") {
                Route::CreateCustomer
            } else if segment_is(&path[3], "order") {
                Route::CreateOrder
            } else {
                Route::Unknown
            }
        } else if path.len() == 5 && segment_is(&path[0], "") && segment_is(&path[1], "api")
            && segment_is(&path[2], "admin") && !is_get && !is_post {
            match parse_id(path[4].as_str()) {
                Some(id) => {
                    if segment_is(&path[3], "product") {
                        Route::UpdateProduct(id)
                    } else if segment_is(&path[3], "customer") {
                        Route::UpdateCustomer(id)
                    } else if segment_is(&path[3], "order") {
                        Route::UpdateOrder(id)
                    } else {
                        Route::Unknown
                    }
                },
                None => Route::Unknown,
            }
        } else {
            Route::Unknown
        }
    }

    /// One request through the router against the store: resolves the
    /// method and split path in the route table, hands the extracted id and
    /// deserialized body to the matching handler, and answers 404 for an
    /// unknown route and 400 for a body that does not fit the route.
    pub fn handle_request(store: &mut Store, req: Request) -> (r: Response)
        requires
            old(store)@.wf(),
        ensures
            final(store)@.wf(),
            ({
                let rt = route_spec(req.method, req.path.deep_view());
                &&& (rt is Unknown ==> r.status == STATUS_NOT_FOUND && r.body
                    == ResponseBody::Empty && final(store)@ == old(store)@)
                &&& (rt matches Route::GetProduct(id) ==> final(store)@ == old(store)@ && (old(store)@.has_product(id) ==> r.status == crate::controllers::STATUS_OK && (r.body matches
                ResponseBody::Product(p) && exists|i: int|
                    0 <= i < old(store)@.products.len() && (#[trigger] old(store)@.products[i]).id
                        == id && p == old(store)@.products[i])) && (!old(store)@.has_product(id)
                    ==> r.status == STATUS_INTERNAL_ERROR && r.body == ResponseBody::Failure(
                    DbError::NotFound,
                )))
                &&& (rt is GetAllProducts ==> final(store)@ == old(store)@ && r.status
                    == crate::controllers::STATUS_OK && (r.body matches ResponseBody::Products(v)
                    && v@ == old(store)@.products))
                &&& (rt matches Route::GetCustomer(id) ==> final(store)@ == old(store)@ && (old(store)@.has_customer(id) ==> r.status == crate::controllers::STATUS_OK && (r.body matches
                ResponseBody::Customer(c) && exists|i: int|
                    0 <= i < old(store)@.customers.len() && (#[trigger] old(store)@.customers[i]).id
                        == id && c == old(store)@.customers[i])) && (!old(store)@.has_customer(id)
                    ==> r.status == STATUS_INTERNAL_ERROR && r.body == ResponseBody::Failure(
                    DbError::NotFound,
                )))
                &&& (rt is GetAllCustomers ==> final(store)@ == old(store)@ && r.status
                    == crate::controllers::STATUS_OK && (r.body matches ResponseBody::Customers(v)
                    && v@ == old(store)@.customers))
                &&& (rt matches Route::GetOrder(id) ==> final(store)@ == old(store)@ && (old(store)@.has_order(id) ==> r.status == crate::controllers::STATUS_OK && (r.body matches
                ResponseBody::Order(o) && exists|i: int|
                    0 <= i < old(store)@.orders.len() && (#[trigger] old(store)@.orders[i]).id == id
                        && o == old(store)@.orders[i])) && (!old(store)@.has_order(id) ==> r.status
                    == STATUS_INTERNAL_ERROR && r.body == ResponseBody::Failure(DbError::NotFound)))
                &&& (rt is GetAllOrders ==> final(store)@ == old(store)@ && r.status
                    == crate::controllers::STATUS_OK && (r.body matches
                ResponseBody::CustomerOrders(v) && v@.len() == old(store)@.customers.len() && forall|
                    i: int,
                |
                    0 <= i < v@.len() ==> (#[trigger] v@[i]).0 == old(store)@.customers[i]
                        && v@[i].1@ == crate::store::orders_with_customer(
                        old(store)@.orders,
                        old(store)@.customers[i].id,
                    )))
                &&& (rt is CreateProduct ==> ((req.body matches RequestBody::Product(b) ==> (old(store)@.next_product_id < i32::MAX ==> r.status == crate::controllers::STATUS_OK
                    && r.body == ResponseBody::Id(old(store).next_product_id) && final(store)@
                    == old(store)@.with_product_inserted(product_of_body(b, 0))) && (old(store)@.next_product_id == i32::MAX ==> r.status == STATUS_INTERNAL_ERROR && r.body
                    == ResponseBody::Failure(DbError::IdSpaceExhausted) && final(store)@ == old(store)@)) && (!(req.body matches RequestBody::Product(_)) ==> r.status
                    == STATUS_BAD_REQUEST && r.body == ResponseBody::Empty && final(store)@ == old(store)@)))
                &&& (rt matches Route::UpdateProduct(id) ==> ((req.body matches
                RequestBody::Product(b) ==> r.status == crate::controllers::STATUS_OK && r.body
                    == ResponseBody::Empty && final(store)@ == old(store)@.with_product_overwritten(
                    product_of_body(b, id),
                )) && (!(req.body matches RequestBody::Product(_)) ==> r.status
                    == STATUS_BAD_REQUEST && r.body == ResponseBody::Empty && final(store)@ == old(store)@)))
                &&& (rt is CreateCustomer ==> ((req.body matches RequestBody::Customer(b) ==> (old(store)@.next_customer_id < i32::MAX ==> r.status == crate::controllers::STATUS_OK
                    && r.body == ResponseBody::Empty && final(store)@ == old(store)@.with_customer_inserted(customer_of_body(b, 0))) && (old(store)@.next_customer_id
                    == i32::MAX ==> r.status == STATUS_INTERNAL_ERROR && r.body
                    == ResponseBody::Failure(DbError::IdSpaceExhausted) && final(store)@ == old(store)@)) && (!(req.body matches RequestBody::Customer(_)) ==> r.status
                    == STATUS_BAD_REQUEST && r.body == ResponseBody::Empty && final(store)@ == old(store)@)))
                &&& (rt matches Route::UpdateCustomer(id) ==> ((req.body matches
                RequestBody::Customer(b) ==> r.status == crate::controllers::STATUS_OK && r.body
                    == ResponseBody::Empty && final(store)@ == old(store)@.with_customer_overwritten(customer_of_body(b, id))) && (!(req.body matches
                RequestBody::Customer(_)) ==> r.status == STATUS_BAD_REQUEST && r.body
                    == ResponseBody::Empty && final(store)@ == old(store)@)))
                &&& (rt is CreateOrder ==> ((req.body matches RequestBody::Order(b) ==> (old(store)@.order_check(order_of_body(b, 0), b.lines@) is None ==> r.status
                    == crate::controllers::STATUS_OK && r.body == ResponseBody::Id(
                    old(store).next_order_id,
                ) && final(store)@ == old(store)@.with_order_inserted(
                    order_of_body(b, 0),
                    b.lines@,
                )) && (old(store)@.order_check(order_of_body(b, 0), b.lines@) matches Some(e)
                    ==> r.status == STATUS_INTERNAL_ERROR && r.body == ResponseBody::Failure(e)
                    && final(store)@ == old(store)@)) && (!(req.body matches RequestBody::Order(_))
                    ==> r.status == STATUS_BAD_REQUEST && r.body == ResponseBody::Empty && final(store)@ == old(store)@)))
                &&& (rt matches Route::UpdateOrder(id) ==> ((req.body matches RequestBody::Order(b)
                    ==> (old(store)@.has_order(id) && !old(store)@.has_customer(b.customer_id)
                    ==> r.status == STATUS_INTERNAL_ERROR && r.body == ResponseBody::Failure(
                    DbError::ForeignKeyViolation,
                ) && final(store)@ == old(store)@) && (!(old(store)@.has_order(id) && !old(store)@.has_customer(b.customer_id)) ==> r.status == crate::controllers::STATUS_OK
                    && r.body == ResponseBody::Empty && final(store)@ == old(store)@.with_order_overwritten(order_of_body(b, id)))) && (!(req.body matches
                RequestBody::Order(_)) ==> r.status == STATUS_BAD_REQUEST && r.body
                    == ResponseBody::Empty && final(store)@ == old(store)@)))
            }),
    {
        let route = Self::match_route(req.method, &req.path);
        match route {
            Route::GetProduct(id) => ProductController::get_product(store, id),
            Route::GetAllProducts => ProductController::get_all_products(store),
            Route::GetCustomer(id) => CustomerController::get_customer(store, id),
            Route::GetAllCustomers => CustomerController::get_all_customers(store),
            Route::GetOrder(id) => OrderController::get_order(store, id),
            Route::GetAllOrders => OrderController::get_all_orders(store),
            Route::CreateProduct => match req.body {
                RequestBody::Product(b) => ProductController::create_product(store, b),
                _ => Response { status: STATUS_BAD_REQUEST, body: ResponseBody::Empty },
            },
            Route::UpdateProduct(id) => match req.body {
                RequestBody::Product(b) => ProductController::update_product(store, id, b),
                _ => Response { status: STATUS_BAD_REQUEST, body: ResponseBody::Empty },
            },
            Route::CreateCustomer => match req.body {
                RequestBody::Customer(b) => CustomerController::create_customer(store, b),
                _ => Response { status: STATUS_BAD_REQUEST, body: ResponseBody::Empty },
            },
            Route::UpdateCustomer(id) => match req.body {
                RequestBody::Customer(b) => CustomerController::update_customer(store, id, b),
                _ => Response { status: STATUS_BAD_REQUEST, body: ResponseBody::Empty },
            },
            Route::CreateOrder => match req.body {
                RequestBody::Order(b) => OrderController::create_order(store, b),
                _ => Response { status: STATUS_BAD_REQUEST, body: ResponseBody::Empty },
            },
            Route::UpdateOrder(id) => match req.body {
                RequestBody::Order(b) => OrderController::update_order(store, id, b),
                _ => Response { status: STATUS_BAD_REQUEST, body: ResponseBody::Empty },
            },
            Route::Unknown => Response { status: STATUS_NOT_FOUND, body: ResponseBody::Empty },
        }
    }
}

} // verus!