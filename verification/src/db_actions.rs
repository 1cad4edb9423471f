//! The repositories: thin, per-entity statement bundles over the store, and
//! the demo-data seeding/teardown that `DbMockData` bundles.

use vstd::prelude::*;

use crate::models::{Customer, Order, OrderLine, OrderWithProducts, Product, ProductInOrder};
use crate::store::{DbError, Store};

verus! {

/// Relies on chrono's `Local::now` and `DateTime::timestamp`: the current
/// wall clock, as whole seconds since the Unix epoch. Nothing is promised
/// of the value; callers state what holds whatever the clock read.
#[verifier::external_body]
fn now_timestamp() -> i64 {
    chrono::Local::now().timestamp()
}

/// The demo product row under serial id `id`: what the seeding inserts.
pub open spec fn mock_product_row(p: Product, id: int, name: Seq<char>, price: i32) -> bool {
    p.id == id && p.name@ == name && p.price == price && p.available
}

/// The demo customer row under serial id `id`: what the seeding inserts.
pub open spec fn mock_customer_row(c: Customer, id: int, name: Seq<char>, address: Seq<char>) -> bool {
    c.id == id && c.name@ == name && c.address@ == address
}

/// The demo order row under serial id `id`; its creation time is whatever
/// the clock read while seeding.
pub open spec fn mock_order_row(o: Order, id: int, customer_id: i32, status: Seq<char>) -> bool {
    o.id == id && o.customer_id == customer_id && o.status@ == status
}

/// Statements against the products table.
pub struct ProductRepository;

/// Statements against the customers table.
pub struct CustomerRepository;

/// Statements against the orders table and its join table.
pub struct OrderRepository;

impl ProductRepository {
    /// Inserts one product row; the id the caller passes is ignored and the
    /// serial column assigns the next one.
    pub fn create_product(store: &mut Store, new_product: Product) -> (r: Result<(), DbError>)
        requires
            old(store)@.wf(),
        ensures
            final(store)@.wf(),
            old(store)@.next_product_id < i32::MAX ==> r == Ok::<(), DbError>(()) && final(store)@ == old(store)@.with_product_inserted(new_product),
            old(store)@.next_product_id == i32::MAX ==> r == Err::<(), DbError>(
                DbError::IdSpaceExhausted,
            ) && final(store)@ == old(store)@,
    {
        match store.insert_product(new_product) {
            Ok(_) => Ok(()),
            Err(e) => Err(e),
        }
    }

    /// Inserts many product rows; the batched statements that carry them are
    /// planned by `crate::batch`, and no row is dropped.
    pub fn create_products(store: &mut Store, new_products: &Vec<Product>) -> (r: Result<
        (),
        DbError,
    >)
        requires
            old(store)@.wf(),
        ensures
            final(store)@.wf(),
            old(store)@.next_product_id + new_products@.len() <= i32::MAX ==> r
                == Ok::<(), DbError>(()) && final(store)@ == old(store)@.with_products_inserted(
                new_products@,
            ),
            old(store)@.next_product_id + new_products@.len() > i32::MAX ==> r
                == Err::<(), DbError>(DbError::IdSpaceExhausted) && final(store)@ == old(store)@,
    {
        store.insert_products(new_products)
    }

    /// `select * from products`: the whole table, in insertion order.
    pub fn get_all_products(store: &Store) -> (r: Result<Vec<Product>, DbError>)
        ensures
            r is Ok,
            r matches Ok(v) ==> v@ == store@.products,
    {
        Ok(store.all_products())
    }

    /// Seeds the products table with the two demo products.
    pub fn fill_with_mocked_data(store: &mut Store) -> (r: Result<(), DbError>)
        requires
            old(store)@.wf(),
            old(store)@.next_product_id + 2 <= i32::MAX,
        ensures
            final(store)@.wf(),
            r == Ok::<(), DbError>(()),
            final(store)@.products.len() == old(store)@.products.len() + 2,
            forall|i: int|
                0 <= i < old(store)@.products.len() ==> final(store)@.products[i] == old(store)@.products[i],
            mock_product_row(
                final(store)@.products[old(store)@.products.len() as int],
                old(store)@.next_product_id,
                "Product 1"@,
                1,
            ),
            mock_product_row(
                final(store)@.products[old(store)@.products.len() as int + 1],
                old(store)@.next_product_id + 1,
                "Product 2"@,
                2,
            ),
            final(store)@.next_product_id == old(store)@.next_product_id + 2,
            final(store)@.customers == old(store)@.customers,
            final(store)@.orders == old(store)@.orders,
            final(store)@.products_in_orders == old(store)@.products_in_orders,
            final(store)@.next_customer_id == old(store)@.next_customer_id,
            final(store)@.next_order_id == old(store)@.next_order_id,
    {
        let mut new_products: Vec<Product> = Vec::new();
        new_products.push(
            Product { id: 0, name: "Product 1".to_owned(), price: 1, available: true },
        );
        new_products.push(
            Product { id: 0, name: "Product 2".to_owned(), price: 2, available: true },
        );
        let r = Self::create_products(store, &new_products);
        proof {
            let base = old(store)@.products.len() as int;
            assert(store@.products[base] == crate::store::assigned_product(
                new_products@[0],
                old(store)@.next_product_id,
            ));
            assert(store@.products[base + 1] == crate::store::assigned_product(
                new_products@[1],
                old(store)@.next_product_id + 1,
            ));
        }
        r
    }

    /// `delete from products`: rejected while join rows still reference the
    /// table.
    pub fn clear(store: &mut Store) -> (r: Result<(), DbError>)
        requires
            old(store)@.wf(),
        ensures
            final(store)@.wf(),
            old(store)@.products_in_orders.len() == 0 ==> r == Ok::<(), DbError>(()) && final(store)@ == old(store)@.with_products_cleared(),
            old(store)@.products_in_orders.len() > 0 ==> r == Err::<(), DbError>(
                DbError::ForeignKeyViolation,
            ) && final(store)@ == old(store)@,
    {
        store.truncate_products()
    }
}

impl CustomerRepository {
    /// Inserts one customer row; the id the caller passes is ignored.
    pub fn create_customer(store: &mut Store, new_customer: Customer) -> (r: Result<(), DbError>)
        requires
            old(store)@.wf(),
        ensures
            final(store)@.wf(),
            old(store)@.next_customer_id < i32::MAX ==> r == Ok::<(), DbError>(()) && final(store)@ == old(store)@.with_customer_inserted(new_customer),
            old(store)@.next_customer_id == i32::MAX ==> r == Err::<(), DbError>(
                DbError::IdSpaceExhausted,
            ) && final(store)@ == old(store)@,
    {
        match store.insert_customer(new_customer) {
            Ok(_) => Ok(()),
            Err(e) => Err(e),
        }
    }

    /// Inserts many customer rows; no row is dropped.
    pub fn create_customers(store: &mut Store, new_customers: &Vec<Customer>) -> (r: Result<
        (),
        DbError,
    >)
        requires
            old(store)@.wf(),
        ensures
            final(store)@.wf(),
            old(store)@.next_customer_id + new_customers@.len() <= i32::MAX ==> r
                == Ok::<(), DbError>(()) && final(store)@ == old(store)@.with_customers_inserted(
                new_customers@,
            ),
            old(store)@.next_customer_id + new_customers@.len() > i32::MAX ==> r
                == Err::<(), DbError>(DbError::IdSpaceExhausted) && final(store)@ == old(store)@,
    {
        store.insert_customers(new_customers)
    }

    /// `select * from customers`: the whole table, in insertion order.
    pub fn get_all_customers(store: &Store) -> (r: Result<Vec<Customer>, DbError>)
        ensures
            r is Ok,
            r matches Ok(v) ==> v@ == store@.customers,
    {
        Ok(store.all_customers())
    }

    /// Seeds the customers table with the two demo customers.
    pub fn fill_with_mocked_data(store: &mut Store) -> (r: Result<(), DbError>)
        requires
            old(store)@.wf(),
            old(store)@.next_customer_id + 2 <= i32::MAX,
        ensures
            final(store)@.wf(),
            r == Ok::<(), DbError>(()),
            final(store)@.customers.len() == old(store)@.customers.len() + 2,
            forall|i: int|
                0 <= i < old(store)@.customers.len() ==> final(store)@.customers[i] == old(store)@.customers[i],
            mock_customer_row(
                final(store)@.customers[old(store)@.customers.len() as int],
                old(store)@.next_customer_id,
                "Customer 1"@,
                "Address 1"@,
            ),
            mock_customer_row(
                final(store)@.customers[old(store)@.customers.len() as int + 1],
                old(store)@.next_customer_id + 1,
                "Customer 2"@,
                "Address 2"@,
            ),
            final(store)@.next_customer_id == old(store)@.next_customer_id + 2,
            final(store)@.products == old(store)@.products,
            final(store)@.orders == old(store)@.orders,
            final(store)@.products_in_orders == old(store)@.products_in_orders,
            final(store)@.next_product_id == old(store)@.next_product_id,
            final(store)@.next_order_id == old(store)@.next_order_id,
    {
        let mut new_customers: Vec<Customer> = Vec::new();
        new_customers.push(
            Customer { id: 0, name: "Customer 1".to_owned(), address: "Address 1".to_owned() },
        );
        new_customers.push(
            Customer { id: 0, name: "Customer 2".to_owned(), address: "Address 2".to_owned() },
        );
        let r = Self::create_customers(store, &new_customers);
        proof {
            let base = old(store)@.customers.len() as int;
            assert(store@.customers[base] == crate::store::assigned_customer(
                new_customers@[0],
                old(store)@.next_customer_id,
            ));
            assert(store@.customers[base + 1] == crate::store::assigned_customer(
                new_customers@[1],
                old(store)@.next_customer_id + 1,
            ));
        }
        r
    }

    /// `delete from customers`: rejected while order rows still reference
    /// the table.
    pub fn clear(store: &mut Store) -> (r: Result<(), DbError>)
        requires
            old(store)@.wf(),
        ensures
            final(store)@.wf(),
            old(store)@.orders.len() == 0 ==> r == Ok::<(), DbError>(()) && final(store)@ == old(store)@.with_customers_cleared(),
            old(store)@.orders.len() > 0 ==> r == Err::<(), DbError>(DbError::ForeignKeyViolation)
                && final(store)@ == old(store)@,
    {
        store.truncate_customers()
    }
}

/// The demo join row: a product's quantity within a seeded order.
pub open spec fn mock_join_row(j: ProductInOrder, order_id: int, product_id: i32, quantity: i32) -> bool {
    j.order_id == order_id && j.product_id == product_id && j.quantity == quantity
}

impl OrderRepository {
    /// Creates each order of the batch with its line items, in turn; the
    /// order row and its join rows go in as one atomic unit, and the batch
    /// stops at the first order the database rejects.
    pub fn create_orders(store: &mut Store, customer_orders: &Vec<OrderWithProducts>) -> (r:
        Result<(), DbError>)
        requires
            old(store)@.wf(),
        ensures
            final(store)@.wf(),
            final(store)@ == old(store)@.orders_inserted(customer_orders@).0,
            match old(store)@.orders_inserted(customer_orders@).1 {
                None => r == Ok::<(), DbError>(()),
                Some(e) => r == Err::<(), DbError>(e),
            },
    {
        store.insert_orders(customer_orders)
    }

    /// `select * from orders where id = $1`, failing when no row matches.
    pub fn get_order(store: &Store, id: i32) -> (r: Result<Order, DbError>)
        requires
            store@.wf(),
        ensures
            r is Ok <==> store@.has_order(id),
            r matches Ok(o) ==> exists|i: int|
                0 <= i < store@.orders.len() && (#[trigger] store@.orders[i]).id == id && o
                    == store@.orders[i],
            r matches Err(e) ==> e == DbError::NotFound,
    {
        store.order_by_id(id)
    }

    /// The orders table grouped by customer: one entry per customer row, in
    /// table order, carrying that customer's orders in table order.
    pub fn get_all_orders(store: &Store) -> (r: Result<Vec<(Customer, Vec<Order>)>, DbError>)
        ensures
            r is Ok,
            r matches Ok(v) ==> v@.len() == store@.customers.len() && forall|i: int|
                0 <= i < v@.len() ==> (#[trigger] v@[i]).0 == store@.customers[i] && v@[i].1@
                    == crate::store::orders_with_customer(store@.orders, store@.customers[i].id),
    {
        Ok(store.orders_grouped_by_customer())
    }

    /// `update orders set .. where id = ..`: full-row overwrite by id, a
    /// no-op for an unknown id, rejected when it would point the row at a
    /// customer that does not exist.
    pub fn update_order(store: &mut Store, updated_order: Order) -> (r: Result<(), DbError>)
        requires
            old(store)@.wf(),
        ensures
            final(store)@.wf(),
            old(store)@.has_order(updated_order.id) && !old(store)@.has_customer(
                updated_order.customer_id,
            ) ==> r == Err::<(), DbError>(DbError::ForeignKeyViolation) && final(store)@ == old(store)@,
            !(old(store)@.has_order(updated_order.id) && !old(store)@.has_customer(
                updated_order.customer_id,
            )) ==> r == Ok::<(), DbError>(()) && final(store)@ == old(store)@.with_order_overwritten(updated_order),
    {
        store.overwrite_order(&updated_order)
    }

    /// Seeds three demo orders: two for the first customer in the table and
    /// one for the second, each ordering the first two products in the
    /// table; creation times are whatever the clock read.
    pub fn fill_with_mocked_data(store: &mut Store) -> (r: Result<(), DbError>)
        requires
            old(store)@.wf(),
            old(store)@.products.len() >= 2,
            old(store)@.customers.len() >= 2,
            old(store)@.next_order_id + 3 <= i32::MAX,
        ensures
            final(store)@.wf(),
            r == Ok::<(), DbError>(()),
            final(store)@.orders.len() == old(store)@.orders.len() + 3,
            forall|i: int|
                0 <= i < old(store)@.orders.len() ==> final(store)@.orders[i] == old(store)@.orders[i],
            mock_order_row(
                final(store)@.orders[old(store)@.orders.len() as int],
                old(store)@.next_order_id,
                old(store)@.customers[0].id,
                "In progress"@,
            ),
            mock_order_row(
                final(store)@.orders[old(store)@.orders.len() as int + 1],
                old(store)@.next_order_id + 1,
                old(store)@.customers[0].id,
                "In progress"@,
            ),
            mock_order_row(
                final(store)@.orders[old(store)@.orders.len() as int + 2],
                old(store)@.next_order_id + 2,
                old(store)@.customers[1].id,
                "New"@,
            ),
            final(store)@.products_in_orders.len() == old(store)@.products_in_orders.len() + 6,
            forall|k: int|
                0 <= k < old(store)@.products_in_orders.len() ==> final(store)@.products_in_orders[k] == old(store)@.products_in_orders[k],
            ({
                let jb = old(store)@.products_in_orders.len() as int;
                let nid = old(store)@.next_order_id;
                let p0 = old(store)@.products[0].id;
                let p1 = old(store)@.products[1].id;
                let jt = final(store)@.products_in_orders;
                &&& mock_join_row(jt[jb], nid, p0, 1)
                &&& mock_join_row(jt[jb + 1], nid, p1, 2)
                &&& mock_join_row(jt[jb + 2], nid + 1, p0, 6)
                &&& mock_join_row(jt[jb + 3], nid + 1, p1, 2)
                &&& mock_join_row(jt[jb + 4], nid + 2, p0, 3)
                &&& mock_join_row(jt[jb + 5], nid + 2, p1, 4)
            }),
            final(store)@.next_order_id == old(store)@.next_order_id + 3,
            final(store)@.products == old(store)@.products,
            final(store)@.customers == old(store)@.customers,
            final(store)@.next_product_id == old(store)@.next_product_id,
            final(store)@.next_customer_id == old(store)@.next_customer_id,
    {
        let products_in_db = store.all_products();
        let customers_in_db = store.all_customers();
        let p0 = products_in_db[0].id;
        let p1 = products_in_db[1].id;
        let c0 = customers_in_db[0].id;
        let c1 = customers_in_db[1].id;
        proof {
            assert((old(store)@.products[0]).id == p0);
            assert((old(store)@.products[1]).id == p1);
            assert(p0 != p1);
        }

        let new_order = Order {
            id: 0,
            customer_id: c0,
            status: "In progress".to_owned(),
            created_at: now_timestamp(),
        };
        let mut products_in_order: Vec<OrderLine> = Vec::new();
        products_in_order.push(OrderLine { product_id: p0, quantity: 1 });
        products_in_order.push(OrderLine { product_id: p1, quantity: 2 });
        proof {
            lemma_mock_order_ok(store@, new_order, products_in_order@, p0, p1, 0);
        }
        let first = store.insert_order(&new_order, &products_in_order);
        if let Err(e) = first {
            return Err(e);
        }

        let new_order = Order {
            id: 0,
            customer_id: c0,
            status: "In progress".to_owned(),
            created_at: now_timestamp(),
        };
        let mut products_in_order: Vec<OrderLine> = Vec::new();
        products_in_order.push(OrderLine { product_id: p0, quantity: 6 });
        products_in_order.push(OrderLine { product_id: p1, quantity: 2 });
        proof {
            assert((store@.customers[0]).id == c0);
            assert((store@.products[0]).id == p0);
            assert((store@.products[1]).id == p1);
            lemma_mock_order_ok(store@, new_order, products_in_order@, p0, p1, 1);
        }
        let second = store.insert_order(&new_order, &products_in_order);
        if let Err(e) = second {
            return Err(e);
        }

        let new_order = Order {
            id: 0,
            customer_id: c1,
            status: "New".to_owned(),
            created_at: now_timestamp(),
        };
        let mut products_in_order: Vec<OrderLine> = Vec::new();
        products_in_order.push(OrderLine { product_id: p0, quantity: 3 });
        products_in_order.push(OrderLine { product_id: p1, quantity: 4 });
        proof {
            assert((store@.customers[1]).id == c1);
            assert((store@.products[0]).id == p0);
            assert((store@.products[1]).id == p1);
            lemma_mock_order_ok(store@, new_order, products_in_order@, p0, p1, 2);
        }
        let third = store.insert_order(&new_order, &products_in_order);
        if let Err(e) = third {
            return Err(e);
        }
        Ok(())
    }

    /// `delete from products_in_orders` then `delete from orders`, in that
    /// order so that neither delete breaks a foreign key.
    pub fn clear(store: &mut Store) -> (r: Result<(), DbError>)
        requires
            old(store)@.wf(),
        ensures
            final(store)@.wf(),
            r == Ok::<(), DbError>(()),
            final(store)@ == old(store)@.with_orders_cleared(),
    {
        store.truncate_orders()
    }
}

/// A seeded order over two distinct, existing products and an existing
/// customer passes every check of order creation.
proof fn lemma_mock_order_ok(
    m: crate::store::StoreModel,
    o: Order,
    lines: Seq<OrderLine>,
    p0: i32,
    p1: i32,
    used: int,
)
    requires
        m.wf(),
        m.next_order_id + 3 - used <= i32::MAX,
        0 <= used < 3,
        m.has_customer(o.customer_id),
        m.has_product(p0),
        m.has_product(p1),
        p0 != p1,
        lines.len() == 2,
        lines[0].product_id == p0,
        lines[1].product_id == p1,
    ensures
        m.order_check(o, lines) is None,
{
    assert(m.line_check(lines, 2) is None);
    assert(m.line_check(lines, 1) is None);
    assert(m.line_check(lines, 0) is None);
}

/// The demo dataset: seeds all tables with fixed demo rows, or truncates
/// them, in a foreign-key-safe order; used only for demo and test resets.
pub struct DbMockData {
    product_repository: ProductRepository,
    order_repository: OrderRepository,
    customer_repository: CustomerRepository,
}

impl DbMockData {
    /// Bundles the three repositories.
    pub fn new() -> DbMockData {
        DbMockData {
            product_repository: ProductRepository,
            order_repository: OrderRepository,
            customer_repository: CustomerRepository,
        }
    }

    /// Seeds two demo customers, two demo products, and three demo orders
    /// over the first two rows of each of those tables.
    pub fn fill(&self, store: &mut Store) -> (r: Result<(), DbError>)
        requires
            old(store)@.wf(),
            old(store)@.next_customer_id + 2 <= i32::MAX,
            old(store)@.next_product_id + 2 <= i32::MAX,
            old(store)@.next_order_id + 3 <= i32::MAX,
        ensures
            final(store)@.wf(),
            r == Ok::<(), DbError>(()),
            final(store)@.customers.len() == old(store)@.customers.len() + 2,
            forall|i: int|
                0 <= i < old(store)@.customers.len() ==> final(store)@.customers[i] == old(store)@.customers[i],
            mock_customer_row(
                final(store)@.customers[old(store)@.customers.len() as int],
                old(store)@.next_customer_id,
                "Customer 1"@,
                "Address 1"@,
            ),
            mock_customer_row(
                final(store)@.customers[old(store)@.customers.len() as int + 1],
                old(store)@.next_customer_id + 1,
                "Customer 2"@,
                "Address 2"@,
            ),
            final(store)@.products.len() == old(store)@.products.len() + 2,
            forall|i: int|
                0 <= i < old(store)@.products.len() ==> final(store)@.products[i] == old(store)@.products[i],
            mock_product_row(
                final(store)@.products[old(store)@.products.len() as int],
                old(store)@.next_product_id,
                "Product 1"@,
                1,
            ),
            mock_product_row(
                final(store)@.products[old(store)@.products.len() as int + 1],
                old(store)@.next_product_id + 1,
                "Product 2"@,
                2,
            ),
            final(store)@.orders.len() == old(store)@.orders.len() + 3,
            forall|i: int|
                0 <= i < old(store)@.orders.len() ==> final(store)@.orders[i] == old(store)@.orders[i],
            mock_order_row(
                final(store)@.orders[old(store)@.orders.len() as int],
                old(store)@.next_order_id,
                final(store)@.customers[0].id,
                "In progress"@,
            ),
            mock_order_row(
                final(store)@.orders[old(store)@.orders.len() as int + 1],
                old(store)@.next_order_id + 1,
                final(store)@.customers[0].id,
                "In progress"@,
            ),
            mock_order_row(
                final(store)@.orders[old(store)@.orders.len() as int + 2],
                old(store)@.next_order_id + 2,
                final(store)@.customers[1].id,
                "New"@,
            ),
            final(store)@.products_in_orders.len() == old(store)@.products_in_orders.len() + 6,
            forall|k: int|
                0 <= k < old(store)@.products_in_orders.len() ==> final(store)@.products_in_orders[k] == old(store)@.products_in_orders[k],
            ({
                let jb = old(store)@.products_in_orders.len() as int;
                let nid = old(store)@.next_order_id;
                let p0 = final(store)@.products[0].id;
                let p1 = final(store)@.products[1].id;
                let jt = final(store)@.products_in_orders;
                &&& mock_join_row(jt[jb], nid, p0, 1)
                &&& mock_join_row(jt[jb + 1], nid, p1, 2)
                &&& mock_join_row(jt[jb + 2], nid + 1, p0, 6)
                &&& mock_join_row(jt[jb + 3], nid + 1, p1, 2)
                &&& mock_join_row(jt[jb + 4], nid + 2, p0, 3)
                &&& mock_join_row(jt[jb + 5], nid + 2, p1, 4)
            }),
            final(store)@.next_customer_id == old(store)@.next_customer_id + 2,
            final(store)@.next_product_id == old(store)@.next_product_id + 2,
            final(store)@.next_order_id == old(store)@.next_order_id + 3,
    {
        let outcome = CustomerRepository::fill_with_mocked_data(store);
        if let Err(e) = outcome {
            return Err(e);
        }
        let outcome = ProductRepository::fill_with_mocked_data(store);
        if let Err(e) = outcome {
            return Err(e);
        }
        let ghost s2 = store@;
        let outcome = OrderRepository::fill_with_mocked_data(store);
        if let Err(e) = outcome {
            return Err(e);
        }
        proof {
            assert(s2.customers == store@.customers);
            assert(s2.products == store@.products);
            assert(s2.orders == old(store)@.orders);
            assert(s2.products_in_orders == old(store)@.products_in_orders);
        }
        Ok(())
    }

    /// Truncates all tables: the orders and join rows first, then customers,
    /// then products, so that every delete respects the foreign keys. The
    /// serial id counters keep counting.
    pub fn clear(&self, store: &mut Store) -> (r: Result<(), DbError>)
        requires
            old(store)@.wf(),
        ensures
            final(store)@.wf(),
            r == Ok::<(), DbError>(()),
            final(store)@.products.len() == 0,
            final(store)@.customers.len() == 0,
            final(store)@.orders.len() == 0,
            final(store)@.products_in_orders.len() == 0,
            final(store)@.next_product_id == old(store)@.next_product_id,
            final(store)@.next_customer_id == old(store)@.next_customer_id,
            final(store)@.next_order_id == old(store)@.next_order_id,
    {
        let outcome = OrderRepository::clear(store);
        if let Err(e) = outcome {
            return Err(e);
        }
        let outcome = CustomerRepository::clear(store);
        if let Err(e) = outcome {
            return Err(e);
        }
        ProductRepository::clear(store)
    }
}

} // verus!
