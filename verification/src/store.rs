//! The relational store behind the repositories: four tables, serial ids and
//! the foreign-key rules of the schema, together with the mathematical model
//! (`StoreModel`) that every operation's contract is stated over.

use vstd::prelude::*;

use crate::models::{Customer, Order, OrderLine, OrderWithProducts, Product, ProductInOrder};

verus! {

/// Why a statement against the store failed.
#[derive(Debug, Clone, Copy, PartialEq, Eq, Structural)]
pub enum DbError {
    /// A lookup by id matched no row.
    NotFound,
    /// An insert or a table-wide delete would break a foreign-key constraint.
    ForeignKeyViolation,
    /// An insert repeats the composite key of the join table.
    DuplicateRow,
    /// The serial id column of the table has no fresh value left.
    IdSpaceExhausted,
}

/// The mathematical content of a [`Store`]: the rows of the four tables in
/// insertion order, and the next value of each serial id column.
#[verifier::ext_equal]
pub struct StoreModel {
    pub products: Seq<Product>,
    pub customers: Seq<Customer>,
    pub orders: Seq<Order>,
    pub products_in_orders: Seq<ProductInOrder>,
    pub next_product_id: int,
    pub next_customer_id: int,
    pub next_order_id: int,
}

/// The product row that an insert of `p` creates when the serial column
/// assigns `id`: the caller's id field is ignored, as the database ignores it.
pub open spec fn assigned_product(p: Product, id: int) -> Product {
    Product { id: id as i32, name: p.name, price: p.price, available: p.available }
}

/// The rows that a multi-row insert of `ps` creates, with consecutive ids
/// starting at `first`.
pub open spec fn assigned_products(ps: Seq<Product>, first: int) -> Seq<Product> {
    Seq::new(ps.len(), |k: int| assigned_product(ps[k], first + k))
}

/// The customer row that an insert of `c` creates under serial id `id`.
pub open spec fn assigned_customer(c: Customer, id: int) -> Customer {
    Customer { id: id as i32, name: c.name, address: c.address }
}

/// The rows that a multi-row insert of `cs` creates, with consecutive ids
/// starting at `first`.
pub open spec fn assigned_customers(cs: Seq<Customer>, first: int) -> Seq<Customer> {
    Seq::new(cs.len(), |k: int| assigned_customer(cs[k], first + k))
}

/// The order row that an insert of `o` creates under serial id `id`.
pub open spec fn assigned_order(o: Order, id: int) -> Order {
    Order { id: id as i32, customer_id: o.customer_id, status: o.status, created_at: o.created_at }
}

/// The join rows that an order's line items create once the order row got
/// serial id `order_id`.
pub open spec fn join_rows_for(lines: Seq<OrderLine>, order_id: int) -> Seq<ProductInOrder> {
    Seq::new(
        lines.len(),
        |k: int|
            ProductInOrder {
                order_id: order_id as i32,
                product_id: lines[k].product_id,
                quantity: lines[k].quantity,
            },
    )
}

/// The orders of one customer, in table order: what
/// `select * from orders where customer_id = $1` returns.
pub open spec fn orders_with_customer(orders: Seq<Order>, cid: i32) -> Seq<Order>
    decreases orders.len(),
{
    if orders.len() == 0 {
        Seq::empty()
    } else {
        let rest = orders_with_customer(orders.drop_last(), cid);
        if orders.last().customer_id == cid {
            rest.push(orders.last())
        } else {
            rest
        }
    }
}

/// The join rows of one order, in table order: what
/// `select * from products_in_orders where order_id = $1` returns.
pub open spec fn join_rows_of_order(rows: Seq<ProductInOrder>, oid: i32) -> Seq<ProductInOrder>
    decreases rows.len(),
{
    if rows.len() == 0 {
        Seq::empty()
    } else {
        let rest = join_rows_of_order(rows.drop_last(), oid);
        if rows.last().order_id == oid {
            rest.push(rows.last())
        } else {
            rest
        }
    }
}

impl StoreModel {
    /// The store with four empty tables, as migration leaves it; each serial
    /// id column starts at 1.
    pub open spec fn empty() -> StoreModel {
        StoreModel {
            products: Seq::empty(),
            customers: Seq::empty(),
            orders: Seq::empty(),
            products_in_orders: Seq::empty(),
            next_product_id: 1,
            next_customer_id: 1,
            next_order_id: 1,
        }
    }

    /// Some product row carries this id.
    pub open spec fn has_product(self, id: i32) -> bool {
        exists|i: int| 0 <= i < self.products.len() && (#[trigger] self.products[i]).id == id
    }

    /// Some customer row carries this id.
    pub open spec fn has_customer(self, id: i32) -> bool {
        exists|i: int| 0 <= i < self.customers.len() && (#[trigger] self.customers[i]).id == id
    }

    /// Some order row carries this id.
    pub open spec fn has_order(self, id: i32) -> bool {
        exists|i: int| 0 <= i < self.orders.len() && (#[trigger] self.orders[i]).id == id
    }

    /// The products table is well formed: ids were assigned by the serial
    /// column, so they are at least 1, below the next free value, and unique.
    pub open spec fn products_wf(self) -> bool {
        &&& 1 <= self.next_product_id <= i32::MAX
        &&& forall|i: int|
            0 <= i < self.products.len() ==> 1 <= (#[trigger] self.products[i]).id
                < self.next_product_id
        &&& forall|i: int, j: int|
            0 <= i < self.products.len() && 0 <= j < self.products.len() && i != j ==> (
            #[trigger] self.products[i]).id != (#[trigger] self.products[j]).id
    }

    /// The customers table is well formed, as for products.
    pub open spec fn customers_wf(self) -> bool {
        &&& 1 <= self.next_customer_id <= i32::MAX
        &&& forall|i: int|
            0 <= i < self.customers.len() ==> 1 <= (#[trigger] self.customers[i]).id
                < self.next_customer_id
        &&& forall|i: int, j: int|
            0 <= i < self.customers.len() && 0 <= j < self.customers.len() && i != j ==> (
            #[trigger] self.customers[i]).id != (#[trigger] self.customers[j]).id
    }

    /// The orders table is well formed: serial ids as for products, and each
    /// row references an existing customer.
    pub open spec fn orders_wf(self) -> bool {
        &&& 1 <= self.next_order_id <= i32::MAX
        &&& forall|i: int|
            0 <= i < self.orders.len() ==> 1 <= (#[trigger] self.orders[i]).id < self.next_order_id
        &&& forall|i: int, j: int|
            0 <= i < self.orders.len() && 0 <= j < self.orders.len() && i != j ==> (
            #[trigger] self.orders[i]).id != (#[trigger] self.orders[j]).id
        &&& forall|i: int|
            0 <= i < self.orders.len() ==> self.has_customer(
                (#[trigger] self.orders[i]).customer_id,
            )
    }

    /// The join table is well formed: every row references an existing order
    /// and an existing product, and no composite key (order_id, product_id)
    /// repeats.
    pub open spec fn join_wf(self) -> bool {
        &&& forall|k: int|
            0 <= k < self.products_in_orders.len() ==> self.has_order(
                (#[trigger] self.products_in_orders[k]).order_id,
            ) && self.has_product(self.products_in_orders[k].product_id)
        &&& forall|k: int, l: int|
            0 <= k < self.products_in_orders.len() && 0 <= l < self.products_in_orders.len() && k
                != l ==> !((#[trigger] self.products_in_orders[k]).order_id == (
            #[trigger] self.products_in_orders[l]).order_id
                && self.products_in_orders[k].product_id == self.products_in_orders[l].product_id)
    }

    /// The whole store respects the schema: serial ids and the three
    /// foreign-key constraints.
    pub open spec fn wf(self) -> bool {
        self.products_wf() && self.customers_wf() && self.orders_wf() && self.join_wf()
    }

    /// The error, if any, that the database reports for line item `k` of an
    /// order being created: a missing product breaks the foreign key, a
    /// repeated product repeats the join table's composite key. Checks run
    /// in line order; `None` means every line from `k` on is acceptable.
    pub open spec fn line_check(self, lines: Seq<OrderLine>, k: int) -> Option<DbError>
        decreases lines.len() - k,
    {
        if k < 0 || k >= lines.len() {
            None
        } else if !self.has_product(lines[k].product_id) {
            Some(DbError::ForeignKeyViolation)
        } else if exists|j: int| 0 <= j < k && (#[trigger] lines[j]).product_id == lines[k].product_id {
            Some(DbError::DuplicateRow)
        } else {
            self.line_check(lines, k + 1)
        }
    }

    /// The error, if any, that creating one order with its line items
    /// reports: serial exhaustion, then the order's customer foreign key,
    /// then the line items in order. `None` means the insert succeeds.
    pub open spec fn order_check(self, o: Order, lines: Seq<OrderLine>) -> Option<DbError> {
        if self.next_order_id >= i32::MAX {
            Some(DbError::IdSpaceExhausted)
        } else if !self.has_customer(o.customer_id) {
            Some(DbError::ForeignKeyViolation)
        } else {
            self.line_check(lines, 0)
        }
    }

    /// The store after one order insert: the order row and one join row per
    /// line item, all referencing the assigned id.
    pub open spec fn with_order_inserted(self, o: Order, lines: Seq<OrderLine>) -> StoreModel {
        StoreModel {
            orders: self.orders.push(assigned_order(o, self.next_order_id)),
            products_in_orders: self.products_in_orders + join_rows_for(
                lines,
                self.next_order_id,
            ),
            next_order_id: self.next_order_id + 1,
            ..self
        }
    }

    /// The store after `update orders set .. where id = o.id`.
    pub open spec fn with_order_overwritten(self, o: Order) -> StoreModel {
        StoreModel {
            orders: Seq::new(
                self.orders.len(),
                |i: int| if self.orders[i].id == o.id { o } else { self.orders[i] },
            ),
            ..self
        }
    }

    /// The store after a sequence of order creations that stops at the first
    /// failing one: the state reached, and the error that stopped it, if any.
    pub open spec fn orders_inserted(self, reqs: Seq<OrderWithProducts>) -> (StoreModel, Option<
        DbError,
    >)
        decreases reqs.len(),
    {
        if reqs.len() == 0 {
            (self, None)
        } else {
            let chk = self.order_check(reqs[0].order, reqs[0].lines@);
            if chk is Some {
                (self, chk)
            } else {
                self.with_order_inserted(reqs[0].order, reqs[0].lines@).orders_inserted(
                    reqs.drop_first(),
                )
            }
        }
    }

    /// The store after `delete from products`.
    pub open spec fn with_products_cleared(self) -> StoreModel {
        StoreModel { products: Seq::empty(), ..self }
    }

    /// The store after `delete from customers`.
    pub open spec fn with_customers_cleared(self) -> StoreModel {
        StoreModel { customers: Seq::empty(), ..self }
    }

    /// The store after `delete from products_in_orders` and
    /// `delete from orders`.
    pub open spec fn with_orders_cleared(self) -> StoreModel {
        StoreModel { orders: Seq::empty(), products_in_orders: Seq::empty(), ..self }
    }

    /// The store after one product insert.
    pub open spec fn with_product_inserted(self, p: Product) -> StoreModel {
        StoreModel {
            products: self.products.push(assigned_product(p, self.next_product_id)),
            next_product_id: self.next_product_id + 1,
            ..self
        }
    }

    /// The store after a multi-row product insert: every row is kept, none is
    /// dropped, and the ids are consecutive.
    pub open spec fn with_products_inserted(self, ps: Seq<Product>) -> StoreModel {
        StoreModel {
            products: self.products + assigned_products(ps, self.next_product_id),
            next_product_id: self.next_product_id + ps.len(),
            ..self
        }
    }

    /// The store after `update products set ... where id = p.id`: every row
    /// whose id matches is overwritten with `p`, every other row is untouched.
    pub open spec fn with_product_overwritten(self, p: Product) -> StoreModel {
        StoreModel {
            products: Seq::new(
                self.products.len(),
                |i: int| if self.products[i].id == p.id { p } else { self.products[i] },
            ),
            ..self
        }
    }

    /// The store after one customer insert.
    pub open spec fn with_customer_inserted(self, c: Customer) -> StoreModel {
        StoreModel {
            customers: self.customers.push(assigned_customer(c, self.next_customer_id)),
            next_customer_id: self.next_customer_id + 1,
            ..self
        }
    }

    /// The store after a multi-row customer insert.
    pub open spec fn with_customers_inserted(self, cs: Seq<Customer>) -> StoreModel {
        StoreModel {
            customers: self.customers + assigned_customers(cs, self.next_customer_id),
            next_customer_id: self.next_customer_id + cs.len(),
            ..self
        }
    }

    /// The store after `update customers set ... where id = c.id`.
    pub open spec fn with_customer_overwritten(self, c: Customer) -> StoreModel {
        StoreModel {
            customers: Seq::new(
                self.customers.len(),
                |i: int| if self.customers[i].id == c.id { c } else { self.customers[i] },
            ),
            ..self
        }
    }
}

/// An id found in `a`'s products is still found in `b`'s, when `b` keeps
/// every id of `a` in place (rows may be overwritten or appended).
pub proof fn lemma_has_product_extended(a: StoreModel, b: StoreModel, id: i32)
    requires
        a.has_product(id),
        a.products.len() <= b.products.len(),
        forall|i: int|
            0 <= i < a.products.len() ==> (#[trigger] b.products[i]).id == a.products[i].id,
    ensures
        b.has_product(id),
{
    let iw = choose|i: int| 0 <= i < a.products.len() && (#[trigger] a.products[i]).id == id;
    assert(b.products[iw].id == id);
}

/// As [`lemma_has_product_extended`], for the customers table.
pub proof fn lemma_has_customer_extended(a: StoreModel, b: StoreModel, id: i32)
    requires
        a.has_customer(id),
        a.customers.len() <= b.customers.len(),
        forall|i: int|
            0 <= i < a.customers.len() ==> (#[trigger] b.customers[i]).id == a.customers[i].id,
    ensures
        b.has_customer(id),
{
    let iw = choose|i: int| 0 <= i < a.customers.len() && (#[trigger] a.customers[i]).id == id;
    assert(b.customers[iw].id == id);
}

/// As [`lemma_has_product_extended`], for the orders table.
pub proof fn lemma_has_order_extended(a: StoreModel, b: StoreModel, id: i32)
    requires
        a.has_order(id),
        a.orders.len() <= b.orders.len(),
        forall|i: int| 0 <= i < a.orders.len() ==> (#[trigger] b.orders[i]).id == a.orders[i].id,
    ensures
        b.has_order(id),
{
    let iw = choose|i: int| 0 <= i < a.orders.len() && (#[trigger] a.orders[i]).id == id;
    assert(b.orders[iw].id == id);
}

/// The foreign-key clauses of `wf` survive any step from `m` to `n` that
/// keeps every product and customer id in place (rows may be overwritten or
/// appended) and does not touch the orders and join tables.
proof fn lemma_fk_clauses_extended(m: StoreModel, n: StoreModel)
    requires
        m.wf(),
        m.products.len() <= n.products.len(),
        forall|i: int|
            0 <= i < m.products.len() ==> (#[trigger] n.products[i]).id == m.products[i].id,
        m.customers.len() <= n.customers.len(),
        forall|i: int|
            0 <= i < m.customers.len() ==> (#[trigger] n.customers[i]).id == m.customers[i].id,
        m.orders == n.orders,
        m.products_in_orders == n.products_in_orders,
    ensures
        forall|i: int|
            0 <= i < n.orders.len() ==> n.has_customer((#[trigger] n.orders[i]).customer_id),
        forall|k: int|
            0 <= k < n.products_in_orders.len() ==> n.has_order(
                (#[trigger] n.products_in_orders[k]).order_id,
            ) && n.has_product(n.products_in_orders[k].product_id),
{
    assert forall|i: int| 0 <= i < n.orders.len() implies n.has_customer(
        (#[trigger] n.orders[i]).customer_id,
    ) by {
        assert(m.orders[i] == n.orders[i]);
        lemma_has_customer_extended(m, n, m.orders[i].customer_id);
    }
    assert forall|k: int| 0 <= k < n.products_in_orders.len() implies n.has_order(
        (#[trigger] n.products_in_orders[k]).order_id,
    ) && n.has_product(n.products_in_orders[k].product_id) by {
        assert(m.products_in_orders[k] == n.products_in_orders[k]);
        lemma_has_order_extended(m, n, m.products_in_orders[k].order_id);
        lemma_has_product_extended(m, n, m.products_in_orders[k].product_id);
    }
}

/// Inserting one product preserves the schema's invariants: the assigned id
/// is fresh, and every foreign-key witness survives.
pub proof fn lemma_insert_product_wf(m: StoreModel, p: Product)
    requires
        m.wf(),
        m.next_product_id < i32::MAX,
    ensures
        m.with_product_inserted(p).wf(),
{
    let n = m.with_product_inserted(p);
    assert forall|i: int| 0 <= i < n.products.len() implies 1 <= (#[trigger] n.products[i]).id
        < n.next_product_id by {
        if i < m.products.len() {
            assert(n.products[i] == m.products[i]);
        }
    }
    assert forall|i: int, j: int|
        0 <= i < n.products.len() && 0 <= j < n.products.len() && i != j implies (
    #[trigger] n.products[i]).id != (#[trigger] n.products[j]).id by {
        if i < m.products.len() && j < m.products.len() {
            assert(n.products[i] == m.products[i] && n.products[j] == m.products[j]);
        } else if i < m.products.len() {
            assert(n.products[i] == m.products[i] && n.products[j].id == m.next_product_id);
        } else {
            assert(n.products[j] == m.products[j] && n.products[i].id == m.next_product_id);
        }
    }
    lemma_fk_clauses_extended(m, n);
    assert(n.wf());
}

/// A multi-row product insert preserves the schema's invariants.
pub proof fn lemma_insert_products_wf(m: StoreModel, ps: Seq<Product>)
    requires
        m.wf(),
        m.next_product_id + ps.len() <= i32::MAX,
    ensures
        m.with_products_inserted(ps).wf(),
{
    let n = m.with_products_inserted(ps);
    let base = m.products.len() as int;
    assert forall|i: int| 0 <= i < n.products.len() implies 1 <= (#[trigger] n.products[i]).id
        < n.next_product_id by {
        if i < base {
            assert(n.products[i] == m.products[i]);
        } else {
            assert(n.products[i] == assigned_product(ps[i - base], m.next_product_id + (i - base)));
        }
    }
    assert forall|i: int, j: int|
        0 <= i < n.products.len() && 0 <= j < n.products.len() && i != j implies (
    #[trigger] n.products[i]).id != (#[trigger] n.products[j]).id by {
        if i < base {
            assert(n.products[i] == m.products[i]);
        } else {
            assert(n.products[i] == assigned_product(ps[i - base], m.next_product_id + (i - base)));
        }
        if j < base {
            assert(n.products[j] == m.products[j]);
        } else {
            assert(n.products[j] == assigned_product(ps[j - base], m.next_product_id + (j - base)));
        }
    }
    lemma_fk_clauses_extended(m, n);
    assert(n.wf());
}

/// A full-row overwrite by id leaves every id in place, so the schema's
/// invariants survive.
pub proof fn lemma_overwrite_product_wf(m: StoreModel, p: Product)
    requires
        m.wf(),
    ensures
        m.with_product_overwritten(p).wf(),
{
    let n = m.with_product_overwritten(p);
    assert forall|i: int| 0 <= i < n.products.len() implies (#[trigger] n.products[i]).id
        == m.products[i].id by {}
    assert forall|i: int| 0 <= i < n.products.len() implies 1 <= (#[trigger] n.products[i]).id
        < n.next_product_id by {
        assert(n.products[i].id == m.products[i].id);
    }
    assert forall|i: int, j: int|
        0 <= i < n.products.len() && 0 <= j < n.products.len() && i != j implies (
    #[trigger] n.products[i]).id != (#[trigger] n.products[j]).id by {
        assert(n.products[i].id == m.products[i].id);
        assert(n.products[j].id == m.products[j].id);
    }
    lemma_fk_clauses_extended(m, n);
    assert(n.wf());
}

/// Inserting one customer preserves the schema's invariants.
pub proof fn lemma_insert_customer_wf(m: StoreModel, c: Customer)
    requires
        m.wf(),
        m.next_customer_id < i32::MAX,
    ensures
        m.with_customer_inserted(c).wf(),
{
    let n = m.with_customer_inserted(c);
    assert forall|i: int| 0 <= i < n.customers.len() implies 1 <= (#[trigger] n.customers[i]).id
        < n.next_customer_id by {
        if i < m.customers.len() {
            assert(n.customers[i] == m.customers[i]);
        }
    }
    assert forall|i: int, j: int|
        0 <= i < n.customers.len() && 0 <= j < n.customers.len() && i != j implies (
    #[trigger] n.customers[i]).id != (#[trigger] n.customers[j]).id by {
        if i < m.customers.len() && j < m.customers.len() {
            assert(n.customers[i] == m.customers[i] && n.customers[j] == m.customers[j]);
        } else if i < m.customers.len() {
            assert(n.customers[i] == m.customers[i] && n.customers[j].id == m.next_customer_id);
        } else {
            assert(n.customers[j] == m.customers[j] && n.customers[i].id == m.next_customer_id);
        }
    }
    lemma_fk_clauses_extended(m, n);
    assert(n.wf());
}

/// A multi-row customer insert preserves the schema's invariants.
pub proof fn lemma_insert_customers_wf(m: StoreModel, cs: Seq<Customer>)
    requires
        m.wf(),
        m.next_customer_id + cs.len() <= i32::MAX,
    ensures
        m.with_customers_inserted(cs).wf(),
{
    let n = m.with_customers_inserted(cs);
    let base = m.customers.len() as int;
    assert forall|i: int| 0 <= i < n.customers.len() implies 1 <= (#[trigger] n.customers[i]).id
        < n.next_customer_id by {
        if i < base {
            assert(n.customers[i] == m.customers[i]);
        } else {
            assert(n.customers[i] == assigned_customer(
                cs[i - base],
                m.next_customer_id + (i - base),
            ));
        }
    }
    assert forall|i: int, j: int|
        0 <= i < n.customers.len() && 0 <= j < n.customers.len() && i != j implies (
    #[trigger] n.customers[i]).id != (#[trigger] n.customers[j]).id by {
        if i < base {
            assert(n.customers[i] == m.customers[i]);
        } else {
            assert(n.customers[i] == assigned_customer(
                cs[i - base],
                m.next_customer_id + (i - base),
            ));
        }
        if j < base {
            assert(n.customers[j] == m.customers[j]);
        } else {
            assert(n.customers[j] == assigned_customer(
                cs[j - base],
                m.next_customer_id + (j - base),
            ));
        }
    }
    lemma_fk_clauses_extended(m, n);
    assert(n.wf());
}

/// A full-row customer overwrite by id preserves the schema's invariants.
pub proof fn lemma_overwrite_customer_wf(m: StoreModel, c: Customer)
    requires
        m.wf(),
    ensures
        m.with_customer_overwritten(c).wf(),
{
    let n = m.with_customer_overwritten(c);
    assert forall|i: int| 0 <= i < n.customers.len() implies (#[trigger] n.customers[i]).id
        == m.customers[i].id by {}
    assert forall|i: int| 0 <= i < n.customers.len() implies 1 <= (#[trigger] n.customers[i]).id
        < n.next_customer_id by {
        assert(n.customers[i].id == m.customers[i].id);
    }
    assert forall|i: int, j: int|
        0 <= i < n.customers.len() && 0 <= j < n.customers.len() && i != j implies (
    #[trigger] n.customers[i]).id != (#[trigger] n.customers[j]).id by {
        assert(n.customers[i].id == m.customers[i].id);
        assert(n.customers[j].id == m.customers[j].id);
    }
    lemma_fk_clauses_extended(m, n);
    assert(n.wf());
}

/// When the line checks from `k` on all pass, every product referenced from
/// `k` on exists, and no product repeats between any earlier line and one at
/// or past `k`.
pub proof fn lemma_line_check_none(m: StoreModel, lines: Seq<OrderLine>, k: int)
    requires
        m.line_check(lines, k) is None,
        0 <= k <= lines.len(),
    ensures
        forall|j: int| k <= j < lines.len() ==> m.has_product((#[trigger] lines[j]).product_id),
        forall|j1: int, j2: int|
            0 <= j1 < j2 < lines.len() && k <= j2 ==> (#[trigger] lines[j1]).product_id != (
            #[trigger] lines[j2]).product_id,
    decreases lines.len() - k,
{
    if k < lines.len() {
        lemma_line_check_none(m, lines, k + 1);
    }
}

/// Creating an order whose checks pass preserves the schema's invariants:
/// the order id is fresh, its customer exists, and each join row references
/// the new order and an existing product, without repeating a composite key.
pub proof fn lemma_insert_order_wf(m: StoreModel, o: Order, lines: Seq<OrderLine>)
    requires
        m.wf(),
        m.order_check(o, lines) is None,
    ensures
        m.with_order_inserted(o, lines).wf(),
{
    let n = m.with_order_inserted(o, lines);
    let base = m.products_in_orders.len() as int;
    lemma_line_check_none(m, lines, 0);
    assert forall|i: int| 0 <= i < n.orders.len() implies 1 <= (#[trigger] n.orders[i]).id
        < n.next_order_id by {
        if i < m.orders.len() {
            assert(n.orders[i] == m.orders[i]);
        }
    }
    assert forall|i: int, j: int|
        0 <= i < n.orders.len() && 0 <= j < n.orders.len() && i != j implies (
    #[trigger] n.orders[i]).id != (#[trigger] n.orders[j]).id by {
        if i < m.orders.len() && j < m.orders.len() {
            assert(n.orders[i] == m.orders[i] && n.orders[j] == m.orders[j]);
        } else if i < m.orders.len() {
            assert(n.orders[i] == m.orders[i] && n.orders[j].id == m.next_order_id);
        } else {
            assert(n.orders[j] == m.orders[j] && n.orders[i].id == m.next_order_id);
        }
    }
    assert forall|i: int| 0 <= i < n.orders.len() implies n.has_customer(
        (#[trigger] n.orders[i]).customer_id,
    ) by {
        if i < m.orders.len() {
            assert(n.orders[i] == m.orders[i]);
            lemma_has_customer_extended(m, n, m.orders[i].customer_id);
        } else {
            assert(n.orders[i].customer_id == o.customer_id);
            lemma_has_customer_extended(m, n, o.customer_id);
        }
    }
    assert(n.orders_wf());
    // every old join row's order id is strictly below the fresh one
    assert forall|k: int| 0 <= k < base implies (#[trigger] n.products_in_orders[k]).order_id
        < m.next_order_id by {
        assert(n.products_in_orders[k] == m.products_in_orders[k]);
        let oid = m.products_in_orders[k].order_id;
        let iw = choose|i: int| 0 <= i < m.orders.len() && (#[trigger] m.orders[i]).id == oid;
        assert(1 <= m.orders[iw].id < m.next_order_id);
    }
    assert forall|k: int| 0 <= k < n.products_in_orders.len() implies n.has_order(
        (#[trigger] n.products_in_orders[k]).order_id,
    ) && n.has_product(n.products_in_orders[k].product_id) by {
        if k < base {
            assert(n.products_in_orders[k] == m.products_in_orders[k]);
            lemma_has_order_extended(m, n, m.products_in_orders[k].order_id);
            lemma_has_product_extended(m, n, m.products_in_orders[k].product_id);
        } else {
            assert(n.products_in_orders[k] == join_rows_for(lines, m.next_order_id)[k - base]);
            assert(n.orders[m.orders.len() as int].id == m.next_order_id as i32);
            assert(n.has_order(n.products_in_orders[k].order_id));
            assert(m.has_product(lines[k - base].product_id));
            lemma_has_product_extended(m, n, lines[k - base].product_id);
        }
    }
    assert forall|k: int, l: int|
        0 <= k < n.products_in_orders.len() && 0 <= l < n.products_in_orders.len() && k
            != l implies !((#[trigger] n.products_in_orders[k]).order_id == (
    #[trigger] n.products_in_orders[l]).order_id && n.products_in_orders[k].product_id
        == n.products_in_orders[l].product_id) by {
        if k < base && l < base {
            assert(n.products_in_orders[k] == m.products_in_orders[k]);
            assert(n.products_in_orders[l] == m.products_in_orders[l]);
        } else if k < base {
            assert(n.products_in_orders[k].order_id < m.next_order_id);
            assert(n.products_in_orders[l].order_id == m.next_order_id as i32);
        } else if l < base {
            assert(n.products_in_orders[l].order_id < m.next_order_id);
            assert(n.products_in_orders[k].order_id == m.next_order_id as i32);
        } else {
            assert(n.products_in_orders[k].product_id == lines[k - base].product_id);
            assert(n.products_in_orders[l].product_id == lines[l - base].product_id);
        }
    }
    assert(n.join_wf());
    assert(n.wf());
}

/// A full-row order overwrite keeps every order id in place, so the schema's
/// invariants survive as long as the new customer reference exists whenever
/// some row is actually overwritten.
pub proof fn lemma_overwrite_order_wf(m: StoreModel, o: Order)
    requires
        m.wf(),
        m.has_order(o.id) ==> m.has_customer(o.customer_id),
    ensures
        m.with_order_overwritten(o).wf(),
{
    let n = m.with_order_overwritten(o);
    assert forall|i: int| 0 <= i < n.orders.len() implies (#[trigger] n.orders[i]).id
        == m.orders[i].id by {}
    assert forall|i: int| 0 <= i < n.orders.len() implies 1 <= (#[trigger] n.orders[i]).id
        < n.next_order_id by {
        assert(n.orders[i].id == m.orders[i].id);
    }
    assert forall|i: int, j: int|
        0 <= i < n.orders.len() && 0 <= j < n.orders.len() && i != j implies (
    #[trigger] n.orders[i]).id != (#[trigger] n.orders[j]).id by {
        assert(n.orders[i].id == m.orders[i].id);
        assert(n.orders[j].id == m.orders[j].id);
    }
    assert forall|i: int| 0 <= i < n.orders.len() implies n.has_customer(
        (#[trigger] n.orders[i]).customer_id,
    ) by {
        if m.orders[i].id == o.id {
            assert(m.orders[i].id == o.id);
            assert(m.has_order(o.id));
            lemma_has_customer_extended(m, n, o.customer_id);
        } else {
            assert(n.orders[i] == m.orders[i]);
            lemma_has_customer_extended(m, n, m.orders[i].customer_id);
        }
    }
    assert forall|k: int| 0 <= k < n.products_in_orders.len() implies n.has_order(
        (#[trigger] n.products_in_orders[k]).order_id,
    ) && n.has_product(n.products_in_orders[k].product_id) by {
        assert(n.products_in_orders[k] == m.products_in_orders[k]);
        lemma_has_order_extended(m, n, m.products_in_orders[k].order_id);
        lemma_has_product_extended(m, n, m.products_in_orders[k].product_id);
    }
    assert(n.wf());
}

/// The in-memory relational store: the four tables and the serial id
/// counters. `view` gives the [`StoreModel`] that all contracts speak of;
/// every operation requires and preserves `wf`.
pub struct Store {
    pub products: Vec<Product>,
    pub customers: Vec<Customer>,
    pub orders: Vec<Order>,
    pub products_in_orders: Vec<ProductInOrder>,
    pub next_product_id: i32,
    pub next_customer_id: i32,
    pub next_order_id: i32,
}

impl View for Store {
    type V = StoreModel;

    open spec fn view(&self) -> StoreModel {
        StoreModel {
            products: self.products@,
            customers: self.customers@,
            orders: self.orders@,
            products_in_orders: self.products_in_orders@,
            next_product_id: self.next_product_id as int,
            next_customer_id: self.next_customer_id as int,
            next_order_id: self.next_order_id as int,
        }
    }
}

impl Store {
    /// An empty store, as the schema's migration leaves the database.
    pub fn new() -> (r: Store)
        ensures
            r@ == StoreModel::empty(),
            r@.wf(),
    {
        let r = Store {
            products: Vec::new(),
            customers: Vec::new(),
            orders: Vec::new(),
            products_in_orders: Vec::new(),
            next_product_id: 1,
            next_customer_id: 1,
            next_order_id: 1,
        };
        proof {
            assert(r@ =~= StoreModel::empty());
        }
        r
    }

    /// `insert into products (name, price, available) values (..) returning id`.
    pub fn insert_product(&mut self, new_product: Product) -> (r: Result<i32, DbError>)
        requires
            old(self)@.wf(),
        ensures
            final(self)@.wf(),
            old(self)@.next_product_id < i32::MAX ==> r == Ok::<i32, DbError>(
                old(self).next_product_id,
            ) && final(self)@ == old(self)@.with_product_inserted(new_product),
            old(self)@.next_product_id == i32::MAX ==> r == Err::<i32, DbError>(
                DbError::IdSpaceExhausted,
            ) && final(self)@ == old(self)@,
    {
        if self.next_product_id == i32::MAX {
            return Err(DbError::IdSpaceExhausted);
        }
        let id = self.next_product_id;
        let row = Product {
            id,
            name: new_product.name,
            price: new_product.price,
            available: new_product.available,
        };
        self.products.push(row);
        self.next_product_id = self.next_product_id + 1;
        proof {
            assert(self@ =~= old(self)@.with_product_inserted(new_product));
            lemma_insert_product_wf(old(self)@, new_product);
        }
        Ok(id)
    }

    /// `insert into products ... values (..), (..), ..`: all rows are kept.
    pub fn insert_products(&mut self, new_products: &Vec<Product>) -> (r: Result<(), DbError>)
        requires
            old(self)@.wf(),
        ensures
            final(self)@.wf(),
            old(self)@.next_product_id + new_products@.len() <= i32::MAX ==> r
                == Ok::<(), DbError>(()) && final(self)@ == old(self)@.with_products_inserted(
                new_products@,
            ),
            old(self)@.next_product_id + new_products@.len() > i32::MAX ==> r
                == Err::<(), DbError>(DbError::IdSpaceExhausted) && final(self)@ == old(self)@,
    {
        if new_products.len() > (i32::MAX - self.next_product_id) as usize {
            return Err(DbError::IdSpaceExhausted);
        }
        let n = new_products.len();
        for k in 0..n
            invariant
                n == new_products.len(),
                self.next_product_id == old(self).next_product_id + k,
                old(self)@.next_product_id + n <= i32::MAX,
                self.products@ == old(self).products@ + assigned_products(
                    new_products@,
                    old(self)@.next_product_id,
                ).take(k as int),
                self.customers == old(self).customers,
                self.orders == old(self).orders,
                self.products_in_orders == old(self).products_in_orders,
                self.next_customer_id == old(self).next_customer_id,
                self.next_order_id == old(self).next_order_id,
        {
            let row = Product {
                id: self.next_product_id,
                name: new_products[k].name.clone(),
                price: new_products[k].price,
                available: new_products[k].available,
            };
            self.products.push(row);
            self.next_product_id = self.next_product_id + 1;
            proof {
                let all = assigned_products(new_products@, old(self)@.next_product_id);
                assert(self.products@ =~= old(self).products@ + all.take(k + 1));
            }
        }
        proof {
            let all = assigned_products(new_products@, old(self)@.next_product_id);
            assert(all.take(n as int) =~= all);
            assert(self@ =~= old(self)@.with_products_inserted(new_products@));
            lemma_insert_products_wf(old(self)@, new_products@);
        }
        Ok(())
    }

    /// `select * from products`.
    pub fn all_products(&self) -> (r: Vec<Product>)
        ensures
            r@ == self@.products,
    {
        let mut out: Vec<Product> = Vec::new();
        let n = self.products.len();
        for i in 0..n
            invariant
                n == self.products.len(),
                out@ == self.products@.take(i as int),
        {
            out.push(self.products[i].clone());
            proof {
                assert(out@ =~= self.products@.take(i + 1));
            }
        }
        proof {
            assert(self.products@.take(n as int) =~= self.products@);
        }
        out
    }

    /// `select * from products where id = $1`, failing when no row matches.
    pub fn product_by_id(&self, id: i32) -> (r: Result<Product, DbError>)
        requires
            self@.wf(),
        ensures
            r is Ok <==> self@.has_product(id),
            r matches Ok(p) ==> exists|i: int|
                0 <= i < self@.products.len() && (#[trigger] self@.products[i]).id == id && p
                    == self@.products[i],
            r matches Err(e) ==> e == DbError::NotFound,
    {
        let n = self.products.len();
        for i in 0..n
            invariant
                n == self.products.len(),
                forall|j: int| 0 <= j < i ==> (#[trigger] self.products@[j]).id != id,
        {
            if self.products[i].id == id {
                let found = self.products[i].clone();
                proof {
                    assert((self@.products[i as int]).id == id);
                }
                return Ok(found);
            }
        }
        Err(DbError::NotFound)
    }

    /// `update products set name = .., price = .., available = .. where id = ..`:
    /// overwrites exactly the matching row; with no matching row it is a no-op
    /// that still reports success, as the database does.
    pub fn overwrite_product(&mut self, updated: &Product) -> (r: Result<(), DbError>)
        requires
            old(self)@.wf(),
        ensures
            final(self)@.wf(),
            r == Ok::<(), DbError>(()),
            final(self)@ == old(self)@.with_product_overwritten(*updated),
    {
        let n = self.products.len();
        for i in 0..n
            invariant
                n == self.products.len(),
                self.products.len() == old(self).products.len(),
                forall|j: int|
                    0 <= j < i ==> self.products@[j] == (if old(self).products@[j].id == updated.id {
                        *updated
                    } else {
                        old(self).products@[j]
                    }),
                forall|j: int| i <= j < n ==> self.products@[j] == old(self).products@[j],
                self.customers == old(self).customers,
                self.orders == old(self).orders,
                self.products_in_orders == old(self).products_in_orders,
                self.next_product_id == old(self).next_product_id,
                self.next_customer_id == old(self).next_customer_id,
                self.next_order_id == old(self).next_order_id,
        {
            if self.products[i].id == updated.id {
                self.products.set(i, updated.clone());
            }
        }
        proof {
            assert(self@ =~= old(self)@.with_product_overwritten(*updated));
            lemma_overwrite_product_wf(old(self)@, *updated);
        }
        Ok(())
    }

    /// `insert into customers (name, address) values (..) returning id`.
    pub fn insert_customer(&mut self, new_customer: Customer) -> (r: Result<i32, DbError>)
        requires
            old(self)@.wf(),
        ensures
            final(self)@.wf(),
            old(self)@.next_customer_id < i32::MAX ==> r == Ok::<i32, DbError>(
                old(self).next_customer_id,
            ) && final(self)@ == old(self)@.with_customer_inserted(new_customer),
            old(self)@.next_customer_id == i32::MAX ==> r == Err::<i32, DbError>(
                DbError::IdSpaceExhausted,
            ) && final(self)@ == old(self)@,
    {
        if self.next_customer_id == i32::MAX {
            return Err(DbError::IdSpaceExhausted);
        }
        let id = self.next_customer_id;
        let row = Customer { id, name: new_customer.name, address: new_customer.address };
        self.customers.push(row);
        self.next_customer_id = self.next_customer_id + 1;
        proof {
            assert(self@ =~= old(self)@.with_customer_inserted(new_customer));
            lemma_insert_customer_wf(old(self)@, new_customer);
        }
        Ok(id)
    }

    /// `insert into customers ... values (..), (..), ..`: all rows are kept.
    pub fn insert_customers(&mut self, new_customers: &Vec<Customer>) -> (r: Result<(), DbError>)
        requires
            old(self)@.wf(),
        ensures
            final(self)@.wf(),
            old(self)@.next_customer_id + new_customers@.len() <= i32::MAX ==> r
                == Ok::<(), DbError>(()) && final(self)@ == old(self)@.with_customers_inserted(
                new_customers@,
            ),
            old(self)@.next_customer_id + new_customers@.len() > i32::MAX ==> r
                == Err::<(), DbError>(DbError::IdSpaceExhausted) && final(self)@ == old(self)@,
    {
        if new_customers.len() > (i32::MAX - self.next_customer_id) as usize {
            return Err(DbError::IdSpaceExhausted);
        }
        let n = new_customers.len();
        for k in 0..n
            invariant
                n == new_customers.len(),
                self.next_customer_id == old(self).next_customer_id + k,
                old(self)@.next_customer_id + n <= i32::MAX,
                self.customers@ == old(self).customers@ + assigned_customers(
                    new_customers@,
                    old(self)@.next_customer_id,
                ).take(k as int),
                self.products == old(self).products,
                self.orders == old(self).orders,
                self.products_in_orders == old(self).products_in_orders,
                self.next_product_id == old(self).next_product_id,
                self.next_order_id == old(self).next_order_id,
        {
            let row = Customer {
                id: self.next_customer_id,
                name: new_customers[k].name.clone(),
                address: new_customers[k].address.clone(),
            };
            self.customers.push(row);
            self.next_customer_id = self.next_customer_id + 1;
            proof {
                let all = assigned_customers(new_customers@, old(self)@.next_customer_id);
                assert(self.customers@ =~= old(self).customers@ + all.take(k + 1));
            }
        }
        proof {
            let all = assigned_customers(new_customers@, old(self)@.next_customer_id);
            assert(all.take(n as int) =~= all);
            assert(self@ =~= old(self)@.with_customers_inserted(new_customers@));
            lemma_insert_customers_wf(old(self)@, new_customers@);
        }
        Ok(())
    }

    /// `select * from customers`.
    pub fn all_customers(&self) -> (r: Vec<Customer>)
        ensures
            r@ == self@.customers,
    {
        let mut out: Vec<Customer> = Vec::new();
        let n = self.customers.len();
        for i in 0..n
            invariant
                n == self.customers.len(),
                out@ == self.customers@.take(i as int),
        {
            out.push(self.customers[i].clone());
            proof {
                assert(out@ =~= self.customers@.take(i + 1));
            }
        }
        proof {
            assert(self.customers@.take(n as int) =~= self.customers@);
        }
        out
    }

    /// `select * from customers where id = $1`, failing when no row matches.
    pub fn customer_by_id(&self, id: i32) -> (r: Result<Customer, DbError>)
        requires
            self@.wf(),
        ensures
            r is Ok <==> self@.has_customer(id),
            r matches Ok(c) ==> exists|i: int|
                0 <= i < self@.customers.len() && (#[trigger] self@.customers[i]).id == id && c
                    == self@.customers[i],
            r matches Err(e) ==> e == DbError::NotFound,
    {
        let n = self.customers.len();
        for i in 0..n
            invariant
                n == self.customers.len(),
                forall|j: int| 0 <= j < i ==> (#[trigger] self.customers@[j]).id != id,
        {
            if self.customers[i].id == id {
                let found = self.customers[i].clone();
                proof {
                    assert((self@.customers[i as int]).id == id);
                }
                return Ok(found);
            }
        }
        Err(DbError::NotFound)
    }

    /// `update customers set name = .., address = .. where id = ..`:
    /// overwrites exactly the matching row; with no matching row it is a
    /// no-op that still reports success, as the database does.
    pub fn overwrite_customer(&mut self, updated: &Customer) -> (r: Result<(), DbError>)
        requires
            old(self)@.wf(),
        ensures
            final(self)@.wf(),
            r == Ok::<(), DbError>(()),
            final(self)@ == old(self)@.with_customer_overwritten(*updated),
    {
        let n = self.customers.len();
        for i in 0..n
            invariant
                n == self.customers.len(),
                self.customers.len() == old(self).customers.len(),
                forall|j: int|
                    0 <= j < i ==> self.customers@[j] == (if old(self).customers@[j].id
                        == updated.id {
                        *updated
                    } else {
                        old(self).customers@[j]
                    }),
                forall|j: int| i <= j < n ==> self.customers@[j] == old(self).customers@[j],
                self.products == old(self).products,
                self.orders == old(self).orders,
                self.products_in_orders == old(self).products_in_orders,
                self.next_product_id == old(self).next_product_id,
                self.next_customer_id == old(self).next_customer_id,
                self.next_order_id == old(self).next_order_id,
        {
            if self.customers[i].id == updated.id {
                self.customers.set(i, updated.clone());
            }
        }
        proof {
            assert(self@ =~= old(self)@.with_customer_overwritten(*updated));
            lemma_overwrite_customer_wf(old(self)@, *updated);
        }
        Ok(())
    }

    /// Whether some product row carries this id.
    pub fn contains_product(&self, id: i32) -> (b: bool)
        ensures
            b == self@.has_product(id),
    {
        let n = self.products.len();
        for i in 0..n
            invariant
                n == self.products.len(),
                forall|j: int| 0 <= j < i ==> (#[trigger] self.products@[j]).id != id,
        {
            if self.products[i].id == id {
                proof {
                    assert((self@.products[i as int]).id == id);
                }
                return true;
            }
        }
        false
    }

    /// Whether some customer row carries this id.
    pub fn contains_customer(&self, id: i32) -> (b: bool)
        ensures
            b == self@.has_customer(id),
    {
        let n = self.customers.len();
        for i in 0..n
            invariant
                n == self.customers.len(),
                forall|j: int| 0 <= j < i ==> (#[trigger] self.customers@[j]).id != id,
        {
            if self.customers[i].id == id {
                proof {
                    assert((self@.customers[i as int]).id == id);
                }
                return true;
            }
        }
        false
    }

    /// `insert into orders (customer_id, status, created_at) values (..)
    /// returning id`, followed by the batched insert of one join row per
    /// line item — one atomic unit: either the order row and all its join
    /// rows are inserted, or, when any check fails, nothing is.
    pub fn insert_order(&mut self, new_order: &Order, lines: &Vec<OrderLine>) -> (r: Result<
        i32,
        DbError,
    >)
        requires
            old(self)@.wf(),
        ensures
            final(self)@.wf(),
            old(self)@.order_check(*new_order, lines@) is None ==> r == Ok::<i32, DbError>(
                old(self).next_order_id,
            ) && final(self)@ == old(self)@.with_order_inserted(*new_order, lines@),
            old(self)@.order_check(*new_order, lines@) matches Some(e) ==> r == Err::<
                i32,
                DbError,
            >(e) && final(self)@ == old(self)@,
    {
        if self.next_order_id == i32::MAX {
            return Err(DbError::IdSpaceExhausted);
        }
        if !self.contains_customer(new_order.customer_id) {
            return Err(DbError::ForeignKeyViolation);
        }
        let n = lines.len();
        for k in 0..n
            invariant
                n == lines.len(),
                *self == *old(self),
                old(self)@.wf(),
                old(self)@.next_order_id < i32::MAX,
                old(self)@.has_customer(new_order.customer_id),
                self@.line_check(lines@, 0) == self@.line_check(lines@, k as int),
        {
            if !self.contains_product(lines[k].product_id) {
                proof {
                    assert(self@.line_check(lines@, k as int) == Some::<DbError>(
                        DbError::ForeignKeyViolation,
                    ));
                }
                return Err(DbError::ForeignKeyViolation);
            }
            let mut dup: bool = false;
            for j in 0..k
                invariant
                    dup == exists|l: int|
                        0 <= l < j && (#[trigger] lines@[l]).product_id == lines@[
                            k as int
                        ].product_id,
                    k < n == lines.len(),
            {
                if lines[j].product_id == lines[k].product_id {
                    proof {
                        assert((lines@[j as int]).product_id == lines@[k as int].product_id);
                    }
                    dup = true;
                }
            }
            if dup {
                proof {
                    assert(self@.line_check(lines@, k as int) == Some::<DbError>(
                        DbError::DuplicateRow,
                    ));
                }
                return Err(DbError::DuplicateRow);
            }
            proof {
                assert(self@.line_check(lines@, k as int) == self@.line_check(
                    lines@,
                    k as int + 1,
                ));
            }
        }
        proof {
            assert(self@.line_check(lines@, n as int) is None);
            assert(old(self)@.order_check(*new_order, lines@) is None);
        }
        let id = self.next_order_id;
        let row = Order {
            id,
            customer_id: new_order.customer_id,
            status: new_order.status.clone(),
            created_at: new_order.created_at,
        };
        self.orders.push(row);
        for k in 0..n
            invariant
                n == lines.len(),
                self.products_in_orders@ == old(self).products_in_orders@ + join_rows_for(
                    lines@,
                    id as int,
                ).take(k as int),
                self.products == old(self).products,
                self.customers == old(self).customers,
                self.orders@ == old(self).orders@.push(assigned_order(*new_order, id as int)),
                self.next_product_id == old(self).next_product_id,
                self.next_customer_id == old(self).next_customer_id,
                self.next_order_id == old(self).next_order_id,
                id == old(self).next_order_id,
        {
            let join_row = ProductInOrder {
                order_id: id,
                product_id: lines[k].product_id,
                quantity: lines[k].quantity,
            };
            self.products_in_orders.push(join_row);
            proof {
                let all = join_rows_for(lines@, id as int);
                assert(self.products_in_orders@ =~= old(self).products_in_orders@ + all.take(
                    k + 1,
                ));
            }
        }
        self.next_order_id = self.next_order_id + 1;
        proof {
            let all = join_rows_for(lines@, id as int);
            assert(all.take(n as int) =~= all);
            assert(self@ =~= old(self)@.with_order_inserted(*new_order, lines@));
            lemma_insert_order_wf(old(self)@, *new_order, lines@);
        }
        Ok(id)
    }

    /// Creates each order of the batch in turn, stopping at the first one
    /// the database rejects; the ones before it stay created.
    pub fn insert_orders(&mut self, reqs: &Vec<OrderWithProducts>) -> (r: Result<(), DbError>)
        requires
            old(self)@.wf(),
        ensures
            final(self)@.wf(),
            final(self)@ == old(self)@.orders_inserted(reqs@).0,
            match old(self)@.orders_inserted(reqs@).1 {
                None => r == Ok::<(), DbError>(()),
                Some(e) => r == Err::<(), DbError>(e),
            },
    {
        proof {
            assert(reqs@.skip(0) =~= reqs@);
        }
        let n = reqs.len();
        for k in 0..n
            invariant
                n == reqs.len(),
                self@.wf(),
                old(self)@.orders_inserted(reqs@) == self@.orders_inserted(reqs@.skip(k as int)),
        {
            proof {
                assert(reqs@.skip(k as int)[0] == reqs@[k as int]);
                assert(reqs@.skip(k as int).drop_first() =~= reqs@.skip(k as int + 1));
            }
            let ghost before = self@;
            let outcome = self.insert_order(&reqs[k].order, &reqs[k].lines);
            if let Err(e) = outcome {
                proof {
                    assert(before.order_check(reqs@[k as int].order, reqs@[k as int].lines@)
                        matches Some(err) && err == e);
                    assert(before.orders_inserted(reqs@.skip(k as int)) == (
                        before,
                        Some::<DbError>(e),
                    ));
                }
                return Err(e);
            }
            proof {
                assert(before.order_check(reqs@[k as int].order, reqs@[k as int].lines@) is None);
                assert(self@ == before.with_order_inserted(
                    reqs@[k as int].order,
                    reqs@[k as int].lines@,
                ));
                assert(before.orders_inserted(reqs@.skip(k as int)) == self@.orders_inserted(
                    reqs@.skip(k as int + 1),
                ));
            }
        }
        proof {
            assert(reqs@.skip(n as int).len() == 0);
        }
        Ok(())
    }

    /// `select * from orders`.
    pub fn all_orders(&self) -> (r: Vec<Order>)
        ensures
            r@ == self@.orders,
    {
        let mut out: Vec<Order> = Vec::new();
        let n = self.orders.len();
        for i in 0..n
            invariant
                n == self.orders.len(),
                out@ == self.orders@.take(i as int),
        {
            out.push(self.orders[i].clone());
            proof {
                assert(out@ =~= self.orders@.take(i + 1));
            }
        }
        proof {
            assert(self.orders@.take(n as int) =~= self.orders@);
        }
        out
    }

    /// `select * from orders where id = $1`, failing when no row matches.
    pub fn order_by_id(&self, id: i32) -> (r: Result<Order, DbError>)
        requires
            self@.wf(),
        ensures
            r is Ok <==> self@.has_order(id),
            r matches Ok(o) ==> exists|i: int|
                0 <= i < self@.orders.len() && (#[trigger] self@.orders[i]).id == id && o
                    == self@.orders[i],
            r matches Err(e) ==> e == DbError::NotFound,
    {
        let n = self.orders.len();
        for i in 0..n
            invariant
                n == self.orders.len(),
                forall|j: int| 0 <= j < i ==> (#[trigger] self.orders@[j]).id != id,
        {
            if self.orders[i].id == id {
                let found = self.orders[i].clone();
                proof {
                    assert((self@.orders[i as int]).id == id);
                }
                return Ok(found);
            }
        }
        Err(DbError::NotFound)
    }

    /// `select * from orders where customer_id = $1`.
    pub fn orders_for_customer(&self, cid: i32) -> (r: Vec<Order>)
        ensures
            r@ == orders_with_customer(self@.orders, cid),
    {
        let mut out: Vec<Order> = Vec::new();
        let n = self.orders.len();
        for i in 0..n
            invariant
                n == self.orders.len(),
                out@ == orders_with_customer(self.orders@.take(i as int), cid),
        {
            proof {
                assert(self.orders@.take(i + 1).drop_last() =~= self.orders@.take(i as int));
                assert(self.orders@.take(i + 1).last() == self.orders@[i as int]);
            }
            if self.orders[i].customer_id == cid {
                out.push(self.orders[i].clone());
            }
        }
        proof {
            assert(self.orders@.take(n as int) =~= self.orders@);
        }
        out
    }

    /// The orders table grouped by customer: one entry per customer row, in
    /// table order, carrying that customer's orders in table order.
    pub fn orders_grouped_by_customer(&self) -> (r: Vec<(Customer, Vec<Order>)>)
        ensures
            r@.len() == self@.customers.len(),
            forall|i: int|
                0 <= i < r@.len() ==> (#[trigger] r@[i]).0 == self@.customers[i] && r@[i].1@
                    == orders_with_customer(self@.orders, self@.customers[i].id),
    {
        let mut out: Vec<(Customer, Vec<Order>)> = Vec::new();
        let n = self.customers.len();
        for i in 0..n
            invariant
                n == self.customers.len(),
                out@.len() == i,
                forall|j: int|
                    0 <= j < i ==> (#[trigger] out@[j]).0 == self@.customers[j] && out@[j].1@
                        == orders_with_customer(self@.orders, self@.customers[j].id),
        {
            let customer = self.customers[i].clone();
            let orders = self.orders_for_customer(customer.id);
            out.push((customer, orders));
        }
        out
    }

    /// `update orders set customer_id = .., status = .., created_at = ..
    /// where id = ..`: overwrites exactly the matching row, a no-op for an
    /// unknown id; rejected when the overwrite would point a row at a
    /// customer that does not exist.
    pub fn overwrite_order(&mut self, updated: &Order) -> (r: Result<(), DbError>)
        requires
            old(self)@.wf(),
        ensures
            final(self)@.wf(),
            old(self)@.has_order(updated.id) && !old(self)@.has_customer(updated.customer_id)
                ==> r == Err::<(), DbError>(DbError::ForeignKeyViolation) && final(self)@ == old(self)@,
            !(old(self)@.has_order(updated.id) && !old(self)@.has_customer(updated.customer_id))
                ==> r == Ok::<(), DbError>(()) && final(self)@ == old(self)@.with_order_overwritten(*updated),
    {
        if self.contains_order(updated.id) {
            if !self.contains_customer(updated.customer_id) {
                return Err(DbError::ForeignKeyViolation);
            }
        } else {
            proof {
                assert(self@.with_order_overwritten(*updated).orders =~= self@.orders);
                assert(self@ =~= self@.with_order_overwritten(*updated));
            }
            return Ok(());
        }
        let n = self.orders.len();
        for i in 0..n
            invariant
                n == self.orders.len(),
                self.orders.len() == old(self).orders.len(),
                forall|j: int|
                    0 <= j < i ==> self.orders@[j] == (if old(self).orders@[j].id == updated.id {
                        *updated
                    } else {
                        old(self).orders@[j]
                    }),
                forall|j: int| i <= j < n ==> self.orders@[j] == old(self).orders@[j],
                self.products == old(self).products,
                self.customers == old(self).customers,
                self.products_in_orders == old(self).products_in_orders,
                self.next_product_id == old(self).next_product_id,
                self.next_customer_id == old(self).next_customer_id,
                self.next_order_id == old(self).next_order_id,
        {
            if self.orders[i].id == updated.id {
                self.orders.set(i, updated.clone());
            }
        }
        proof {
            assert(self@ =~= old(self)@.with_order_overwritten(*updated));
            lemma_overwrite_order_wf(old(self)@, *updated);
        }
        Ok(())
    }

    /// Whether some order row carries this id.
    pub fn contains_order(&self, id: i32) -> (b: bool)
        ensures
            b == self@.has_order(id),
    {
        let n = self.orders.len();
        for i in 0..n
            invariant
                n == self.orders.len(),
                forall|j: int| 0 <= j < i ==> (#[trigger] self.orders@[j]).id != id,
        {
            if self.orders[i].id == id {
                proof {
                    assert((self@.orders[i as int]).id == id);
                }
                return true;
            }
        }
        false
    }

    /// `delete from products`: the database rejects it while join rows still
    /// reference the table.
    pub fn truncate_products(&mut self) -> (r: Result<(), DbError>)
        requires
            old(self)@.wf(),
        ensures
            final(self)@.wf(),
            old(self)@.products_in_orders.len() == 0 ==> r == Ok::<(), DbError>(()) && final(self)@ == old(self)@.with_products_cleared(),
            old(self)@.products_in_orders.len() > 0 ==> r == Err::<(), DbError>(
                DbError::ForeignKeyViolation,
            ) && final(self)@ == old(self)@,
    {
        if self.products_in_orders.len() > 0 {
            return Err(DbError::ForeignKeyViolation);
        }
        self.products = Vec::new();
        proof {
            assert(self@ =~= old(self)@.with_products_cleared());
            let n = self@;
            assert forall|i: int| 0 <= i < n.orders.len() implies n.has_customer(
                (#[trigger] n.orders[i]).customer_id,
            ) by {
                lemma_has_customer_extended(old(self)@, n, old(self)@.orders[i].customer_id);
            }
            assert(n.wf());
        }
        Ok(())
    }

    /// `delete from customers`: the database rejects it while order rows
    /// still reference the table.
    pub fn truncate_customers(&mut self) -> (r: Result<(), DbError>)
        requires
            old(self)@.wf(),
        ensures
            final(self)@.wf(),
            old(self)@.orders.len() == 0 ==> r == Ok::<(), DbError>(()) && final(self)@ == old(self)@.with_customers_cleared(),
            old(self)@.orders.len() > 0 ==> r == Err::<(), DbError>(DbError::ForeignKeyViolation)
                && final(self)@ == old(self)@,
    {
        if self.orders.len() > 0 {
            return Err(DbError::ForeignKeyViolation);
        }
        self.customers = Vec::new();
        proof {
            assert(self@ =~= old(self)@.with_customers_cleared());
            let n = self@;
            assert forall|k: int| 0 <= k < n.products_in_orders.len() implies n.has_order(
                (#[trigger] n.products_in_orders[k]).order_id,
            ) && n.has_product(n.products_in_orders[k].product_id) by {
                assert(old(self)@.has_order(old(self)@.products_in_orders[k].order_id));
                let iw = choose|i: int|
                    0 <= i < old(self)@.orders.len() && (#[trigger] old(self)@.orders[i]).id == old(self)@.products_in_orders[k].order_id;
                assert(false);
            }
            assert(n.wf());
        }
        Ok(())
    }

    /// `delete from products_in_orders` then `delete from orders`, in that
    /// order so that neither delete breaks a foreign key.
    pub fn truncate_orders(&mut self) -> (r: Result<(), DbError>)
        requires
            old(self)@.wf(),
        ensures
            final(self)@.wf(),
            r == Ok::<(), DbError>(()),
            final(self)@ == old(self)@.with_orders_cleared(),
    {
        self.products_in_orders = Vec::new();
        self.orders = Vec::new();
        proof {
            assert(self@ =~= old(self)@.with_orders_cleared());
        }
        Ok(())
    }
}

} // verus!
