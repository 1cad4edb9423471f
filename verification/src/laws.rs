//! The store's laws: what holds across several operations, stated over
//! [`StoreModel`] and proved once for every store and every input. The
//! matching law for batched statements — no row of a multi-statement insert
//! is dropped — is [`crate::batch::lemma_chunks_cover`].

use vstd::prelude::*;

use crate::models::{Order, OrderLine, Product, ProductInOrder};
use crate::store::{
    assigned_product, join_rows_for, join_rows_of_order, lemma_insert_product_wf, StoreModel,
};

verus! {

/// Creating a product and then fetching it by the assigned id returns a
/// record carrying exactly the request's fields, under an id that no row
/// carried before the insert.
pub proof fn lemma_create_then_get_product(m: StoreModel, p: Product)
    requires
        m.wf(),
        m.next_product_id < i32::MAX,
    ensures
        ({
            let n = m.with_product_inserted(p);
            let id = m.next_product_id as i32;
            &&& !m.has_product(id)
            &&& n.has_product(id)
            &&& n.products.last().id == id
            &&& n.products.last().name == p.name
            &&& n.products.last().price == p.price
            &&& n.products.last().available == p.available
            &&& forall|i: int|
                0 <= i < n.products.len() && (#[trigger] n.products[i]).id == id ==> n.products[i]
                    == n.products.last()
        }),
{
    let n = m.with_product_inserted(p);
    let id = m.next_product_id as i32;
    assert(!m.has_product(id)) by {
        if m.has_product(id) {
            let iw = choose|i: int|
                0 <= i < m.products.len() && (#[trigger] m.products[i]).id == id;
            assert(m.products[iw].id < m.next_product_id);
        }
    }
    assert(n.products.last() == assigned_product(p, m.next_product_id));
    assert(n.has_product(id)) by {
        assert(n.products[n.products.len() - 1].id == id);
    }
    lemma_insert_product_wf(m, p);
    assert forall|i: int|
        0 <= i < n.products.len() && (#[trigger] n.products[i]).id == id implies n.products[i]
        == n.products.last() by {
        if i < n.products.len() - 1 {
            assert(n.products[i].id != n.products[n.products.len() - 1].id);
        }
    }
}

/// After a multi-row insert of `ps`, the full fetch returns at least
/// `ps.len()` rows and contains every created record, in order, under
/// consecutive fresh ids: no row of the batch is silently dropped.
pub proof fn lemma_create_products_then_get_all(m: StoreModel, ps: Seq<Product>)
    requires
        m.wf(),
        m.next_product_id + ps.len() <= i32::MAX,
    ensures
        ({
            let n = m.with_products_inserted(ps);
            &&& n.products.len() == m.products.len() + ps.len()
            &&& n.products.len() >= ps.len()
            &&& forall|k: int|
                0 <= k < ps.len() ==> #[trigger] n.products[m.products.len() + k]
                    == assigned_product(ps[k], m.next_product_id + k)
            &&& forall|i: int| 0 <= i < m.products.len() ==> #[trigger] n.products[i]
                == m.products[i]
        }),
{
}

/// A full-row update by id changes exactly the row carrying that id and no
/// other row and no other table; on an id that no row carries it changes
/// nothing and creates nothing.
pub proof fn lemma_update_product_exact(m: StoreModel, p: Product)
    requires
        m.wf(),
    ensures
        ({
            let n = m.with_product_overwritten(p);
            &&& n.products.len() == m.products.len()
            &&& forall|i: int|
                0 <= i < m.products.len() && (#[trigger] m.products[i]).id == p.id
                    ==> n.products[i] == p
            &&& forall|i: int|
                0 <= i < m.products.len() && (#[trigger] m.products[i]).id != p.id
                    ==> n.products[i] == m.products[i]
            &&& n.customers == m.customers
            &&& n.orders == m.orders
            &&& n.products_in_orders == m.products_in_orders
            &&& n.next_product_id == m.next_product_id
            &&& (!m.has_product(p.id) ==> n == m)
        }),
{
    let n = m.with_product_overwritten(p);
    if !m.has_product(p.id) {
        assert forall|i: int| 0 <= i < m.products.len() implies (#[trigger] m.products[i]).id
            != p.id by {}
        assert(n.products =~= m.products);
        assert(n =~= m);
    }
}

/// The join rows of an order id split over a concatenation.
proof fn lemma_join_rows_of_order_concat(a: Seq<ProductInOrder>, b: Seq<ProductInOrder>, oid: i32)
    ensures
        join_rows_of_order(a + b, oid) == join_rows_of_order(a, oid) + join_rows_of_order(b, oid),
    decreases b.len(),
{
    if b.len() == 0 {
        assert(a + b =~= a);
        assert(join_rows_of_order(b, oid) =~= Seq::empty());
        assert(join_rows_of_order(a, oid) + join_rows_of_order(b, oid) =~= join_rows_of_order(
            a,
            oid,
        ));
    } else {
        lemma_join_rows_of_order_concat(a, b.drop_last(), oid);
        assert((a + b).drop_last() =~= a + b.drop_last());
        assert((a + b).last() == b.last());
    }
}

/// A table none of whose rows carries the order id yields no join row of it.
proof fn lemma_join_rows_of_order_none(a: Seq<ProductInOrder>, oid: i32)
    requires
        forall|k: int| 0 <= k < a.len() ==> (#[trigger] a[k]).order_id != oid,
    ensures
        join_rows_of_order(a, oid).len() == 0,
    decreases a.len(),
{
    if a.len() > 0 {
        lemma_join_rows_of_order_none(a.drop_last(), oid);
    }
}

/// A table all of whose rows carry the order id yields them all, unchanged.
proof fn lemma_join_rows_of_order_all(a: Seq<ProductInOrder>, oid: i32)
    requires
        forall|k: int| 0 <= k < a.len() ==> (#[trigger] a[k]).order_id == oid,
    ensures
        join_rows_of_order(a, oid) == a,
    decreases a.len(),
{
    if a.len() == 0 {
        assert(join_rows_of_order(a, oid) =~= a);
    } else {
        lemma_join_rows_of_order_all(a.drop_last(), oid);
        assert(join_rows_of_order(a, oid) =~= a.drop_last().push(a.last()));
        assert(a.drop_last().push(a.last()) =~= a);
    }
}

/// Creating an order with `lines.len()` line items leaves exactly that many
/// join rows referencing the assigned order id — they are the lines'
/// rows, in order — and no join row referenced that id before the insert.
/// When any check fails, order creation writes nothing at all: that is the
/// unchanged-store half of `Store::insert_order`'s contract.
pub proof fn lemma_create_order_join_rows(m: StoreModel, o: Order, lines: Seq<OrderLine>)
    requires
        m.wf(),
    ensures
        join_rows_of_order(m.products_in_orders, m.next_order_id as i32).len() == 0,
        m.order_check(o, lines) is None ==> ({
            let n = m.with_order_inserted(o, lines);
            let id = m.next_order_id as i32;
            &&& join_rows_of_order(n.products_in_orders, id) == join_rows_for(
                lines,
                m.next_order_id,
            )
            &&& join_rows_of_order(n.products_in_orders, id).len() == lines.len()
        }),
{
    let id = m.next_order_id as i32;
    assert forall|k: int| 0 <= k < m.products_in_orders.len() implies (
    #[trigger] m.products_in_orders[k]).order_id != id by {
        let oid = m.products_in_orders[k].order_id;
        let iw = choose|i: int| 0 <= i < m.orders.len() && (#[trigger] m.orders[i]).id == oid;
        assert(1 <= m.orders[iw].id < m.next_order_id);
    }
    lemma_join_rows_of_order_none(m.products_in_orders, id);
    if m.order_check(o, lines) is None {
        let n = m.with_order_inserted(o, lines);
        let fresh = join_rows_for(lines, m.next_order_id);
        lemma_join_rows_of_order_concat(m.products_in_orders, fresh, id);
        assert forall|k: int| 0 <= k < fresh.len() implies (#[trigger] fresh[k]).order_id
            == id by {}
        lemma_join_rows_of_order_all(fresh, id);
        assert(join_rows_of_order(n.products_in_orders, id) =~= fresh);
    }
}

/// After the full truncation — orders and join rows, then customers, then
/// products — every full fetch returns an empty collection.
pub proof fn lemma_clear_then_get_all(m: StoreModel)
    ensures
        ({
            let n = m.with_orders_cleared().with_customers_cleared().with_products_cleared();
            &&& n.products.len() == 0
            &&& n.customers.len() == 0
            &&& n.orders.len() == 0
            &&& n.products_in_orders.len() == 0
            &&& n.next_product_id == m.next_product_id
            &&& n.next_customer_id == m.next_customer_id
            &&& n.next_order_id == m.next_order_id
        }),
{
}

} // verus!
