//! The product service: the per-entity statements the product handlers call.

use vstd::prelude::*;

use crate::db_actions::ProductRepository;
use crate::models::Product;
use crate::store::{DbError, Store};

verus! {

/// Statements against the products table, as the controllers use them.
pub struct ProductService;

impl ProductService {
    /// `insert into products (name, price, available) values (..) returning
    /// id`: inserts one row and hands back the id the serial column assigned.
    pub fn create_product(store: &mut Store, new_product: Product) -> (r: Result<i32, DbError>)
        requires
            old(store)@.wf(),
        ensures
            final(store)@.wf(),
            old(store)@.next_product_id < i32::MAX ==> r == Ok::<i32, DbError>(
                old(store).next_product_id,
            ) && final(store)@ == old(store)@.with_product_inserted(new_product),
            old(store)@.next_product_id == i32::MAX ==> r == Err::<i32, DbError>(
                DbError::IdSpaceExhausted,
            ) && final(store)@ == old(store)@,
    {
        store.insert_product(new_product)
    }

    /// `update products set .. where id = ..`: full-row overwrite by id —
    /// exactly the matching row changes — and a silent no-op for an id that
    /// no row carries.
    pub fn update_product(store: &mut Store, updated_product: Product) -> (r: Result<(), DbError>)
        requires
            old(store)@.wf(),
        ensures
            final(store)@.wf(),
            r == Ok::<(), DbError>(()),
            final(store)@ == old(store)@.with_product_overwritten(updated_product),
    {
        store.overwrite_product(&updated_product)
    }

    /// Inserts many product rows; the batched statements that carry them are
    /// planned by `crate::batch`, and no row is dropped.
    pub fn create_products(store: &mut Store, new_products: &Vec<Product>) -> (r: Result<
        (),
        DbError,
    >)
        requires
            old(store)@.wf(),
        ensures
            final(store)@.wf(),
            old(store)@.next_product_id + new_products@.len() <= i32::MAX ==> r
                == Ok::<(), DbError>(()) && final(store)@ == old(store)@.with_products_inserted(
                new_products@,
            ),
            old(store)@.next_product_id + new_products@.len() > i32::MAX ==> r
                == Err::<(), DbError>(DbError::IdSpaceExhausted) && final(store)@ == old(store)@,
    {
        store.insert_products(new_products)
    }

    /// `select * from products where id = $1`, failing when no row matches.
    pub fn get_product(store: &Store, id: i32) -> (r: Result<Product, DbError>)
        requires
            store@.wf(),
        ensures
            r is Ok <==> store@.has_product(id),
            r matches Ok(p) ==> exists|i: int|
                0 <= i < store@.products.len() && (#[trigger] store@.products[i]).id == id && p
                    == store@.products[i],
            r matches Err(e) ==> e == DbError::NotFound,
    {
        store.product_by_id(id)
    }

    /// `select * from products`: the whole table, in insertion order.
    pub fn get_all_products(store: &Store) -> (r: Result<Vec<Product>, DbError>)
        ensures
            r is Ok,
            r matches Ok(v) ==> v@ == store@.products,
    {
        Ok(store.all_products())
    }

    /// Seeds the products table with the two demo products.
    pub fn fill_with_mocked_data(store: &mut Store) -> (r: Result<(), DbError>)
        requires
            old(store)@.wf(),
            old(store)@.next_product_id + 2 <= i32::MAX,
        ensures
            final(store)@.wf(),
            r == Ok::<(), DbError>(()),
            final(store)@.products.len() == old(store)@.products.len() + 2,
            forall|i: int|
                0 <= i < old(store)@.products.len() ==> final(store)@.products[i] == old(store)@.products[i],
            crate::db_actions::mock_product_row(
                final(store)@.products[old(store)@.products.len() as int],
                old(store)@.next_product_id,
                "Product 1"@,
                1,
            ),
            crate::db_actions::mock_product_row(
                final(store)@.products[old(store)@.products.len() as int + 1],
                old(store)@.next_product_id + 1,
                "Product 2"@,
                2,
            ),
            final(store)@.next_product_id == old(store)@.next_product_id + 2,
            final(store)@.customers == old(store)@.customers,
            final(store)@.orders == old(store)@.orders,
            final(store)@.products_in_orders == old(store)@.products_in_orders,
            final(store)@.next_customer_id == old(store)@.next_customer_id,
            final(store)@.next_order_id == old(store)@.next_order_id,
    {
        ProductRepository::fill_with_mocked_data(store)
    }

    /// `delete from products`: rejected while join rows still reference the
    /// table.
    pub fn clear(store: &mut Store) -> (r: Result<(), DbError>)
        requires
            old(store)@.wf(),
        ensures
            final(store)@.wf(),
            old(store)@.products_in_orders.len() == 0 ==> r == Ok::<(), DbError>(()) && final(store)@ == old(store)@.with_products_cleared(),
            old(store)@.products_in_orders.len() > 0 ==> r == Err::<(), DbError>(
                DbError::ForeignKeyViolation,
            ) && final(store)@ == old(store)@,
    {
        store.truncate_products()
    }
}

} // verus!
