//! The customer service: the per-entity statements the customer handlers
//! call.

use vstd::prelude::*;

use crate::db_actions::CustomerRepository;
use crate::models::Customer;
use crate::store::{DbError, Store};

verus! {

/// Statements against the customers table, as the controllers use them.
pub struct CustomerService;

impl CustomerService {
    /// `insert into customers (name, address) values (..)`: inserts one row;
    /// the id the caller passes is ignored.
    pub fn create_customer(store: &mut Store, new_customer: Customer) -> (r: Result<(), DbError>)
        requires
            old(store)@.wf(),
        ensures
            final(store)@.wf(),
            old(store)@.next_customer_id < i32::MAX ==> r == Ok::<(), DbError>(()) && final(store)@ == old(store)@.with_customer_inserted(new_customer),
            old(store)@.next_customer_id == i32::MAX ==> r == Err::<(), DbError>(
                DbError::IdSpaceExhausted,
            ) && final(store)@ == old(store)@,
    {
        CustomerRepository::create_customer(store, new_customer)
    }

    /// Inserts many customer rows; no row is dropped.
    pub fn create_customers(store: &mut Store, new_customers: &Vec<Customer>) -> (r: Result<
        (),
        DbError,
    >)
        requires
            old(store)@.wf(),
        ensures
            final(store)@.wf(),
            old(store)@.next_customer_id + new_customers@.len() <= i32::MAX ==> r
                == Ok::<(), DbError>(()) && final(store)@ == old(store)@.with_customers_inserted(
                new_customers@,
            ),
            old(store)@.next_customer_id + new_customers@.len() > i32::MAX ==> r
                == Err::<(), DbError>(DbError::IdSpaceExhausted) && final(store)@ == old(store)@,
    {
        store.insert_customers(new_customers)
    }

    /// `select * from customers where id = $1`, failing when no row matches.
    pub fn get_customer(store: &Store, id: i32) -> (r: Result<Customer, DbError>)
        requires
            store@.wf(),
        ensures
            r is Ok <==> store@.has_customer(id),
            r matches Ok(c) ==> exists|i: int|
                0 <= i < store@.customers.len() && (#[trigger] store@.customers[i]).id == id && c
                    == store@.customers[i],
            r matches Err(e) ==> e == DbError::NotFound,
    {
        store.customer_by_id(id)
    }

    /// `select * from customers`: the whole table, in insertion order.
    pub fn get_all_customers(store: &Store) -> (r: Result<Vec<Customer>, DbError>)
        ensures
            r is Ok,
            r matches Ok(v) ==> v@ == store@.customers,
    {
        Ok(store.all_customers())
    }

    /// `update customers set .. where id = ..`: full-row overwrite by id —
    /// exactly the matching row changes — and a silent no-op for an id that
    /// no row carries.
    pub fn update_customer(store: &mut Store, updated_customer: Customer) -> (r: Result<
        (),
        DbError,
    >)
        requires
            old(store)@.wf(),
        ensures
            final(store)@.wf(),
            r == Ok::<(), DbError>(()),
            final(store)@ == old(store)@.with_customer_overwritten(updated_customer),
    {
        store.overwrite_customer(&updated_customer)
    }

    /// Seeds the customers table with the two demo customers.
    pub fn fill_with_mocked_data(store: &mut Store) -> (r: Result<(), DbError>)
        requires
            old(store)@.wf(),
            old(store)@.next_customer_id + 2 <= i32::MAX,
        ensures
            final(store)@.wf(),
            r == Ok::<(), DbError>(()),
            final(store)@.customers.len() == old(store)@.customers.len() + 2,
            forall|i: int|
                0 <= i < old(store)@.customers.len() ==> final(store)@.customers[i] == old(store)@.customers[i],
            crate::db_actions::mock_customer_row(
                final(store)@.customers[old(store)@.customers.len() as int],
                old(store)@.next_customer_id,
                "Customer 1"@,
                "Address 1"@,
            ),
            crate::db_actions::mock_customer_row(
                final(store)@.customers[old(store)@.customers.len() as int + 1],
                old(store)@.next_customer_id + 1,
                "Customer 2"@,
                "Address 2"@,
            ),
            final(store)@.next_customer_id == old(store)@.next_customer_id + 2,
            final(store)@.products == old(store)@.products,
            final(store)@.orders == old(store)@.orders,
            final(store)@.products_in_orders == old(store)@.products_in_orders,
            final(store)@.next_product_id == old(store)@.next_product_id,
            final(store)@.next_order_id == old(store)@.next_order_id,
    {
        CustomerRepository::fill_with_mocked_data(store)
    }

    /// `delete from customers`: rejected while order rows still reference
    /// the table.
    pub fn clear(store: &mut Store) -> (r: Result<(), DbError>)
        requires
            old(store)@.wf(),
        ensures
            final(store)@.wf(),
            old(store)@.orders.len() == 0 ==> r == Ok::<(), DbError>(()) && final(store)@ == old(store)@.with_customers_cleared(),
            old(store)@.orders.len() > 0 ==> r == Err::<(), DbError>(DbError::ForeignKeyViolation)
                && final(store)@ == old(store)@,
    {
        store.truncate_customers()
    }
}

} // verus!
