//! Plain data rows of the four tables: products, customers, orders and the
//! order/product join rows.

use vstd::prelude::*;

verus! {

/// One row of the `products` table.
#[derive(Debug)]
pub struct Product {
    pub id: i32,
    pub name: String,
    pub price: i32,
    pub available: bool,
}

/// One row of the `customers` table.
#[derive(Debug)]
pub struct Customer {
    pub id: i32,
    pub name: String,
    pub address: String,
}

/// One row of the `orders` table. The creation time is kept as seconds since
/// the Unix epoch, which is all the store's logic reads of it.
#[derive(Debug)]
pub struct Order {
    pub id: i32,
    pub customer_id: i32,
    pub status: String,
    pub created_at: i64,
}

/// One row of the `products_in_orders` join table: a product's quantity
/// within an order. The pair (order_id, product_id) is the composite key.
#[derive(Debug, Clone, Copy, PartialEq, Eq, Structural)]
pub struct ProductInOrder {
    pub product_id: i32,
    pub order_id: i32,
    pub quantity: i32,
}

/// One line item of an order being created: a product and its quantity.
/// The join row's order id is assigned by the store when the order row is.
#[derive(Debug, Clone, Copy, PartialEq, Eq, Structural)]
pub struct OrderLine {
    pub product_id: i32,
    pub quantity: i32,
}

/// An order together with its line items: the unit that order creation takes.
#[derive(Debug)]
pub struct OrderWithProducts {
    pub order: Order,
    pub lines: Vec<OrderLine>,
}

impl Clone for Product {
    fn clone(&self) -> (r: Self)
        ensures
            r == *self,
    {
        Product { id: self.id, name: self.name.clone(), price: self.price, available: self.available }
    }
}

impl Clone for Customer {
    fn clone(&self) -> (r: Self)
        ensures
            r == *self,
    {
        Customer { id: self.id, name: self.name.clone(), address: self.address.clone() }
    }
}

impl Clone for Order {
    fn clone(&self) -> (r: Self)
        ensures
            r == *self,
    {
        Order {
            id: self.id,
            customer_id: self.customer_id,
            status: self.status.clone(),
            created_at: self.created_at,
        }
    }
}

impl PartialEq for Product {
    fn eq(&self, o: &Product) -> bool {
        self.id == o.id && self.name == o.name && self.price == o.price
            && self.available == o.available
    }
}

impl vstd::std_specs::cmp::PartialEqSpecImpl for Product {
    open spec fn obeys_eq_spec() -> bool {
        true
    }

    open spec fn eq_spec(&self, o: &Product) -> bool {
        self.id == o.id && self.name@ == o.name@ && self.price == o.price
            && self.available == o.available
    }
}

impl PartialEq for Customer {
    fn eq(&self, o: &Customer) -> bool {
        self.id == o.id && self.name == o.name && self.address == o.address
    }
}

impl vstd::std_specs::cmp::PartialEqSpecImpl for Customer {
    open spec fn obeys_eq_spec() -> bool {
        true
    }

    open spec fn eq_spec(&self, o: &Customer) -> bool {
        self.id == o.id && self.name@ == o.name@ && self.address@ == o.address@
    }
}

impl PartialEq for Order {
    fn eq(&self, o: &Order) -> bool {
        self.id == o.id && self.customer_id == o.customer_id && self.status == o.status
            && self.created_at == o.created_at
    }
}

impl vstd::std_specs::cmp::PartialEqSpecImpl for Order {
    open spec fn obeys_eq_spec() -> bool {
        true
    }

    open spec fn eq_spec(&self, o: &Order) -> bool {
        self.id == o.id && self.customer_id == o.customer_id && self.status@ == o.status@
            && self.created_at == o.created_at
    }
}

} // verus!
