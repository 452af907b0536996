//! Menu categories, products and customers: the guards on deletion and how an
//! upsert chooses between update and insert.
use vstd::prelude::*;

use crate::text::{int_text, int_to_text, join3};

verus! {

/// The guard on deleting a category: it must have no products.
pub fn check_category_deletion(product_count: i64) -> (r: Result<(), String>)
    ensures
        r is Ok <==> product_count <= 0,
        r matches Err(m) ==> m@ == "Cannot delete category: "@ + int_text(product_count as int)
            + " product(s) still belong to it. Delete or reassign products first."@,
{
    if product_count > 0 {
        let c = int_to_text(product_count);
        Err(join3("Cannot delete category: ", c.as_str(), " product(s) still belong to it. Delete or reassign products first."))
    } else {
        Ok(())
    }
}

/// The guard on deleting a product: it must never have been ordered.
pub fn check_product_deletion(order_count: i64) -> (r: Result<(), String>)
    ensures
        r is Ok <==> order_count <= 0,
        r matches Err(m) ==> m@ == "Cannot delete product: it has been used in "@ + int_text(order_count as int)
            + " order(s). Mark it as unavailable instead."@,
{
    if order_count > 0 {
        let c = int_to_text(order_count);
        Err(join3("Cannot delete product: it has been used in ", c.as_str(), " order(s). Mark it as unavailable instead."))
    } else {
        Ok(())
    }
}

/// How a product upsert writes: `available` is the stored flag, 1 or 0.
#[derive(Clone, Copy, Debug, PartialEq, Eq, Structural)]
pub enum ProductWrite {
    Update { id: i64, available: i64 },
    Insert { available: i64 },
}

pub fn product_write(id: Option<i64>, is_available: bool) -> (w: ProductWrite)
    ensures
        w == (match id {
            Some(i) => ProductWrite::Update { id: i, available: if is_available { 1 } else { 0 } },
            None => ProductWrite::Insert { available: if is_available { 1 } else { 0 } },
        }),
{
    let available: i64 = if is_available { 1 } else { 0 };
    match id {
        Some(i) => ProductWrite::Update { id: i, available },
        None => ProductWrite::Insert { available },
    }
}

/// How a customer upsert writes: an update keeps the loyalty points unless
/// new points are given; a new customer starts with the given points or none.
#[derive(Clone, Copy, Debug, PartialEq, Eq, Structural)]
pub enum CustomerWrite {
    UpdateWithPoints { id: i64, points: i64 },
    UpdateKeepingPoints { id: i64 },
    Insert { points: i64 },
}

pub fn customer_write(id: Option<i64>, loyalty_points: Option<i64>) -> (w: CustomerWrite)
    ensures
        w == (match (id, loyalty_points) {
            (Some(i), Some(p)) => CustomerWrite::UpdateWithPoints { id: i, points: p },
            (Some(i), None) => CustomerWrite::UpdateKeepingPoints { id: i },
            (None, Some(p)) => CustomerWrite::Insert { points: p },
            (None, None) => CustomerWrite::Insert { points: 0 },
        }),
{
    match id {
        Some(i) => match loyalty_points {
            Some(p) => CustomerWrite::UpdateWithPoints { id: i, points: p },
            None => CustomerWrite::UpdateKeepingPoints { id: i },
        },
        None => match loyalty_points {
            Some(p) => CustomerWrite::Insert { points: p },
            None => CustomerWrite::Insert { points: 0 },
        },
    }
}

} // verus!
