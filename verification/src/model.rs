//! The records that the commands hand to the user interface.
use vstd::prelude::*;

verus! {

/// `std::path::PathBuf`, carried through as an opaque value.
#[verifier::external_type_specification]
#[verifier::external_body]
pub struct ExPathBuf(std::path::PathBuf);

/// Where the database file lives.
pub struct DbPathState {
    pub path: std::path::PathBuf,
}

/// The signed-in user.
pub struct UserInfo {
    pub username: String,
}

/// The restaurant's header and receipt details.
pub struct RestaurantInfo {
    pub name: String,
    pub logo: Option<String>,
    pub gstin: Option<String>,
    pub address: Option<String>,
    pub phone: Option<String>,
    pub email: Option<String>,
    pub receipt_footer: Option<String>,
}

/// A menu category.
pub struct Category {
    pub id: i64,
    pub name: String,
    pub description: Option<String>,
}

/// One line of a kitchen order ticket; a negative quantity takes items back.
pub struct KotItemOutput {
    pub id: i64,
    pub product_id: i64,
    pub product_name: String,
    pub quantity: i64,
    pub notes: Option<String>,
}

/// A kitchen order ticket with its lines.
pub struct KotOutput {
    pub id: i64,
    pub order_id: i64,
    pub table_name: Option<String>,
    pub status: String,
    pub print_count: i32,
    pub created_at: String,
    pub items: Vec<KotItemOutput>,
}

/// A customer profile.
pub struct CustomerDetails {
    pub id: i64,
    pub name: String,
    pub phone: String,
    pub email: Option<String>,
    pub loyalty_points: i64,
}

} // verus!
