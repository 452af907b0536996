//! The data a new database starts with.
use vstd::prelude::*;
use vstd::string::*;

use crate::auth::{hash_password, password_hash_text};
use crate::model::RestaurantInfo;
use crate::text::{join2, lemma_nat_text_injective, nat_text, nat_to_text, opt_text};

verus! {

/// A start-up inserts each part of the defaults only into an empty table
/// (for the account: when no `admin` user exists); `row_count` is the count
/// of what is already there.
pub fn needs_seeding(row_count: i64) -> (r: bool)
    ensures
        r == (row_count == 0),
{
    row_count == 0
}

/// The rows a table holds after a start-up that inserts `inserted` default
/// rows into it when it holds `count` rows: only an empty table is filled.
pub open spec fn rows_after_seeding(count: int, inserted: nat) -> int {
    if count == 0 {
        inserted as int
    } else {
        count
    }
}

/// Starting up twice seeds once: every default part has at least one row
/// (one account, one restaurant row, four categories, twelve tables), so
/// after a first start-up no seeded table is empty, a second start-up seeds
/// none of them, and the row counts stay as they were. Existing rows are
/// never touched, since only empty tables are filled.
pub proof fn lemma_seeding_twice_changes_nothing(count: int, inserted: nat)
    requires
        count >= 0,
        inserted >= 1,
    ensures
        rows_after_seeding(count, inserted) != 0,
        rows_after_seeding(rows_after_seeding(count, inserted), inserted) == rows_after_seeding(count, inserted),
        count != 0 ==> rows_after_seeding(count, inserted) == count,
{
}

/// The account a new database has.
pub struct DefaultAccount {
    pub username: String,
    pub password_hash: String,
}

/// The administrator account `admin` with password `admin123`.
pub fn default_account() -> (a: DefaultAccount)
    ensures
        a.username@ == "admin"@,
        a.password_hash@ == password_hash_text("admin123"@),
{
    DefaultAccount { username: String::from_str("admin"), password_hash: hash_password("admin123") }
}

/// The restaurant details a new database has.
pub fn default_restaurant_info() -> (r: RestaurantInfo)
    ensures
        r.name@ == "MealDesk Bistro"@,
        opt_text(r.logo) == Some(""@),
        opt_text(r.gstin) == Some("27AAAAA1111A1Z1"@),
        opt_text(r.address) == Some("123 Foodie Street, Gourmet City"@),
        opt_text(r.phone) == Some("+1234567890"@),
        opt_text(r.email) == Some("info@mealdesk.com"@),
        opt_text(r.receipt_footer) == Some("Thank you for dining with us!"@),
{
    RestaurantInfo {
        name: String::from_str("MealDesk Bistro"),
        logo: Some(String::from_str("")),
        gstin: Some(String::from_str("27AAAAA1111A1Z1")),
        address: Some(String::from_str("123 Foodie Street, Gourmet City")),
        phone: Some(String::from_str("+1234567890")),
        email: Some(String::from_str("info@mealdesk.com")),
        receipt_footer: Some(String::from_str("Thank you for dining with us!")),
    }
}

/// A category a new database has: its name and description.
pub struct CategorySeed {
    pub name: String,
    pub description: String,
}

fn category_seed(name: &str, description: &str) -> (c: CategorySeed)
    ensures
        c.name@ == name@,
        c.description@ == description@,
{
    CategorySeed { name: String::from_str(name), description: String::from_str(description) }
}

/// The categories a new database has, in insertion order (their ids 1 to 4).
pub fn default_categories() -> (v: Vec<CategorySeed>)
    ensures
        v@.len() == 4,
        v@[0].name@ == "Beverages"@ && v@[0].description@ == "Cold & hot drinks"@,
        v@[1].name@ == "Starters"@ && v@[1].description@ == "Appetizers and quick bites"@,
        v@[2].name@ == "Main Course"@ && v@[2].description@ == "Delicious main dishes"@,
        v@[3].name@ == "Desserts"@ && v@[3].description@ == "Sweet treats"@,
{
    let mut v = Vec::new();
    v.push(category_seed("Beverages", "Cold & hot drinks"));
    v.push(category_seed("Starters", "Appetizers and quick bites"));
    v.push(category_seed("Main Course", "Delicious main dishes"));
    v.push(category_seed("Desserts", "Sweet treats"));
    v
}

/// How many tables a new database has.
pub const DEFAULT_TABLE_COUNT: u64 = 12;

/// The name of the `n`-th default table.
pub open spec fn table_name_text(n: nat) -> Seq<char> {
    "Table "@ + nat_text(n)
}

/// The tables a new database has: "Table 1" to "Table 12", in order.
pub fn default_table_names() -> (v: Vec<String>)
    ensures
        v@.len() == DEFAULT_TABLE_COUNT,
        forall|k: int| 0 <= k < v@.len() ==> (#[trigger] v@[k])@ == table_name_text((k + 1) as nat),
{
    let mut v: Vec<String> = Vec::new();
    let mut i: u64 = 1;
    while i <= DEFAULT_TABLE_COUNT
        invariant
            1 <= i <= DEFAULT_TABLE_COUNT + 1,
            v@.len() == i - 1,
            forall|k: int| 0 <= k < v@.len() ==> (#[trigger] v@[k])@ == table_name_text((k + 1) as nat),
        decreases DEFAULT_TABLE_COUNT + 1 - i,
    {
        let digits = nat_to_text(i);
        v.push(join2("Table ", digits.as_str()));
        i = i + 1;
    }
    v
}

/// Default table names are distinct, as the schema's unique table names need.
pub proof fn lemma_table_names_distinct(a: nat, b: nat)
    requires
        a != b,
    ensures
        table_name_text(a) != table_name_text(b),
{
    if table_name_text(a) == table_name_text(b) {
        reveal_strlit("Table ");
        let p = "Table "@;
        assert(nat_text(a) =~= table_name_text(a).subrange(p.len() as int, table_name_text(a).len() as int));
        assert(nat_text(b) =~= table_name_text(b).subrange(p.len() as int, table_name_text(b).len() as int));
        lemma_nat_text_injective(a, b);
    }
}

} // verus!
