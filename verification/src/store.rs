//! How guilds and categories are written in the rule store.

use crate::words::Category;
use vstd::prelude::*;

verus! {

/// The key of a guild in the store: the guild's identifier, read as a signed
/// number of the same sixty-four bits.
pub open spec fn key_of(id: u64) -> int {
    if id < 0x8000_0000_0000_0000 {
        id as int
    } else {
        id - 0x1_0000_0000_0000_0000
    }
}

/// The key under which the store holds what belongs to a guild.
pub fn encode(id: u64) -> (key: i64)
    ensures
        key == key_of(id),
{
    if id < 0x8000_0000_0000_0000 {
        id as i64
    } else {
        let low: u64 = id - 0x8000_0000_0000_0000;
        low as i64 + i64::MIN
    }
}

/// Two guilds never share a key.
pub proof fn keys_are_distinct(a: u64, b: u64)
    ensures
        key_of(a) == key_of(b) ==> a == b,
{
}

/// The number that stands for a category in the store.
pub open spec fn code_of(category: Category) -> i16 {
    match category {
        Category::Swear => 0,
        Category::Trigger => 1,
    }
}

/// The number that stands for a category in the store.
pub fn category_code(category: Category) -> (code: i16)
    ensures
        code == code_of(category),
{
    match category {
        Category::Swear => 0,
        Category::Trigger => 1,
    }
}

/// The category that a number of the store stands for, if it stands for one.
pub fn category_of(code: i16) -> (category: Option<Category>)
    ensures
        category == if code == 0 {
            Some(Category::Swear)
        } else if code == 1 {
            Some(Category::Trigger)
        } else {
            None
        },
{
    if code == 0 {
        Some(Category::Swear)
    } else if code == 1 {
        Some(Category::Trigger)
    } else {
        None
    }
}

/// A category is read back from the store as it was written.
pub proof fn category_is_read_back(category: Category)
    ensures
        code_of(category) == 0 <==> category == Category::Swear,
        code_of(category) == 1 <==> category == Category::Trigger,
{
}

} // verus!
