//! What the MensiMates service hands out.
use vstd::prelude::*;

verus! {

/// One entry of the list of canteens.
#[derive(Debug, Clone, PartialEq)]
pub struct GetMensasMensa {
    pub id: u32,
    pub name: String,
}

/// One dish.
///
/// The average rating is held twice: as the number of eighths of a star, rounded down, from which
/// the stars are drawn, and as the text that is printed beside them.
#[derive(Debug, Clone, PartialEq)]
pub struct MensiMeal {
    pub allergens: String,
    pub category: String,
    pub description: String,
    pub name: String,
    pub price: String,
    pub rating_eighths: i64,
    pub rating_text: String,
    pub votes: i64,
}

} // verus!
