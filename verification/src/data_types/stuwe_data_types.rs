//! What the meal plan service of the Studentenwerk hands out.
use vstd::prelude::*;

verus! {

/// The meals of one kind ("Vegetarisch", "Grill", ...) on one day.
#[derive(Debug, Clone, PartialEq)]
pub struct MealGroup {
    pub meal_type: String,
    pub sub_meals: Vec<SingleMeal>,
}

/// The whole plan of one canteen on one day.
#[derive(Debug, Clone, PartialEq)]
pub struct CanteenMealsDay {
    pub canteen_id: u32,
    pub meal_groups: Vec<MealGroup>,
}

/// What changed in the plan of one canteen.
#[derive(Debug, Clone, PartialEq)]
pub struct CanteenMealDiff {
    pub canteen_id: u32,
    pub new_meals: Option<Vec<MealGroup>>,
    pub modified_meals: Option<Vec<MealGroup>>,
    pub removed_meals: Option<Vec<MealGroup>>,
}

/// One dish.
#[derive(Debug, Clone, PartialEq)]
pub struct SingleMeal {
    pub name: String,
    pub additional_ingredients: Vec<String>,
    pub allergens: Option<String>,
    pub variations: Option<Vec<MealVariation>>,
    pub price: String,
}

/// One way in which a dish is served.
#[derive(Debug, Clone, PartialEq)]
pub struct MealVariation {
    pub name: String,
    pub allergens_and_add: Option<String>,
}

} // verus!
