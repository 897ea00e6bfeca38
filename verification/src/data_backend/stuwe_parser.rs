//! Plans from the service of the Studentenwerk.
use crate::calendar::{CalendarDate, RequestedDay};
use crate::chance::random_below;
use crate::data_backend::{
    build_date_string, emoji_text, head_text, iso_date, line, line_text, plan_head, EMOJI_COUNT,
};
use crate::data_types::mm_data_types::GetMensasMensa;
use crate::data_types::stuwe_data_types::{MealGroup, MealVariation, SingleMeal};
use crate::markdown::{
    bold, bold_text, escape_markdown_v2, italic, italic_text, sendable, underline, underline_text,
};
use crate::text::{dec, decimal, owned, same_text};
use std::collections::BTreeMap;
use vstd::prelude::*;
use vstd::string::StringExecFns;

verus! {

/// The lines of the first `n` ingredients.
pub open spec fn ingredients_text(ingredients: Seq<String>, n: int) -> Seq<char>
    decreases n,
{
    if n <= 0 {
        Seq::empty()
    } else {
        ingredients_text(ingredients, n - 1) + line_text(
            "     + "@,
            italic_text(ingredients[n - 1]@),
        )
    }
}

fn ingredients_lines(ingredients: &Vec<String>) -> (r: String)
    ensures
        r@ == ingredients_text(ingredients@, ingredients@.len() as int),
{
    let mut r = String::new();
    let mut i: usize = 0;
    while i < ingredients.len()
        invariant
            i <= ingredients@.len(),
            r@ == ingredients_text(ingredients@, i as int),
        decreases ingredients.len() - i,
    {
        r.append(line("     + ", italic(ingredients[i].as_str()).as_str()).as_str());
        i += 1;
    }
    r
}

/// A line for a text that may be missing.
pub open spec fn optional_line(prefix: Seq<char>, text: Option<String>) -> Seq<char> {
    match text {
        Some(t) => line_text(prefix, t@),
        None => Seq::empty(),
    }
}

fn optional(prefix: &str, text: &Option<String>) -> (r: String)
    ensures
        r@ == optional_line(prefix@, *text),
{
    match text {
        Some(t) => line(prefix, t.as_str()),
        None => String::new(),
    }
}

/// The lines of the first `n` variations.
pub open spec fn variations_text(variations: Seq<MealVariation>, n: int) -> Seq<char>
    decreases n,
{
    if n <= 0 {
        Seq::empty()
    } else {
        variations_text(variations, n - 1) + line_text(
            "       • "@,
            italic_text(variations[n - 1].name@),
        ) + optional_line("         ℹ️ "@, variations[n - 1].allergens_and_add)
    }
}

/// The variations of a dish under their heading.
pub open spec fn variation_block(variations: Option<Vec<MealVariation>>) -> Seq<char> {
    match variations {
        Some(v) => line_text("   → "@, bold_text("Variationen:"@)) + variations_text(
            v@,
            v@.len() as int,
        ),
        None => Seq::empty(),
    }
}

fn variation_lines(variations: &Option<Vec<MealVariation>>) -> (r: String)
    ensures
        r@ == variation_block(*variations),
{
    match variations {
        None => String::new(),
        Some(v) => {
            let mut r = line("   → ", bold("Variationen:").as_str());
            let mut lines = String::new();
            let mut i: usize = 0;
            while i < v.len()
                invariant
                    i <= v@.len(),
                    lines@ == variations_text(v@, i as int),
                decreases v.len() - i,
            {
                lines.append(line("       • ", italic(v[i].name.as_str()).as_str()).as_str());
                lines.append(optional("         ℹ️ ", &v[i].allergens_and_add).as_str());
                i += 1;
            }
            r.append(lines.as_str());
            r
        },
    }
}

/// The line of a price, where one is to be shown.
pub open spec fn price_line(shown: bool, prefix: Seq<char>, price: Seq<char>) -> Seq<char> {
    if shown {
        line_text(prefix, price)
    } else {
        Seq::empty()
    }
}

/// The line of a price, where one is to be shown.
pub fn price_text(shown: bool, prefix: &str, price: &str) -> (r: String)
    ensures
        r@ == price_line(shown, prefix@, price@),
{
    if shown {
        line(prefix, price)
    } else {
        String::new()
    }
}

/// The lines of one dish. Its price is among them unless all dishes of the group share one.
pub open spec fn meal_text(meal: SingleMeal, price_is_shared: bool) -> Seq<char> {
    line_text(" • "@, underline_text(meal.name@)) + ingredients_text(
        meal.additional_ingredients@,
        meal.additional_ingredients@.len() as int,
    ) + optional_line("    ℹ️ "@, meal.allergens) + price_line(
        !price_is_shared,
        "   "@,
        meal.price@,
    ) + variation_block(meal.variations)
}

fn meal_lines(meal: &SingleMeal, price_is_shared: bool) -> (r: String)
    ensures
        r@ == meal_text(*meal, price_is_shared),
{
    let mut r = line(" • ", underline(meal.name.as_str()).as_str());
    r.append(ingredients_lines(&meal.additional_ingredients).as_str());
    r.append(optional("    ℹ️ ", &meal.allergens).as_str());
    r.append(price_text(!price_is_shared, "   ", meal.price.as_str()).as_str());
    r.append(variation_lines(&meal.variations).as_str());
    r
}

/// The lines of the first `n` dishes.
pub open spec fn meals_text(meals: Seq<SingleMeal>, n: int, price_is_shared: bool) -> Seq<char>
    decreases n,
{
    if n <= 0 {
        Seq::empty()
    } else {
        meals_text(meals, n - 1, price_is_shared) + meal_text(meals[n - 1], price_is_shared)
    }
}

/// Whether all dishes cost what the first one costs.
pub open spec fn one_price(meals: Seq<SingleMeal>) -> bool {
    forall|i: int| 0 <= i < meals.len() ==> #[trigger] meals[i].price@ == meals[0].price@
}

/// The lines of one group: its name, its dishes, and the price if they share it.
pub open spec fn group_text(group: MealGroup) -> Seq<char> {
    let meals = group.sub_meals@;
    line_text("\n"@, bold_text(group.meal_type@)) + meals_text(
        meals,
        meals.len() as int,
        one_price(meals),
    ) + price_line(one_price(meals), "  "@, meals[0].price@)
}

fn price_is_shared(meals: &Vec<SingleMeal>) -> (r: bool)
    requires
        meals@.len() > 0,
    ensures
        r == one_price(meals@),
{
    let mut i: usize = 0;
    while i < meals.len()
        invariant
            i <= meals@.len(),
            meals@.len() > 0,
            forall|k: int| 0 <= k < i ==> #[trigger] meals@[k].price@ == meals@[0].price@,
        decreases meals.len() - i,
    {
        if !same_text(meals[i].price.as_str(), meals[0].price.as_str()) {
            return false;
        }
        i += 1;
    }
    true
}

fn group_lines(group: &MealGroup) -> (r: String)
    requires
        group.sub_meals@.len() > 0,
    ensures
        r@ == group_text(*group),
{
    let shared = price_is_shared(&group.sub_meals);
    let mut r = line("\n", bold(group.meal_type.as_str()).as_str());
    let mut lines = String::new();
    let mut i: usize = 0;
    while i < group.sub_meals.len()
        invariant
            i <= group.sub_meals@.len(),
            lines@ == meals_text(group.sub_meals@, i as int, shared),
        decreases group.sub_meals.len() - i,
    {
        lines.append(meal_lines(&group.sub_meals[i], shared).as_str());
        i += 1;
    }
    r.append(lines.as_str());
    r.append(price_text(shared, "  ", group.sub_meals[0].price.as_str()).as_str());
    r
}

/// The lines of the first `n` groups.
pub open spec fn groups_text(groups: Seq<MealGroup>, n: int) -> Seq<char>
    decreases n,
{
    if n <= 0 {
        Seq::empty()
    } else {
        groups_text(groups, n - 1) + group_text(groups[n - 1])
    }
}

/// The plan itself.
pub open spec fn plan_text(groups: Seq<MealGroup>) -> Seq<char> {
    if groups.len() == 0 {
        bold_text("\nkeine Daten vorhanden.\n"@)
    } else {
        groups_text(groups, groups.len() as int)
    }
}

/// The message that shows a plan, headed by the emoji with the number `emoji_index`.
pub open spec fn stuwe_message(
    groups: Seq<MealGroup>,
    day: RequestedDay,
    days_forward: int,
    emoji_index: int,
) -> Seq<char> {
    sendable(head_text(emoji_text(emoji_index), day, days_forward) + plan_text(groups))
}

/// The message that shows a plan. Every group holds a dish.
pub fn mealgroups_to_msg_with(
    meal_groups: &Vec<MealGroup>,
    day: RequestedDay,
    days_forward: i64,
    emoji_index: usize,
) -> (r: String)
    requires
        forall|i: int| 0 <= i < meal_groups@.len() ==> (#[trigger] meal_groups@[i]).sub_meals@.len()
            > 0,
        day.date.valid(),
        day.date.weekday() < 5,
        emoji_index < EMOJI_COUNT,
    ensures
        r@ == stuwe_message(meal_groups@, day, days_forward as int, emoji_index as int),
{
    let mut msg = plan_head(emoji_index, day, days_forward);
    let mut plan = String::new();
    let mut i: usize = 0;
    while i < meal_groups.len()
        invariant
            i <= meal_groups@.len(),
            forall|k: int|
                0 <= k < meal_groups@.len() ==> (#[trigger] meal_groups@[k]).sub_meals@.len() > 0,
            plan@ == groups_text(meal_groups@, i as int),
        decreases meal_groups.len() - i,
    {
        plan.append(group_lines(&meal_groups[i]).as_str());
        i += 1;
    }
    if meal_groups.len() == 0 {
        plan = bold("\nkeine Daten vorhanden.\n");
    }
    msg.append(plan.as_str());
    escape_markdown_v2(msg.as_str())
}

/// The message that shows a plan, headed by an emoji that chance picks.
pub fn mealgroups_to_msg(meal_groups: &Vec<MealGroup>, day: RequestedDay, days_forward: i64) -> (r:
    String)
    requires
        forall|i: int| 0 <= i < meal_groups@.len() ==> (#[trigger] meal_groups@[i]).sub_meals@.len()
            > 0,
        day.date.valid(),
        day.date.weekday() < 5,
    ensures
        exists|e: int|
            0 <= e < EMOJI_COUNT && r@ == #[trigger] stuwe_message(
                meal_groups@,
                day,
                days_forward as int,
                e,
            ),
{
    let emoji_index = random_below(EMOJI_COUNT);
    mealgroups_to_msg_with(meal_groups, day, days_forward, emoji_index)
}

/// The answer to a request for a plan: the plan, or an apology where the service gave none.
pub fn stuwe_build_meal_msg(
    meal_groups: Option<Vec<MealGroup>>,
    day: RequestedDay,
    days_forward: i64,
) -> (r: String)
    requires
        meal_groups matches Some(groups) ==> forall|i: int|
            0 <= i < groups@.len() ==> (#[trigger] groups@[i]).sub_meals@.len() > 0,
        day.date.valid(),
        day.date.weekday() < 5,
    ensures
        match meal_groups {
            Some(groups) => exists|e: int|
                0 <= e < EMOJI_COUNT && r@ == #[trigger] stuwe_message(
                    groups@,
                    day,
                    days_forward as int,
                    e,
                ),
            None => r@ == "Ein Fehler ist aufgetreten\\."@,
        },
{
    match meal_groups {
        Some(groups) => mealgroups_to_msg(&groups, day, days_forward),
        None => owned("Ein Fehler ist aufgetreten\\."),
    }
}

/// Where the service keeps the plan of a canteen for a day.
pub open spec fn meals_address(api_url: Seq<char>, mensa: nat, date: CalendarDate) -> Seq<char> {
    api_url + "/canteens/"@ + dec(mensa) + "/days/"@ + iso_date(date)
}

/// Where the service keeps the plan of a canteen for a day.
pub fn meals_url(api_url: &str, mensa: u32, date: CalendarDate) -> (r: String)
    ensures
        r@ == meals_address(api_url@, mensa as nat, date),
{
    let mut r = owned(api_url);
    r.append("/canteens/");
    r.append(decimal(mensa as u64).as_str());
    r.append("/days/");
    r.append(build_date_string(date).as_str());
    r
}

/// Where the service keeps the list of canteens.
pub fn mensen_url(api_url: &str) -> (r: String)
    ensures
        r@ == api_url@ + "/canteens"@,
{
    let mut r = owned(api_url);
    r.append("/canteens");
    r
}

/// The names of the first `n` canteens of a list by their number. Where a number comes twice, the
/// later entry counts.
pub open spec fn mensen_map(list: Seq<GetMensasMensa>, n: int) -> Map<u32, String>
    decreases n,
{
    if n <= 0 {
        Map::empty()
    } else {
        mensen_map(list, n - 1).insert(list[n - 1].id, list[n - 1].name)
    }
}

/// The names of the canteens by their number, from the list that a service hands out.
pub fn get_mensen(list: Vec<GetMensasMensa>) -> (r: BTreeMap<u32, String>)
    ensures
        r@ == mensen_map(list@, list@.len() as int),
{
    let mut r: BTreeMap<u32, String> = BTreeMap::new();
    let mut i: usize = 0;
    while i < list.len()
        invariant
            i <= list@.len(),
            r@ == mensen_map(list@, i as int),
        decreases list.len() - i,
    {
        r.insert(list[i].id, list[i].name.clone());
        i += 1;
    }
    r
}

} // verus!
