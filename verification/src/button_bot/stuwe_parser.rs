//! The plan in the messages of the bot with day buttons.
use crate::calendar::{
    answers_request, local_now, requested_day_if_any, CalendarDate, RequestedDay,
};
use crate::chance::random_below;
use crate::data_backend::mm_parser::{
    categories, categories_of, category_one_price, category_price, first_member, law_categories,
};
use crate::data_backend::stuwe_parser::{price_line, price_text};
use crate::data_backend::{
    build_date_string, german_date, german_date_fmt, iso_date, line, line_text,
};
use crate::data_types::mm_data_types::MensiMeal;
use crate::markdown::{
    bold, bold_text, escape_specials, escaped, italic, italic_text, lemma_ampersands_decoded,
    underline, underline_text, well_escaped,
};
use crate::shared_main::PlanRequest;
use crate::text::{owned, parts, replace_text, replaced, same_text, split, texts, trim, trimmed};
use vstd::prelude::*;
use vstd::string::StringExecFns;

verus! {

// ---------------------------------------------------------------------------------------------
// Where a plan is
// ---------------------------------------------------------------------------------------------

/// The canteens by name, and their numbers.
pub open spec fn mensa_list() -> Seq<(Seq<char>, u8)> {
    seq![
        ("Cafeteria Dittrichring"@, 153u8),
        ("Mensa Academica"@, 118u8),
        ("Mensa Peterssteinweg"@, 111u8),
        ("Mensa Schönauer Straße"@, 140u8),
        ("Mensa Tierklinik"@, 170u8),
        ("Mensa am Elsterbecken"@, 115u8),
        ("Mensa am Medizincampus"@, 162u8),
        ("Mensa am Park"@, 106u8),
        ("Mensaria am Botanischen Garten"@, 127u8),
    ]
}

/// What is seen of some canteens.
pub open spec fn mensa_views(mensen: Seq<(String, u8)>) -> Seq<(Seq<char>, u8)> {
    mensen.map_values(|m: (String, u8)| (m.0@, m.1))
}

/// The canteens by name, and their numbers.
pub fn mensen() -> (r: Vec<(String, u8)>)
    ensures
        mensa_views(r@) == mensa_list(),
{
    vec![
        (owned("Cafeteria Dittrichring"), 153),
        (owned("Mensa Academica"), 118),
        (owned("Mensa Peterssteinweg"), 111),
        (owned("Mensa Schönauer Straße"), 140),
        (owned("Mensa Tierklinik"), 170),
        (owned("Mensa am Elsterbecken"), 115),
        (owned("Mensa am Medizincampus"), 162),
        (owned("Mensa am Park"), 106),
        (owned("Mensaria am Botanischen Garten"), 127),
    ]
}

/// How MensiMates calls a canteen; `None` for a number that is not in the list.
pub open spec fn slug_of(mensa_location: u8) -> Option<Seq<char>> {
    if mensa_location == 153 {
        Some("cafeteria_dittrichring"@)
    } else if mensa_location == 127 {
        Some("menseria_am_botanischen_garten"@)
    } else if mensa_location == 118 {
        Some("mensa_academica"@)
    } else if mensa_location == 106 {
        Some("mensa_am_park"@)
    } else if mensa_location == 115 {
        Some("mensa_am_elsterbecken"@)
    } else if mensa_location == 162 {
        Some("mensa_am_medizincampus"@)
    } else if mensa_location == 111 {
        Some("mensa_peterssteinweg"@)
    } else if mensa_location == 140 {
        Some("mensa_schoenauerstr"@)
    } else if mensa_location == 170 {
        Some("mensa_tierklinik"@)
    } else {
        None
    }
}

/// Every canteen of the list has a name at MensiMates.
pub proof fn law_every_mensa_has_slug(i: int)
    requires
        0 <= i < mensa_list().len(),
    ensures
        slug_of(mensa_list()[i].1) is Some,
{
}

/// What a request for a plan names: the day and the canteen.
pub fn build_url_params(date: CalendarDate, mensa_location: u8) -> (r: (String, String))
    requires
        slug_of(mensa_location) is Some,
    ensures
        r.0@ == iso_date(date),
        slug_of(mensa_location) == Some(r.1@),
{
    let mensa = match mensa_location {
        153 => owned("cafeteria_dittrichring"),
        127 => owned("menseria_am_botanischen_garten"),
        118 => owned("mensa_academica"),
        106 => owned("mensa_am_park"),
        115 => owned("mensa_am_elsterbecken"),
        162 => owned("mensa_am_medizincampus"),
        111 => owned("mensa_peterssteinweg"),
        140 => owned("mensa_schoenauerstr"),
        _ => owned("mensa_tierklinik"),
    };
    (build_date_string(date), mensa)
}

/// Where MensiMates keeps the plan of a canteen for a day.
pub open spec fn json_address(date: CalendarDate, mensa_location: u8) -> Seq<char> {
    "https://api.olech2412.de/mensaHub/"@ + slug_of(mensa_location)->0 + "/servingDate/"@
        + iso_date(date)
}

/// Where MensiMates keeps the plan of a canteen for a day.
pub fn mm_json_request(date: CalendarDate, mensa_location: u8) -> (r: String)
    requires
        slug_of(mensa_location) is Some,
    ensures
        r@ == json_address(date, mensa_location),
{
    let (day, mensa) = build_url_params(date, mensa_location);
    let mut r = owned("https://api.olech2412.de/mensaHub/");
    r.append(mensa.as_str());
    r.append("/servingDate/");
    r.append(day.as_str());
    r
}

/// Whether `r` is the request for the plan of a canteen that is made on `today`: for the requested
/// day, at the address of that day's plan. `None` where the day lies outside of the calendar.
pub open spec fn is_meal_request(
    today: CalendarDate,
    mensa_location: u8,
    days_forward: i64,
    r: Option<PlanRequest>,
) -> bool {
    match r {
        Some(request) => {
            &&& answers_request(today, days_forward as int, Some(request.day))
            &&& request.days_forward == days_forward
            &&& request.url@ == json_address(request.day.date, mensa_location)
        },
        None => answers_request(today, days_forward as int, None),
    }
}

/// The request for the plan of a canteen, `days_forward` days after `today`.
pub fn request_meals(today: CalendarDate, mensa_location: u8, days_forward: i64) -> (r: Option<
    PlanRequest,
>)
    requires
        today.valid(),
        slug_of(mensa_location) is Some,
    ensures
        is_meal_request(today, mensa_location, days_forward, r),
        r matches Some(request) ==> request.day.date.valid() && request.day.date.weekday() < 5,
{
    match requested_day_if_any(today, days_forward) {
        Some(day) => Some(
            PlanRequest { day, days_forward, url: mm_json_request(day.date, mensa_location) },
        ),
        None => None,
    }
}

/// The request for the plan of a canteen, `days_forward` days from today.
pub fn request_meals_from_now(mensa_location: u8, days_forward: i64) -> (r: Option<PlanRequest>)
    requires
        slug_of(mensa_location) is Some,
    ensures
        exists|today: CalendarDate|
            today.valid() && #[trigger] is_meal_request(today, mensa_location, days_forward, r),
        r matches Some(request) ==> request.day.date.valid() && request.day.date.weekday() < 5,
{
    let today = local_now().date;
    let r = request_meals(today, mensa_location, days_forward);
    assert(is_meal_request(today, mensa_location, days_forward, r));
    r
}

// ---------------------------------------------------------------------------------------------
// What a plan looks like
// ---------------------------------------------------------------------------------------------

/// How many emojis a plan can be headed with.
pub const EMOJI_COUNT: usize = 7;

/// The emoji with the number `i`.
pub open spec fn emoji_text(i: int) -> Seq<char> {
    if i == 0 {
        "☀️"@
    } else if i == 1 {
        "🦀"@
    } else if i == 2 {
        "💂🏻‍♀️"@
    } else if i == 3 {
        "☕️"@
    } else if i == 4 {
        "🍽️"@
    } else if i == 5 {
        "☝🏻"@
    } else {
        "🌤️"@
    }
}

fn emoji(i: usize) -> (r: &'static str)
    requires
        i < EMOJI_COUNT,
    ensures
        r@ == emoji_text(i as int),
{
    match i {
        0 => "☀️",
        1 => "🦀",
        2 => "💂🏻‍♀️",
        3 => "☕️",
        4 => "🍽️",
        5 => "☝🏻",
        _ => "🌤️",
    }
}

/// A text ready to be sent: special characters escaped, and the entity that comes through undecoded
/// put right.
pub open spec fn sendable(s: Seq<char>) -> Seq<char> {
    replaced(escaped(s), "&amp;"@, "&"@)
}

/// Makes a text ready to be sent.
pub fn escape_markdown_v2(input: &str) -> (r: String)
    ensures
        r@ == sendable(input@),
{
    proof {
        reveal_strlit("&amp;");
    }
    replace_text(escape_specials(input).as_str(), "&amp;", "&")
}

/// In a text that is ready to be sent, every special character stands behind a backslash.
pub proof fn law_sendable_is_escaped(s: Seq<char>)
    ensures
        well_escaped(sendable(s)),
{
    lemma_ampersands_decoded(s);
}

/// The hint that the plan for "today" is one for the Monday to come.
pub open spec fn future_day_info(days_forward: int, raised: int) -> Seq<char> {
    if days_forward == 0 && raised == 1 {
        " (Morgen)"@
    } else if days_forward == 0 && raised == 2 {
        " (Übermorgen)"@
    } else {
        Seq::empty()
    }
}

/// The line above a plan: the day between two emojis.
pub open spec fn head_text(emoji: Seq<char>, day: RequestedDay, days_forward: int) -> Seq<char> {
    emoji + " "@ + italic_text(german_date(day.date)) + future_day_info(
        days_forward,
        day.raised as int,
    ) + " "@ + emoji + "\n"@
}

fn plan_head(emoji_index: usize, day: RequestedDay, days_forward: i64) -> (r: String)
    requires
        emoji_index < EMOJI_COUNT,
        day.date.valid(),
        day.date.weekday() < 5,
    ensures
        r@ == head_text(emoji_text(emoji_index as int), day, days_forward as int),
{
    let sign = emoji(emoji_index);
    let hint = if days_forward == 0 && day.raised == 1 {
        owned(" (Morgen)")
    } else if days_forward == 0 && day.raised == 2 {
        owned(" (Übermorgen)")
    } else {
        String::new()
    };
    let mut r = owned(sign);
    r.append(" ");
    r.append(italic(german_date_fmt(day.date).as_str()).as_str());
    r.append(hint.as_str());
    r.append(" ");
    r.append(sign);
    r.append("\n");
    r
}

/// The lines of the first `n` ingredients. What is not known has no line.
pub open spec fn ingredient_lines(ingredients: Seq<Seq<char>>, n: int) -> Seq<char>
    decreases n,
{
    if n <= 0 {
        Seq::empty()
    } else {
        let text = trimmed(ingredients[n - 1]);
        ingredient_lines(ingredients, n - 1) + if text != "N/A"@ {
            line_text("     + "@, italic_text(text))
        } else {
            Seq::empty()
        }
    }
}

fn ingredients_of(description: &str) -> (r: String)
    ensures
        r@ == ingredient_lines(parts(description@, '&'), parts(description@, '&').len() as int),
{
    let ingredients = split(description, '&');
    let ghost spec_parts = parts(description@, '&');
    let mut r = String::new();
    for i in 0..ingredients.len()
        invariant
            texts(ingredients@) == spec_parts,
            r@ == ingredient_lines(spec_parts, i as int),
    {
        let text = trim(ingredients[i].as_str());
        assert(spec_parts[i as int] == ingredients@[i as int]@);
        let shown = if !same_text(text.as_str(), "N/A") {
            line("     + ", italic(text.as_str()).as_str())
        } else {
            String::new()
        };
        r.append(shown.as_str());
    }
    r
}

/// The lines of one dish. Its price is among them unless all dishes of the category share one.
pub open spec fn meal_text(meal: MensiMeal, price_is_shared: bool) -> Seq<char> {
    let ingredients = parts(meal.description@, '&');
    line_text(" • "@, underline_text(meal.name@)) + ingredient_lines(
        ingredients,
        ingredients.len() as int,
    ) + price_line(!price_is_shared, "  "@, meal.price@)
}

fn meal_lines(meal: &MensiMeal, price_is_shared: bool) -> (r: String)
    ensures
        r@ == meal_text(*meal, price_is_shared),
{
    let mut r = line(" • ", underline(meal.name.as_str()).as_str());
    r.append(ingredients_of(meal.description.as_str()).as_str());
    r.append(price_text(!price_is_shared, "  ", meal.price.as_str()).as_str());
    r
}

/// The lines of those of the first `n` dishes that belong to a category.
pub open spec fn members_text(
    meals: Seq<MensiMeal>,
    n: int,
    category: Seq<char>,
    price_is_shared: bool,
) -> Seq<char>
    decreases n,
{
    if n <= 0 {
        Seq::empty()
    } else {
        members_text(meals, n - 1, category, price_is_shared) + if meals[n - 1].category@
            == category {
            meal_text(meals[n - 1], price_is_shared)
        } else {
            Seq::empty()
        }
    }
}

/// The lines of one category: its name, its dishes, and the price if they share it.
pub open spec fn category_text(meals: Seq<MensiMeal>, category: Seq<char>) -> Seq<char> {
    let shared = category_one_price(meals, category);
    line_text("\n"@, bold_text(category)) + members_text(
        meals,
        meals.len() as int,
        category,
        shared,
    ) + price_line(shared, "  "@, meals[first_member(meals, category)].price@)
}

fn category_lines(meals: &Vec<MensiMeal>, category: &str) -> (r: String)
    requires
        exists|i: int| 0 <= i < meals@.len() && #[trigger] meals@[i].category@ == category@,
    ensures
        r@ == category_text(meals@, category@),
{
    let (first, shared) = category_price(meals, category);
    let mut lines = String::new();
    for n in 0..meals.len()
        invariant
            lines@ == members_text(meals@, n as int, category@, shared),
    {
        let shown = if same_text(meals[n].category.as_str(), category) {
            meal_lines(&meals[n], shared)
        } else {
            String::new()
        };
        lines.append(shown.as_str());
    }
    let mut r = line("\n", bold(category).as_str());
    r.append(lines.as_str());
    r.append(price_text(shared, "  ", meals[first].price.as_str()).as_str());
    r
}

/// The lines of the first `n` categories.
pub open spec fn categories_text(
    meals: Seq<MensiMeal>,
    categories: Seq<Seq<char>>,
    n: int,
) -> Seq<char>
    decreases n,
{
    if n <= 0 {
        Seq::empty()
    } else {
        categories_text(meals, categories, n - 1) + category_text(meals, categories[n - 1])
    }
}

/// What stands below the head: the categories in the order of their names, or that there is nothing.
pub open spec fn body_text(meals: Option<Vec<MensiMeal>>) -> Seq<char> {
    match meals {
        None => bold_text("\nMensiMates-Abfrage fehlgeschlagen.\n"@),
        Some(meals) => if meals@.len() == 0 {
            bold_text("\nkeine Daten vorhanden.\n"@)
        } else {
            let categories = categories_of(meals@, meals@.len() as int);
            categories_text(meals@, categories, categories.len() as int)
        },
    }
}

fn plan_body(meals: &Option<Vec<MensiMeal>>) -> (r: String)
    ensures
        r@ == body_text(*meals),
{
    match meals {
        None => bold("\nMensiMates-Abfrage fehlgeschlagen.\n"),
        Some(meals) => {
            if meals.len() == 0 {
                return bold("\nkeine Daten vorhanden.\n");
            }
            let names = categories(meals);
            let ghost all = categories_of(meals@, meals@.len() as int);
            let mut r = String::new();
            for i in 0..names.len()
                invariant
                    all == categories_of(meals@, meals@.len() as int),
                    texts(names@) == all,
                    r@ == categories_text(meals@, all, i as int),
            {
                proof {
                    law_categories(meals@, meals@.len() as int);
                    assert(all[i as int] == names@[i as int]@);
                    assert(all.contains(all[i as int]));
                }
                r.append(category_lines(meals, names[i].as_str()).as_str());
            }
            r
        },
    }
}

/// The message that shows a plan, headed by the emoji with this number.
pub open spec fn meal_message(
    meals: Option<Vec<MensiMeal>>,
    day: RequestedDay,
    days_forward: int,
    emoji_index: int,
) -> Seq<char> {
    sendable(head_text(emoji_text(emoji_index), day, days_forward) + body_text(meals))
}

/// The message that shows a plan, or that none could be had.
pub fn build_meal_message_with(
    meals: &Option<Vec<MensiMeal>>,
    day: RequestedDay,
    days_forward: i64,
    emoji_index: usize,
) -> (r: String)
    requires
        day.date.valid(),
        day.date.weekday() < 5,
        emoji_index < EMOJI_COUNT,
    ensures
        r@ == meal_message(*meals, day, days_forward as int, emoji_index as int),
{
    let mut msg = plan_head(emoji_index, day, days_forward);
    msg.append(plan_body(meals).as_str());
    escape_markdown_v2(msg.as_str())
}

/// The message that answers the request for a plan, from what came back. It is headed by an emoji
/// that chance picks.
pub fn build_meal_message(meals: &Option<Vec<MensiMeal>>, request: &PlanRequest) -> (r: String)
    requires
        request.day.date.valid(),
        request.day.date.weekday() < 5,
    ensures
        exists|e: int|
            0 <= e < EMOJI_COUNT && r@ == #[trigger] meal_message(
                *meals,
                request.day,
                request.days_forward as int,
                e,
            ),
{
    let emoji_index = random_below(EMOJI_COUNT);
    build_meal_message_with(meals, request.day, request.days_forward, emoji_index)
}

} // verus!
