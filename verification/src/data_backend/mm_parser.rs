//! Plans from MensiMates.
use crate::calendar::{CalendarDate, RequestedDay};
use crate::chance::random_below;
use crate::data_backend::stuwe_parser;
use crate::data_backend::stuwe_parser::{mensen_map, price_line, price_text};
use crate::data_backend::{
    build_date_string, emoji_text, head_text, iso_date, line, line_text, plan_head, EMOJI_COUNT,
};
use crate::data_types::mm_data_types::{GetMensasMensa, MensiMeal};
use crate::markdown::{
    bold, bold_text, escape_markdown_v2, italic, italic_text, sendable, underline, underline_text,
};
use crate::text::{
    comes_before, contains_text, dec, decimal, has_text, lemma_order_irreflexive,
    lemma_order_total, lemma_order_transitive, owned, parts, replace_text, replaced, same_text,
    split, text_before, texts, trim, trimmed,
};
use std::collections::BTreeMap;
use vstd::prelude::*;
use vstd::string::StringExecFns;

verus! {

// ---------------------------------------------------------------------------------------------
// Icons
// ---------------------------------------------------------------------------------------------

/// A text in small letters, by the tables of Unicode.
pub uninterp spec fn lowercase(s: Seq<char>) -> Seq<char>;

/// `str::to_lowercase` gives the lower case of the text, which depends on nothing but the text.
#[verifier::external_body]
fn to_lowercase(s: &str) -> (r: String)
    ensures
        r@ == lowercase(s@),
{
    s.to_lowercase()
}

/// The icon of a kind of meal, by the first of these words that its name in small letters holds.
pub open spec fn icon_text(name: Seq<char>) -> Seq<char> {
    if contains_text(name, "vegan"@) {
        "🌱"@
    } else if contains_text(name, "vegetarisch"@) {
        "🧀"@
    } else if contains_text(name, "fleisch"@) {
        "🍗"@
    } else if contains_text(name, "grill"@) {
        "🍔"@
    } else if contains_text(name, "fisch"@) {
        "🐟"@
    } else if contains_text(name, "pastateller"@) {
        "🍝"@
    } else if contains_text(name, "gemüse"@) {
        "🥕"@
    } else if contains_text(name, "sättigung"@) {
        "➕"@
    } else if contains_text(name, "schneller teller"@) {
        "♿️"@
    } else {
        "🍽️"@
    }
}

/// The icon of a kind of meal whose name is given in small letters.
pub fn icon_of_lowercase(name: &str) -> (r: &'static str)
    ensures
        r@ == icon_text(name@),
{
    if has_text(name, "vegan") {
        "🌱"
    } else if has_text(name, "vegetarisch") {
        "🧀"
    } else if has_text(name, "fleisch") {
        "🍗"
    } else if has_text(name, "grill") {
        "🍔"
    } else if has_text(name, "fisch") {
        "🐟"
    } else if has_text(name, "pastateller") {
        "🍝"
    } else if has_text(name, "gemüse") {
        "🥕"
    } else if has_text(name, "sättigung") {
        "➕"
    } else if has_text(name, "schneller teller") {
        "♿️"
    } else {
        "🍽️"
    }
}

/// The icon of a kind of meal.
pub fn get_mealgroup_icon(meal_name: &str) -> (r: &'static str)
    ensures
        r@ == icon_text(lowercase(meal_name@)),
{
    icon_of_lowercase(to_lowercase(meal_name).as_str())
}

// ---------------------------------------------------------------------------------------------
// Stars
// ---------------------------------------------------------------------------------------------

/// `n` times the same moon.
pub open spec fn moons(n: int, moon: char) -> Seq<char> {
    Seq::new(
        if n < 0 {
            0
        } else {
            n as nat
        },
        |i: int| moon,
    )
}

/// The moon for a part of a star, to the nearest quarter.
pub open spec fn partial_moon(eighths: int) -> char {
    if eighths >= 7 {
        '🌕'
    } else if eighths >= 5 {
        '🌖'
    } else if eighths >= 3 {
        '🌗'
    } else if eighths >= 1 {
        '🌘'
    } else {
        '🌑'
    }
}

/// A rating in moons: one for every whole star, and below five stars one for the part that is left
/// and dark ones up to five in all.
pub open spec fn stars_text(eighths: int) -> Seq<char> {
    let whole = if eighths < 0 {
        0
    } else {
        eighths / 8
    };
    if whole < 5 {
        moons(whole, '🌕').push(partial_moon(eighths % 8)) + moons(4 - whole, '🌑')
    } else {
        moons(whole, '🌕')
    }
}

fn repeat_moon(n: u64, moon: char) -> (r: String)
    ensures
        r@ == moons(n as int, moon),
{
    let mut r = String::new();
    let mut i: u64 = 0;
    while i < n
        invariant
            i <= n,
            r@ == moons(i as int, moon),
        decreases n - i,
    {
        r.push(moon);
        i += 1;
        assert(r@ == moons(i as int, moon));
    }
    r
}

/// A rating in moons. The rating is given in eighths of a star, rounded down.
pub fn rating_to_stars(eighths: i64) -> (r: String)
    ensures
        r@ == stars_text(eighths as int),
{
    let (whole, part): (u64, u64) = if eighths >= 0 {
        (eighths as u64 / 8, eighths as u64 % 8)
    } else if eighths == i64::MIN {
        (0, 0)
    } else {
        let short: u64 = (-eighths) as u64 % 8;
        (
            0,
            if short == 0 {
                0
            } else {
                8 - short
            },
        )
    };
    let mut r = repeat_moon(whole, '🌕');
    if whole < 5 {
        let moon = if part >= 7 {
            '🌕'
        } else if part >= 5 {
            '🌖'
        } else if part >= 3 {
            '🌗'
        } else if part >= 1 {
            '🌘'
        } else {
            '🌑'
        };
        r.push(moon);
        r.append(repeat_moon(4 - whole, '🌑').as_str());
    }
    r
}

/// A rating of up to five stars is drawn with five moons; a higher one with a moon for every star.
pub proof fn law_five_moons(eighths: int)
    ensures
        eighths < 48 ==> stars_text(eighths).len() == 5,
        eighths >= 40 ==> stars_text(eighths).len() == eighths / 8,
{
}

// ---------------------------------------------------------------------------------------------
// One dish
// ---------------------------------------------------------------------------------------------

/// The lines of the first `n` ingredients. What is empty or not known has no line.
pub open spec fn ingredient_lines(ingredients: Seq<Seq<char>>, n: int) -> Seq<char>
    decreases n,
{
    if n <= 0 {
        Seq::empty()
    } else {
        let text = trimmed(ingredients[n - 1]);
        ingredient_lines(ingredients, n - 1) + if text != "N/A"@ && text.len() > 0 {
            line_text("     + "@, italic_text(text))
        } else {
            Seq::empty()
        }
    }
}

fn ingredients_of(description: &str) -> (r: String)
    ensures
        r@ == ingredient_lines(parts(description@, '·'), parts(description@, '·').len() as int),
{
    let ingredients = split(description, '·');
    let ghost spec_parts = parts(description@, '·');
    let mut r = String::new();
    let mut i: usize = 0;
    while i < ingredients.len()
        invariant
            i <= ingredients@.len(),
            texts(ingredients@) == spec_parts,
            r@ == ingredient_lines(spec_parts, i as int),
        decreases ingredients.len() - i,
    {
        let text = trim(ingredients[i].as_str());
        assert(spec_parts[i as int] == ingredients@[i as int]@);
        let shown = if !same_text(text.as_str(), "N/A") && !text.as_str().is_empty() {
            line("     + ", italic(text.as_str()).as_str())
        } else {
            String::new()
        };
        r.append(shown.as_str());
        i += 1;
    }
    r
}

/// The line of the allergens, for those who want to see it.
pub open spec fn allergen_line(allergens: Seq<char>, wanted: bool) -> Seq<char> {
    if wanted && allergens != "N/A"@ {
        line_text("    ⓘ "@, allergens)
    } else {
        Seq::empty()
    }
}

/// The line of the rating, if anyone has voted.
pub open spec fn rating_line(meal: MensiMeal) -> Seq<char> {
    if meal.votes != 0 {
        "    Bewertung: "@ + stars_text(meal.rating_eighths as int) + " ("@ + meal.rating_text@
            + ")\n"@
    } else {
        Seq::empty()
    }
}

/// The lines of one dish. Its price is among them unless all dishes of the category share one.
pub open spec fn mm_meal_text(
    meal: MensiMeal,
    price_is_shared: bool,
    wants_allergens: bool,
) -> Seq<char> {
    let ingredients = parts(meal.description@, '·');
    line_text(" • "@, underline_text(meal.name@)) + ingredient_lines(
        ingredients,
        ingredients.len() as int,
    ) + allergen_line(meal.allergens@, wants_allergens) + price_line(
        !price_is_shared,
        "   "@,
        meal.price@,
    ) + rating_line(meal)
}

fn mm_meal_lines(meal: &MensiMeal, price_is_shared: bool, wants_allergens: bool) -> (r: String)
    ensures
        r@ == mm_meal_text(*meal, price_is_shared, wants_allergens),
{
    let mut r = line(" • ", underline(meal.name.as_str()).as_str());
    r.append(ingredients_of(meal.description.as_str()).as_str());
    let allergens = if wants_allergens && !same_text(meal.allergens.as_str(), "N/A") {
        line("    ⓘ ", meal.allergens.as_str())
    } else {
        String::new()
    };
    r.append(allergens.as_str());
    r.append(price_text(!price_is_shared, "   ", meal.price.as_str()).as_str());
    let rating = if meal.votes != 0 {
        let mut t = owned("    Bewertung: ");
        t.append(rating_to_stars(meal.rating_eighths).as_str());
        t.append(" (");
        t.append(meal.rating_text.as_str());
        t.append(")\n");
        t
    } else {
        String::new()
    };
    r.append(rating.as_str());
    r
}

// ---------------------------------------------------------------------------------------------
// Categories
// ---------------------------------------------------------------------------------------------

/// A category entered at its place in the order, unless it is there already.
pub open spec fn entered(categories: Seq<Seq<char>>, category: Seq<char>) -> Seq<Seq<char>>
    decreases categories.len(),
{
    if categories.len() == 0 {
        seq![category]
    } else if categories[0] == category {
        categories
    } else if comes_before(category, categories[0]) {
        seq![category] + categories
    } else {
        seq![categories[0]] + entered(categories.skip(1), category)
    }
}

/// The categories of the first `n` dishes, in order.
pub open spec fn categories_of(meals: Seq<MensiMeal>, n: int) -> Seq<Seq<char>>
    decreases n,
{
    if n <= 0 {
        Seq::empty()
    } else {
        entered(categories_of(meals, n - 1), meals[n - 1].category@)
    }
}

/// No category stands twice, and each stands before all that come after it in the dictionary.
pub open spec fn in_order(categories: Seq<Seq<char>>) -> bool {
    forall|i: int, j: int|
        0 <= i < j < categories.len() ==> comes_before(
            #[trigger] categories[i],
            #[trigger] categories[j],
        )
}

/// Entering at the place that the order assigns is what `entered` says.
proof fn lemma_entered_at(categories: Seq<Seq<char>>, category: Seq<char>, place: int)
    requires
        0 <= place <= categories.len(),
        forall|k: int| 0 <= k < place ==> comes_before(#[trigger] categories[k], category),
        place < categories.len() ==> !comes_before(categories[place], category),
    ensures
        entered(categories, category) == if place < categories.len() && categories[place]
            == category {
            categories
        } else {
            categories.insert(place, category)
        },
    decreases categories.len(),
{
    if categories.len() == 0 {
        assert(categories.insert(place, category) == seq![category]);
    } else if place == 0 {
        lemma_order_total(categories[0], category);
        assert(categories.insert(0, category) == seq![category] + categories);
    } else {
        let first = categories[0];
        assert(comes_before(first, category));
        lemma_order_irreflexive(first);
        if comes_before(category, first) {
            lemma_order_transitive(first, category, first);
        }
        let rest = categories.skip(1);
        assert forall|k: int| 0 <= k < place - 1 implies comes_before(
            #[trigger] rest[k],
            category,
        ) by {
            assert(rest[k] == categories[k + 1]);
        }
        lemma_entered_at(rest, category, place - 1);
        assert(categories == seq![first] + rest);
        assert(categories.insert(place, category) == seq![first] + rest.insert(
            place - 1,
            category,
        ));
    }
}

/// Entering keeps the order and adds this category alone.
proof fn lemma_entered(categories: Seq<Seq<char>>, category: Seq<char>)
    requires
        in_order(categories),
    ensures
        in_order(entered(categories, category)),
        forall|c: Seq<char>| #[trigger]
            entered(categories, category).contains(c) <==> categories.contains(c) || c == category,
    decreases categories.len(),
{
    let result = entered(categories, category);
    if categories.len() == 0 {
        assert(result[0] == category);
    } else if categories[0] == category {
    } else if comes_before(category, categories[0]) {
        assert forall|i: int, j: int| 0 <= i < j < result.len() implies comes_before(
            #[trigger] result[i],
            #[trigger] result[j],
        ) by {
            if i == 0 {
                if j > 1 {
                    lemma_order_transitive(category, categories[0], categories[j - 1]);
                }
            }
        }
        assert forall|c: Seq<char>| #[trigger] result.contains(c) <==> categories.contains(c) || c
            == category by {
            if result.contains(c) {
                let i = choose|i: int| 0 <= i < result.len() && result[i] == c;
                if i > 0 {
                    assert(categories[i - 1] == c);
                }
            }
            if categories.contains(c) {
                let i = choose|i: int| 0 <= i < categories.len() && categories[i] == c;
                assert(result[i + 1] == c);
            }
            assert(result[0] == category);
        }
    } else {
        let first = categories[0];
        let rest = categories.skip(1);
        let later = entered(rest, category);
        lemma_order_total(first, category);
        assert forall|i: int, j: int| 0 <= i < j < rest.len() implies comes_before(
            #[trigger] rest[i],
            #[trigger] rest[j],
        ) by {
            assert(comes_before(categories[i + 1], categories[j + 1]));
        }
        lemma_entered(rest, category);
        assert(result == seq![first] + later);
        assert forall|i: int, j: int| 0 <= i < j < result.len() implies comes_before(
            #[trigger] result[i],
            #[trigger] result[j],
        ) by {
            if i == 0 {
                let c = later[j - 1];
                assert(later.contains(c));
                if rest.contains(c) {
                    let k = choose|k: int| 0 <= k < rest.len() && rest[k] == c;
                    assert(comes_before(categories[0], categories[k + 1]));
                }
            } else {
                assert(comes_before(later[i - 1], later[j - 1]));
            }
        }
        assert forall|c: Seq<char>| #[trigger] result.contains(c) <==> categories.contains(c) || c
            == category by {
            if result.contains(c) {
                let i = choose|i: int| 0 <= i < result.len() && result[i] == c;
                if i == 0 {
                    assert(categories[0] == c);
                } else {
                    assert(later[i - 1] == c);
                    assert(later.contains(c));
                    if rest.contains(c) {
                        let k = choose|k: int| 0 <= k < rest.len() && rest[k] == c;
                        assert(categories[k + 1] == c);
                    }
                }
            }
            if categories.contains(c) || c == category {
                if categories.contains(c) {
                    let i = choose|i: int| 0 <= i < categories.len() && categories[i] == c;
                    if i == 0 {
                        assert(result[0] == c);
                    } else {
                        assert(rest[i - 1] == c);
                        assert(rest.contains(c));
                    }
                }
                if c == category || rest.contains(c) {
                    assert(later.contains(c));
                    let k = choose|k: int| 0 <= k < later.len() && later[k] == c;
                    assert(result[k + 1] == c);
                }
            }
        }
    }
}

/// The categories of a plan stand in the order of the dictionary, each once, and they are those of
/// its dishes and no others. So every dish is listed under one heading.
pub proof fn law_categories(meals: Seq<MensiMeal>, n: int)
    requires
        0 <= n <= meals.len(),
    ensures
        in_order(categories_of(meals, n)),
        forall|c: Seq<char>| #[trigger]
            categories_of(meals, n).contains(c) <==> exists|i: int|
                0 <= i < n && #[trigger] meals[i].category@ == c,
    decreases n,
{
    if n > 0 {
        law_categories(meals, n - 1);
        lemma_entered(categories_of(meals, n - 1), meals[n - 1].category@);
        assert forall|c: Seq<char>| #[trigger]
            categories_of(meals, n).contains(c) <==> exists|i: int|
                0 <= i < n && #[trigger] meals[i].category@ == c by {
            if categories_of(meals, n).contains(c) {
                if c == meals[n - 1].category@ {
                } else {
                    assert(categories_of(meals, n - 1).contains(c));
                }
            }
            if exists|i: int| 0 <= i < n && #[trigger] meals[i].category@ == c {
                let i = choose|i: int| 0 <= i < n && #[trigger] meals[i].category@ == c;
                if i < n - 1 {
                    assert(categories_of(meals, n - 1).contains(c));
                }
            }
        }
    }
}

/// The categories of a plan, in order.
pub fn categories(meals: &Vec<MensiMeal>) -> (r: Vec<String>)
    ensures
        texts(r@) == categories_of(meals@, meals@.len() as int),
{
    let mut r: Vec<String> = Vec::new();
    let mut n: usize = 0;
    while n < meals.len()
        invariant
            n <= meals@.len(),
            texts(r@) == categories_of(meals@, n as int),
        decreases meals.len() - n,
    {
        let category = &meals[n].category;
        let mut place: usize = 0;
        while place < r.len() && text_before(r[place].as_str(), category.as_str())
            invariant
                place <= r@.len(),
                forall|k: int|
                    0 <= k < place ==> comes_before(#[trigger] texts(r@)[k], category@),
            decreases r.len() - place,
        {
            assert(texts(r@)[place as int] == r@[place as int]@);
            place += 1;
        }
        let ghost before = r@;
        assert(place < r@.len() ==> texts(r@)[place as int] == r@[place as int]@);
        proof {
            lemma_entered_at(texts(before), category@, place as int);
        }
        if place == r.len() || !same_text(r[place].as_str(), category.as_str()) {
            r.insert(place, category.clone());
            assert(texts(r@) == texts(before).insert(place as int, category@));
        }
        n += 1;
    }
    r
}

// ---------------------------------------------------------------------------------------------
// The plan
// ---------------------------------------------------------------------------------------------

/// The first dish of a category; the length of the list if there is none.
pub open spec fn first_member(meals: Seq<MensiMeal>, category: Seq<char>) -> int
    decreases meals.len(),
{
    if meals.len() == 0 || meals[0].category@ == category {
        0
    } else {
        1 + first_member(meals.skip(1), category)
    }
}

proof fn lemma_first_member(meals: Seq<MensiMeal>, category: Seq<char>, i: int)
    requires
        0 <= i <= meals.len(),
        forall|k: int| 0 <= k < i ==> (#[trigger] meals[k]).category@ != category,
        i < meals.len() ==> meals[i].category@ == category,
    ensures
        first_member(meals, category) == i,
    decreases meals.len(),
{
    if i > 0 {
        assert(meals[0].category@ != category);
        let rest = meals.skip(1);
        assert forall|k: int| 0 <= k < i - 1 implies (#[trigger] rest[k]).category@ != category by {
            assert(rest[k] == meals[k + 1]);
        }
        lemma_first_member(rest, category, i - 1);
    }
}

/// Whether all dishes of a category cost what its first one costs.
pub open spec fn category_one_price(meals: Seq<MensiMeal>, category: Seq<char>) -> bool {
    forall|i: int|
        0 <= i < meals.len() && (#[trigger] meals[i]).category@ == category ==> meals[i].price@
            == meals[first_member(meals, category)].price@
}

/// The lines of those of the first `n` dishes that belong to a category.
pub open spec fn members_text(
    meals: Seq<MensiMeal>,
    n: int,
    category: Seq<char>,
    price_is_shared: bool,
    wants_allergens: bool,
) -> Seq<char>
    decreases n,
{
    if n <= 0 {
        Seq::empty()
    } else {
        members_text(meals, n - 1, category, price_is_shared, wants_allergens) + if meals[n
            - 1].category@ == category {
            mm_meal_text(meals[n - 1], price_is_shared, wants_allergens)
        } else {
            Seq::empty()
        }
    }
}

/// The lines of one category: its icon and name, its dishes, and the price if they share it.
pub open spec fn category_text(
    meals: Seq<MensiMeal>,
    category: Seq<char>,
    wants_allergens: bool,
) -> Seq<char> {
    let shared = category_one_price(meals, category);
    "\n"@ + icon_text(lowercase(category)) + " "@ + bold_text(category) + "\n"@ + members_text(
        meals,
        meals.len() as int,
        category,
        shared,
        wants_allergens,
    ) + price_line(shared, "  "@, meals[first_member(meals, category)].price@)
}

/// The first dish of a category, and whether all of its dishes cost what that one costs.
pub fn category_price(meals: &Vec<MensiMeal>, category: &str) -> (r: (usize, bool))
    requires
        exists|i: int| 0 <= i < meals@.len() && #[trigger] meals@[i].category@ == category@,
    ensures
        r.0 == first_member(meals@, category@),
        r.0 < meals@.len(),
        r.1 == category_one_price(meals@, category@),
{
    let mut first: usize = 0;
    while first < meals.len() && !same_text(meals[first].category.as_str(), category)
        invariant
            first <= meals@.len(),
            forall|k: int| 0 <= k < first ==> (#[trigger] meals@[k]).category@ != category@,
        decreases meals.len() - first,
    {
        first += 1;
    }
    proof {
        lemma_first_member(meals@, category@, first as int);
    }
    let mut shared = true;
    let mut i: usize = 0;
    while i < meals.len()
        invariant
            i <= meals@.len(),
            first < meals@.len(),
            first == first_member(meals@, category@),
            shared <==> (forall|k: int|
                0 <= k < i && (#[trigger] meals@[k]).category@ == category@ ==> meals@[k].price@
                    == meals@[first as int].price@),
        decreases meals.len() - i,
    {
        if same_text(meals[i].category.as_str(), category) && !same_text(
            meals[i].price.as_str(),
            meals[first].price.as_str(),
        ) {
            shared = false;
        }
        i += 1;
    }
    (first, shared)
}

fn category_lines(meals: &Vec<MensiMeal>, category: &str, wants_allergens: bool) -> (r: String)
    requires
        exists|i: int| 0 <= i < meals@.len() && #[trigger] meals@[i].category@ == category@,
    ensures
        r@ == category_text(meals@, category@, wants_allergens),
{
    let (first, shared) = category_price(meals, category);
    let mut lines = String::new();
    let mut n: usize = 0;
    while n < meals.len()
        invariant
            n <= meals@.len(),
            lines@ == members_text(meals@, n as int, category@, shared, wants_allergens),
        decreases meals.len() - n,
    {
        let shown = if same_text(meals[n].category.as_str(), category) {
            mm_meal_lines(&meals[n], shared, wants_allergens)
        } else {
            String::new()
        };
        lines.append(shown.as_str());
        n += 1;
    }
    let mut r = owned("\n");
    r.append(get_mealgroup_icon(category));
    r.append(" ");
    r.append(bold(category).as_str());
    r.append("\n");
    r.append(lines.as_str());
    r.append(price_text(shared, "  ", meals[first].price.as_str()).as_str());
    r
}

/// The lines of the first `n` categories.
pub open spec fn all_categories_text(
    meals: Seq<MensiMeal>,
    categories: Seq<Seq<char>>,
    n: int,
    wants_allergens: bool,
) -> Seq<char>
    decreases n,
{
    if n <= 0 {
        Seq::empty()
    } else {
        all_categories_text(meals, categories, n - 1, wants_allergens) + category_text(
            meals,
            categories[n - 1],
            wants_allergens,
        )
    }
}

/// The plan itself.
pub open spec fn mm_plan_text(meals: Seq<MensiMeal>, wants_allergens: bool) -> Seq<char> {
    if meals.len() == 0 {
        bold_text("\nkeine Daten vorhanden.\n"@)
    } else {
        let categories = categories_of(meals, meals.len() as int);
        all_categories_text(meals, categories, categories.len() as int, wants_allergens)
    }
}

fn mm_plan(meals: &Vec<MensiMeal>, wants_allergens: bool) -> (r: String)
    ensures
        r@ == mm_plan_text(meals@, wants_allergens),
{
    if meals.len() == 0 {
        return bold("\nkeine Daten vorhanden.\n");
    }
    let names = categories(meals);
    let ghost all = categories_of(meals@, meals@.len() as int);
    let mut r = String::new();
    let mut i: usize = 0;
    while i < names.len()
        invariant
            i <= names@.len(),
            all == categories_of(meals@, meals@.len() as int),
            texts(names@) == all,
            r@ == all_categories_text(meals@, all, i as int, wants_allergens),
        decreases names.len() - i,
    {
        proof {
            law_categories(meals@, meals@.len() as int);
            assert(all[i as int] == names@[i as int]@);
            assert(all.contains(all[i as int]));
        }
        r.append(category_lines(meals, names[i].as_str(), wants_allergens).as_str());
        i += 1;
    }
    r
}

/// What stands below the head: the plan, or what the service had to say instead.
pub open spec fn mm_body_text(
    meals: Result<Vec<MensiMeal>, String>,
    wants_allergens: bool,
) -> Seq<char> {
    match meals {
        Ok(list) => mm_plan_text(list@, wants_allergens),
        Err(e) => bold_text("\nMensiMates-Abfrage fehlgeschlagen:\n"@) + replaced(
            e@,
            "_"@,
            "\\_"@,
        ),
    }
}

/// The message that shows a plan, headed by the emoji with the number `emoji_index`.
pub open spec fn mm_message(
    meals: Result<Vec<MensiMeal>, String>,
    day: RequestedDay,
    days_forward: int,
    wants_allergens: bool,
    emoji_index: int,
) -> Seq<char> {
    sendable(
        head_text(emoji_text(emoji_index), day, days_forward) + mm_body_text(
            meals,
            wants_allergens,
        ),
    )
}

/// The message that shows a plan, or the error that came instead of one.
pub fn mm_build_meal_msg_with(
    meals: &Result<Vec<MensiMeal>, String>,
    day: RequestedDay,
    days_forward: i64,
    wants_allergens: bool,
    emoji_index: usize,
) -> (r: String)
    requires
        day.date.valid(),
        day.date.weekday() < 5,
        emoji_index < EMOJI_COUNT,
    ensures
        r@ == mm_message(*meals, day, days_forward as int, wants_allergens, emoji_index as int),
{
    let mut msg = plan_head(emoji_index, day, days_forward);
    let body = match meals {
        Ok(list) => mm_plan(list, wants_allergens),
        Err(e) => {
            proof {
                reveal_strlit("_");
            }
            let mut t = bold("\nMensiMates-Abfrage fehlgeschlagen:\n");
            t.append(replace_text(e.as_str(), "_", "\\_").as_str());
            t
        },
    };
    msg.append(body.as_str());
    escape_markdown_v2(msg.as_str())
}

/// The message that shows a plan, headed by an emoji that chance picks.
pub fn mm_build_meal_msg(
    meals: &Result<Vec<MensiMeal>, String>,
    day: RequestedDay,
    days_forward: i64,
    wants_allergens: bool,
) -> (r: String)
    requires
        day.date.valid(),
        day.date.weekday() < 5,
    ensures
        exists|e: int|
            0 <= e < EMOJI_COUNT && r@ == #[trigger] mm_message(
                *meals,
                day,
                days_forward as int,
                wants_allergens,
                e,
            ),
{
    let emoji_index = random_below(EMOJI_COUNT);
    mm_build_meal_msg_with(meals, day, days_forward, wants_allergens, emoji_index)
}

/// Where MensiMates keeps the plan of a canteen for a day.
pub open spec fn mm_meals_address(mensa_id: nat, date: CalendarDate) -> Seq<char> {
    "https://api.cyber-biene.de/mensaHub/meal/servingDate/"@ + iso_date(date) + "/fromMensa/"@
        + dec(mensa_id)
}

/// Where MensiMates keeps the plan of a canteen for a day.
pub fn mm_meals_url(mensa_id: u32, date: CalendarDate) -> (r: String)
    ensures
        r@ == mm_meals_address(mensa_id as nat, date),
{
    let mut r = owned("https://api.cyber-biene.de/mensaHub/meal/servingDate/");
    r.append(build_date_string(date).as_str());
    r.append("/fromMensa/");
    r.append(decimal(mensa_id as u64).as_str());
    r
}

/// Where MensiMates keeps the list of canteens.
pub fn mm_mensen_url() -> (r: String)
    ensures
        r@ == "https://api.cyber-biene.de/mensaHub/mensa/getMensas"@,
{
    owned("https://api.cyber-biene.de/mensaHub/mensa/getMensas")
}

/// The names of the canteens by their number, from the list that MensiMates hands out.
pub fn get_mensen(list: Vec<GetMensasMensa>) -> (r: BTreeMap<u32, String>)
    ensures
        r@ == mensen_map(list@, list@.len() as int),
{
    stuwe_parser::get_mensen(list)
}

} // verus!
