//! Plans from MensiMates.
use crate::calendar::RequestedDay;
use crate::data_backend::mm_parser::{
    all_categories_text, allergen_line, categories_of, category_one_price, category_text,
    first_member, icon_text, ingredient_lines, law_categories, lowercase, members_text,
    mm_meal_text, mm_message, rating_line, stars_text,
};
use crate::data_backend::stuwe_parser::price_line;
use crate::data_backend::{emoji_text, head_text, line_text};
use crate::data_types::mm_data_types::MensiMeal;
use crate::laws::plan_laws::{
    ingredient_line, lemma_found_in_part, lemma_line_is_sent, lemma_line_of_one_is_sent,
    lemma_lines_sent, lemma_one_of_many, lemma_sent_before_break,
};
use crate::laws::text_laws::law_dictionary;
use crate::lines::whole_lines;
use crate::markdown::{bold_text, sendable, underline_text};
use crate::text::{
    comes_before, contains_text, lemma_order_irreflexive, parts, replaced, trimmed,
};
use vstd::prelude::*;

verus! {

// ---------------------------------------------------------------------------------------------
// Icons and stars
// ---------------------------------------------------------------------------------------------

/// The words that tell a kind of meal, from the one that counts first to the one that counts last.
pub open spec fn icon_words() -> Seq<Seq<char>> {
    seq![
        "vegan"@,
        "vegetarisch"@,
        "fleisch"@,
        "grill"@,
        "fisch"@,
        "pastateller"@,
        "gemüse"@,
        "sättigung"@,
        "schneller teller"@,
    ]
}

/// The icons for these words.
pub open spec fn word_icons() -> Seq<Seq<char>> {
    seq!["🌱"@, "🧀"@, "🍗"@, "🍔"@, "🐟"@, "🍝"@, "🥕"@, "➕"@, "♿️"@]
}

/// A name has the icon of the first word that it holds, and the plate if it holds none.
pub proof fn law_icon(name: Seq<char>, k: int)
    requires
        0 <= k <= 9,
        forall|j: int| 0 <= j < k ==> !contains_text(name, #[trigger] icon_words()[j]),
        k < 9 ==> contains_text(name, icon_words()[k]),
    ensures
        icon_text(name) == if k < 9 {
            word_icons()[k]
        } else {
            "🍽️"@
        },
{
    let words = icon_words();
    assert(words[0] == "vegan"@ && words[1] == "vegetarisch"@ && words[2] == "fleisch"@ && words[3]
        == "grill"@ && words[4] == "fisch"@ && words[5] == "pastateller"@ && words[6] == "gemüse"@
        && words[7] == "sättigung"@ && words[8] == "schneller teller"@);
}

/// Each of five moons shows how much of its star is reached, to the nearest quarter: moon `i` is for
/// what the rating has above `i` whole stars.
pub proof fn law_moon(eighths: int, i: int)
    requires
        0 <= eighths < 40,
        0 <= i < 5,
    ensures
        stars_text(eighths).len() == 5,
        ({
            let part = eighths - 8 * i;
            stars_text(eighths)[i] == if part >= 7 {
                '🌕'
            } else if part >= 5 {
                '🌖'
            } else if part >= 3 {
                '🌗'
            } else if part >= 1 {
                '🌘'
            } else {
                '🌑'
            }
        }),
{
}

/// From five stars on, there is a full moon for every whole star.
pub proof fn law_full_moons(eighths: int)
    requires
        eighths >= 40,
    ensures
        stars_text(eighths).len() == eighths / 8,
        forall|i: int| 0 <= i < eighths / 8 ==> #[trigger] stars_text(eighths)[i] == '🌕',
{
}

// ---------------------------------------------------------------------------------------------
// Dishes
// ---------------------------------------------------------------------------------------------

/// Whether an ingredient is known.
pub open spec fn is_ingredient() -> spec_fn(Seq<char>) -> bool {
    |text: Seq<char>| text.len() > 0 && text != "N/A"@
}

/// The ingredients that a description names: what stands between its dots, without the blanks around
/// it, as far as it is known.
pub open spec fn ingredients_named(description: Seq<char>) -> Seq<Seq<char>> {
    parts(description, '·').map_values(|part: Seq<char>| trimmed(part)).filter(is_ingredient())
}

proof fn lemma_ingredients(list: Seq<Seq<char>>, n: int)
    requires
        0 <= n <= list.len(),
    ensures
        ingredient_lines(list, n) == list.take(n).map_values(
            |part: Seq<char>| trimmed(part),
        ).filter(is_ingredient()).map_values(|text: Seq<char>| ingredient_line(text)).flatten(),
    decreases n,
{
    reveal(Seq::filter);
    let all = list.take(n).map_values(|part: Seq<char>| trimmed(part));
    let known = all.filter(is_ingredient());
    let lines = known.map_values(|text: Seq<char>| ingredient_line(text));
    if n == 0 {
        assert(known.len() == 0);
        assert(lines.flatten() == Seq::<char>::empty());
    } else {
        lemma_ingredients(list, n - 1);
        let before = list.take(n - 1).map_values(|part: Seq<char>| trimmed(part));
        let text = trimmed(list[n - 1]);
        assert(all.drop_last() == before);
        assert(all.last() == text);
        let known_before = before.filter(is_ingredient());
        let lines_before = known_before.map_values(|t: Seq<char>| ingredient_line(t));
        if is_ingredient()(text) {
            assert(known == known_before.push(text));
            assert(lines == lines_before.push(ingredient_line(text)));
            lines_before.lemma_flatten_push(ingredient_line(text));
        } else {
            assert(known == known_before);
            assert(ingredient_lines(list, n) == ingredient_lines(list, n - 1));
        }
    }
}

/// Each thing that is known of a dish has a line of its own, in this order: the name, every ingredient
/// that its description names, the allergens, the price, and the rating. Nothing else is shown of it.
/// The allergens are left out where they are not wanted or not known, the price where it is shown for
/// all dishes together, and the rating where nobody has voted.
pub proof fn law_mm_dish(meal: MensiMeal, price_is_shared: bool, wants_allergens: bool)
    ensures
        ({
            let name = " • "@ + underline_text(meal.name@) + "\n"@;
            let ingredients = ingredients_named(meal.description@).map_values(
                |text: Seq<char>| ingredient_line(text),
            ).flatten();
            let allergens = if !wants_allergens || meal.allergens@ == "N/A"@ {
                Seq::empty()
            } else {
                "    ⓘ "@ + meal.allergens@ + "\n"@
            };
            let price = if price_is_shared {
                Seq::empty()
            } else {
                "   "@ + meal.price@ + "\n"@
            };
            let rating = if meal.votes == 0 {
                Seq::empty()
            } else {
                "    Bewertung: "@ + stars_text(meal.rating_eighths as int) + " ("@
                    + meal.rating_text@ + ")\n"@
            };
            mm_meal_text(meal, price_is_shared, wants_allergens) == name + ingredients + allergens
                + price + rating
        }),
{
    let list = parts(meal.description@, '·');
    lemma_ingredients(list, list.len() as int);
    assert(list.take(list.len() as int) == list);
}

/// Every part of a description that is neither empty nor unknown is one of the ingredients that have a
/// line, and every line is for such a part. There are as many lines as such parts.
pub proof fn law_ingredients(description: Seq<char>, k: int)
    requires
        0 <= k < parts(description, '·').len(),
    ensures
        ({
            let text = trimmed(parts(description, '·')[k]);
            ingredients_named(description).contains(text) <==> text.len() > 0 && text != "N/A"@
        }),
        forall|j: int|
            0 <= j < ingredients_named(description).len() ==> exists|i: int|
                0 <= i < parts(description, '·').len() && trimmed(
                    #[trigger] parts(description, '·')[i],
                ) == #[trigger] ingredients_named(description)[j],
{
    let all = parts(description, '·').map_values(|part: Seq<char>| trimmed(part));
    let known = all.filter(is_ingredient());
    let text = trimmed(parts(description, '·')[k]);
    assert(all[k] == text);
    if is_ingredient()(text) {
        all.lemma_filter_contains(is_ingredient(), k);
    }
    if known.contains(text) {
        let j = choose|j: int| 0 <= j < known.len() && known[j] == text;
        all.lemma_filter_pred(is_ingredient(), j);
    }
    assert forall|j: int| 0 <= j < known.len() implies exists|i: int|
        0 <= i < parts(description, '·').len() && trimmed(#[trigger] parts(description, '·')[i])
            == #[trigger] known[j] by {
        assert(known.contains(known[j]));
        all.lemma_filter_contains_rev(is_ingredient(), known[j]);
        let i = choose|i: int| 0 <= i < all.len() && all[i] == known[j];
        assert(trimmed(parts(description, '·')[i]) == known[j]);
    }
}

/// Every ingredient that the description of a dish names has its line among those of the dish.
pub proof fn law_every_ingredient_is_shown(
    meal: MensiMeal,
    price_is_shared: bool,
    wants_allergens: bool,
    k: int,
)
    requires
        0 <= k < parts(meal.description@, '·').len(),
        trimmed(parts(meal.description@, '·')[k]).len() > 0,
        trimmed(parts(meal.description@, '·')[k]) != "N/A"@,
    ensures
        contains_text(
            mm_meal_text(meal, price_is_shared, wants_allergens),
            ingredient_line(trimmed(parts(meal.description@, '·')[k])),
        ),
{
    reveal_strlit("\n");
    let text = trimmed(parts(meal.description@, '·')[k]);
    law_ingredients(meal.description@, k);
    law_mm_dish(meal, price_is_shared, wants_allergens);
    let named = ingredients_named(meal.description@);
    let lines = named.map_values(|t: Seq<char>| ingredient_line(t));
    let j = choose|j: int| 0 <= j < named.len() && named[j] == text;
    lemma_one_of_many(lines, j);
    let before = lines.take(j).flatten();
    let after = lines.skip(j + 1).flatten();
    let name = " • "@ + underline_text(meal.name@) + "\n"@;
    let list = parts(meal.description@, '·');
    lemma_ingredients(list, list.len() as int);
    assert(list.take(list.len() as int) == list);
    let rest = allergen_line(meal.allergens@, wants_allergens) + price_line(
        !price_is_shared,
        "   "@,
        meal.price@,
    ) + rating_line(meal);
    let a = name + before;
    let b = after + rest;
    assert(mm_meal_text(meal, price_is_shared, wants_allergens) == a + ingredient_line(text) + b);
    crate::laws::text_laws::law_found(a, ingredient_line(text), b);
}

// ---------------------------------------------------------------------------------------------
// Categories
// ---------------------------------------------------------------------------------------------

/// Whether a dish belongs to a category.
pub open spec fn belongs_to(category: Seq<char>) -> spec_fn(MensiMeal) -> bool {
    |meal: MensiMeal| meal.category@ == category
}

/// The dishes of a category, in the order of the plan.
pub open spec fn dishes_of(meals: Seq<MensiMeal>, category: Seq<char>) -> Seq<MensiMeal> {
    meals.filter(belongs_to(category))
}

/// Whether any two dishes cost the same.
pub open spec fn any_two_cost_the_same(meals: Seq<MensiMeal>) -> bool {
    forall|i: int, j: int|
        0 <= i < meals.len() && 0 <= j < meals.len() ==> (#[trigger] meals[i]).price@ == (
        #[trigger] meals[j]).price@
}

proof fn lemma_members(
    meals: Seq<MensiMeal>,
    n: int,
    category: Seq<char>,
    shared: bool,
    wants: bool,
)
    requires
        0 <= n <= meals.len(),
    ensures
        members_text(meals, n, category, shared, wants) == dishes_of(
            meals.take(n),
            category,
        ).map_values(|m: MensiMeal| mm_meal_text(m, shared, wants)).flatten(),
    decreases n,
{
    reveal(Seq::filter);
    let mine = dishes_of(meals.take(n), category);
    let texts = mine.map_values(|m: MensiMeal| mm_meal_text(m, shared, wants));
    if n == 0 {
        assert(mine.len() == 0);
        assert(texts.flatten() == Seq::<char>::empty());
    } else {
        lemma_members(meals, n - 1, category, shared, wants);
        let meal = meals[n - 1];
        assert(meals.take(n).drop_last() == meals.take(n - 1));
        assert(meals.take(n).last() == meal);
        let before = dishes_of(meals.take(n - 1), category);
        let texts_before = before.map_values(|m: MensiMeal| mm_meal_text(m, shared, wants));
        if meal.category@ == category {
            assert(mine == before.push(meal));
            assert(texts == texts_before.push(mm_meal_text(meal, shared, wants)));
            texts_before.lemma_flatten_push(mm_meal_text(meal, shared, wants));
        } else {
            assert(mine == before);
            assert(members_text(meals, n, category, shared, wants) == members_text(
                meals,
                n - 1,
                category,
                shared,
                wants,
            ));
        }
    }
}

/// The first dish of a category is the first one that belongs to it.
pub proof fn lemma_first_dish(meals: Seq<MensiMeal>, category: Seq<char>)
    requires
        dishes_of(meals, category).len() > 0,
    ensures
        0 <= first_member(meals, category) < meals.len(),
        meals[first_member(meals, category)] == dishes_of(meals, category)[0],
    decreases meals.len(),
{
    reveal(Seq::filter);
    if meals.len() > 0 {
        let rest = meals.skip(1);
        let one = seq![meals[0]];
        assert(meals == one + rest);
        Seq::filter_distributes_over_add(one, rest, belongs_to(category));
        assert(one.drop_last().len() == 0);
        assert(one.drop_last().filter(belongs_to(category)) == Seq::<MensiMeal>::empty());
        if meals[0].category@ == category {
            assert(one.filter(belongs_to(category)) == one);
        } else {
            assert(one.filter(belongs_to(category)).len() == 0);
            assert(dishes_of(meals, category) == dishes_of(rest, category));
            lemma_first_dish(rest, category);
        }
    }
}

/// A dish costs what the first of its category costs, for all of them, if and only if any two of them
/// cost the same.
pub proof fn lemma_one_price(meals: Seq<MensiMeal>, category: Seq<char>)
    requires
        dishes_of(meals, category).len() > 0,
    ensures
        category_one_price(meals, category) <==> any_two_cost_the_same(dishes_of(meals, category)),
{
    let mine = dishes_of(meals, category);
    lemma_first_dish(meals, category);
    if any_two_cost_the_same(mine) {
        assert forall|i: int|
            0 <= i < meals.len() && (#[trigger] meals[i]).category@ == category implies
            meals[i].price@ == meals[first_member(meals, category)].price@ by {
            meals.lemma_filter_contains(belongs_to(category), i);
            let j = choose|j: int| 0 <= j < mine.len() && mine[j] == meals[i];
            assert(mine[j].price@ == mine[0].price@);
        }
    }
    if category_one_price(meals, category) {
        assert forall|i: int, j: int| 0 <= i < mine.len() && 0 <= j < mine.len() implies (
        #[trigger] mine[i]).price@ == (#[trigger] mine[j]).price@ by {
            lemma_member_price(meals, category, i);
            lemma_member_price(meals, category, j);
        }
    }
}

proof fn lemma_member_price(meals: Seq<MensiMeal>, category: Seq<char>, i: int)
    requires
        0 <= i < dishes_of(meals, category).len(),
        category_one_price(meals, category),
    ensures
        dishes_of(meals, category)[i].price@ == meals[first_member(meals, category)].price@,
{
    let mine = dishes_of(meals, category);
    meals.lemma_filter_pred(belongs_to(category), i);
    assert(mine.contains(mine[i]));
    meals.lemma_filter_contains_rev(belongs_to(category), mine[i]);
    let k = choose|k: int| 0 <= k < meals.len() && meals[k] == mine[i];
    assert(meals[k].category@ == category);
}

/// A category is its icon and its name, and then its dishes in turn; those of other categories do not
/// count. Where any two of its dishes cost the same, the price of any of them, `k`, is shown once, at
/// the end; where two do not, each dish has its own.
pub proof fn law_mm_category(
    meals: Seq<MensiMeal>,
    category: Seq<char>,
    wants_allergens: bool,
    k: int,
)
    requires
        0 <= k < dishes_of(meals, category).len(),
    ensures
        ({
            let mine = dishes_of(meals, category);
            let head = "\n"@ + icon_text(lowercase(category)) + " "@ + bold_text(category) + "\n"@;
            category_text(meals, category, wants_allergens) == if any_two_cost_the_same(mine) {
                head + mine.map_values(
                    |m: MensiMeal| mm_meal_text(m, true, wants_allergens),
                ).flatten() + ("  "@ + mine[k].price@ + "\n"@)
            } else {
                head + mine.map_values(
                    |m: MensiMeal| mm_meal_text(m, false, wants_allergens),
                ).flatten()
            }
        }),
{
    let mine = dishes_of(meals, category);
    let shared = category_one_price(meals, category);
    lemma_one_price(meals, category);
    lemma_first_dish(meals, category);
    lemma_members(meals, meals.len() as int, category, shared, wants_allergens);
    assert(meals.take(meals.len() as int) == meals);
    let head = "\n"@ + icon_text(lowercase(category)) + " "@ + bold_text(category) + "\n"@;
    if shared {
        assert(mine[0].price@ == mine[k].price@);
    } else {
        let text = head + mine.map_values(
            |m: MensiMeal| mm_meal_text(m, false, wants_allergens),
        ).flatten();
        assert(text + Seq::<char>::empty() == text);
    }
}

proof fn lemma_categories(
    meals: Seq<MensiMeal>,
    categories: Seq<Seq<char>>,
    n: int,
    wants: bool,
)
    requires
        0 <= n <= categories.len(),
    ensures
        all_categories_text(meals, categories, n, wants) == categories.take(n).map_values(
            |c: Seq<char>| category_text(meals, c, wants),
        ).flatten(),
    decreases n,
{
    let texts = categories.take(n).map_values(|c: Seq<char>| category_text(meals, c, wants));
    if n == 0 {
        assert(texts.flatten() == Seq::<char>::empty());
    } else {
        lemma_categories(meals, categories, n - 1, wants);
        let before = categories.take(n - 1).map_values(
            |c: Seq<char>| category_text(meals, c, wants),
        );
        let last = category_text(meals, categories[n - 1], wants);
        assert(texts == before.push(last));
        before.lemma_flatten_push(last);
    }
}

proof fn lemma_dish_whole(meal: MensiMeal, shared: bool, wants: bool)
    ensures
        whole_lines(mm_meal_text(meal, shared, wants)),
{
    reveal_strlit("\n");
    reveal_strlit(")\n");
    let list = parts(meal.description@, '·');
    lemma_ingredients_whole(list, list.len() as int);
}

proof fn lemma_ingredients_whole(list: Seq<Seq<char>>, n: int)
    ensures
        whole_lines(ingredient_lines(list, n)),
    decreases n,
{
    reveal_strlit("\n");
    if n > 0 {
        lemma_ingredients_whole(list, n - 1);
    }
}

proof fn lemma_category_whole(meals: Seq<MensiMeal>, category: Seq<char>, wants: bool)
    requires
        dishes_of(meals, category).len() > 0,
    ensures
        whole_lines(category_text(meals, category, wants)),
        category_text(meals, category, wants).len() > 0,
        category_text(meals, category, wants)[0] == '\n',
{
    reveal_strlit("\n");
    let mine = dishes_of(meals, category);
    law_mm_category(meals, category, wants, 0);
    let shared = any_two_cost_the_same(mine);
    let texts = mine.map_values(|m: MensiMeal| mm_meal_text(m, shared, wants));
    assert forall|i: int| 0 <= i < texts.len() implies whole_lines(#[trigger] texts[i]) by {
        lemma_dish_whole(mine[i], shared, wants);
    }
    lemma_lines_sent(texts);
    let head = "\n"@ + icon_text(lowercase(category)) + " "@ + bold_text(category) + "\n"@;
    assert(head[0] == '\n');
    assert(category_text(meals, category, wants)[0] == head[0]);
    assert(whole_lines(head + texts.flatten()));
}

/// A category of a plan has a dish.
pub proof fn lemma_category_has_dish(meals: Seq<MensiMeal>, c: int)
    requires
        0 <= c < categories_of(meals, meals.len() as int).len(),
    ensures
        dishes_of(meals, categories_of(meals, meals.len() as int)[c]).len() > 0,
{
    let all = categories_of(meals, meals.len() as int);
    law_categories(meals, meals.len() as int);
    assert(all.contains(all[c]));
    let i = choose|i: int| 0 <= i < meals.len() && #[trigger] meals[i].category@ == all[c];
    meals.lemma_filter_contains(belongs_to(all[c]), i);
    assert(dishes_of(meals, all[c]).contains(meals[i]));
}

/// The categories of a plan are those that its dishes have, each of them once. Of two of them, the one
/// that has the smaller character where they first differ comes first, and so does one that the other
/// goes on from.
pub proof fn law_category_order(meals: Seq<MensiMeal>, i: int, j: int, same: int, dish: int)
    requires
        0 <= i < j < categories_of(meals, meals.len() as int).len(),
        0 <= dish < meals.len(),
        ({
            let all = categories_of(meals, meals.len() as int);
            &&& 0 <= same <= all[i].len()
            &&& same <= all[j].len()
            &&& forall|k: int| 0 <= k < same ==> all[i][k] == all[j][k]
            &&& same < all[i].len() && same < all[j].len() ==> all[i][same] != all[j][same]
        }),
    ensures
        ({
            let all = categories_of(meals, meals.len() as int);
            &&& same < all[j].len()
            &&& same < all[i].len() ==> all[i][same] < all[j][same]
            &&& all[i] != all[j]
            &&& all.contains(meals[dish].category@)
            &&& exists|k: int| 0 <= k < meals.len() && #[trigger] meals[k].category@ == all[i]
        }),
{
    let all = categories_of(meals, meals.len() as int);
    law_categories(meals, meals.len() as int);
    assert(comes_before(all[i], all[j]));
    law_dictionary(all[i], all[j], same);
    assert(all.contains(all[i]));
    if all[i] == all[j] {
        lemma_order_irreflexive(all[i]);
    }
}

/// A message is the head of its plan and then every category in turn, in the order of the dictionary.
/// A plan without dishes is the head and the news that there is nothing to show; in place of a plan
/// that could not be had stands what the service had to say.
pub proof fn law_mm_message(
    meals: Vec<MensiMeal>,
    error: String,
    day: RequestedDay,
    days_forward: int,
    wants_allergens: bool,
    emoji_index: int,
)
    ensures
        ({
            let head = head_text(emoji_text(emoji_index), day, days_forward);
            let categories = categories_of(meals@, meals@.len() as int);
            &&& mm_message(Ok(meals), day, days_forward, wants_allergens, emoji_index)
                == if meals@.len() == 0 {
                sendable(head + "*\nkeine Daten vorhanden.\n*"@)
            } else {
                sendable(head) + categories.map_values(
                    |c: Seq<char>| sendable(category_text(meals@, c, wants_allergens)),
                ).flatten()
            }
            &&& mm_message(Err(error), day, days_forward, wants_allergens, emoji_index)
                == sendable(
                head + "*\nMensiMates-Abfrage fehlgeschlagen:\n*"@ + replaced(
                    error@,
                    "_"@,
                    "\\_"@,
                ),
            )
        }),
{
    let head = head_text(emoji_text(emoji_index), day, days_forward);
    let n = meals@.len() as int;
    reveal_strlit("\nMensiMates-Abfrage fehlgeschlagen:\n");
    reveal_strlit("*\nMensiMates-Abfrage fehlgeschlagen:\n*");
    assert(bold_text("\nMensiMates-Abfrage fehlgeschlagen:\n"@)
        == "*\nMensiMates-Abfrage fehlgeschlagen:\n*"@);
    let said = replaced(error@, "_"@, "\\_"@);
    assert(head + ("*\nMensiMates-Abfrage fehlgeschlagen:\n*"@ + said) == head
        + "*\nMensiMates-Abfrage fehlgeschlagen:\n*"@ + said);
    if n == 0 {
        reveal_strlit("\nkeine Daten vorhanden.\n");
        reveal_strlit("*\nkeine Daten vorhanden.\n*");
        assert(bold_text("\nkeine Daten vorhanden.\n"@) == "*\nkeine Daten vorhanden.\n*"@);
    } else {
        let categories = categories_of(meals@, n);
        let texts = categories.map_values(
            |c: Seq<char>| category_text(meals@, c, wants_allergens),
        );
        lemma_categories(meals@, categories, categories.len() as int, wants_allergens);
        assert(categories.take(categories.len() as int) == categories);
        assert forall|i: int| 0 <= i < texts.len() implies whole_lines(#[trigger] texts[i]) by {
            lemma_category_has_dish(meals@, i);
            lemma_category_whole(meals@, categories[i], wants_allergens);
        }
        lemma_lines_sent(texts);
        law_categories(meals@, n);
        assert(categories.contains(meals@[0].category@));
        lemma_category_has_dish(meals@, 0);
        lemma_category_whole(meals@, categories[0], wants_allergens);
        lemma_one_of_many(texts, 0);
        assert(texts.take(0).flatten() == Seq::<char>::empty());
        let plan = texts.flatten();
        assert(plan[0] == texts[0][0]);
        lemma_sent_before_break(head, plan);
        assert(texts.map_values(|t: Seq<char>| sendable(t)) == categories.map_values(
            |c: Seq<char>| sendable(category_text(meals@, c, wants_allergens)),
        ));
    }
}

/// The price of every dish stands in the message. It stands below the dish unless any two dishes of
/// its category cost the same.
pub proof fn law_mm_every_price_is_shown(
    meals: Vec<MensiMeal>,
    day: RequestedDay,
    days_forward: int,
    wants_allergens: bool,
    emoji_index: int,
    i: int,
)
    requires
        0 <= i < meals@.len(),
    ensures
        ({
            let meal = meals@[i];
            let indent = if any_two_cost_the_same(dishes_of(meals@, meal.category@)) {
                "  "@
            } else {
                "   "@
            };
            contains_text(
                mm_message(Ok(meals), day, days_forward, wants_allergens, emoji_index),
                sendable(indent + meal.price@ + "\n"@),
            )
        }),
{
    let meal = meals@[i];
    let c = meal.category@;
    let mine = dishes_of(meals@, c);
    meals@.lemma_filter_contains(belongs_to(c), i);
    let k = choose|k: int| 0 <= k < mine.len() && mine[k] == meal;
    lemma_price_sent(meals@, c, wants_allergens, k);
    let indent = if any_two_cost_the_same(mine) {
        "  "@
    } else {
        "   "@
    };
    let line = indent + meal.price@ + "\n"@;
    let n = meals@.len() as int;
    let categories = categories_of(meals@, n);
    law_categories(meals@, n);
    assert(categories.contains(c));
    let g = choose|g: int| 0 <= g < categories.len() && categories[g] == c;
    law_mm_message(
        meals,
        arbitrary(),
        day,
        days_forward,
        wants_allergens,
        emoji_index,
    );
    let sent = categories.map_values(
        |x: Seq<char>| sendable(category_text(meals@, x, wants_allergens)),
    );
    lemma_one_of_many(sent, g);
    let part = sendable(category_text(meals@, c, wants_allergens));
    assert(sent[g] == part);
    let start = sendable(head_text(emoji_text(emoji_index), day, days_forward))
        + sent.take(g).flatten();
    let after = sent.skip(g + 1).flatten();
    let message = mm_message(Ok(meals), day, days_forward, wants_allergens, emoji_index);
    assert(message == start + part + after);
    lemma_found_in_part(start, part, after, sendable(line));
}

proof fn lemma_price_sent(meals: Seq<MensiMeal>, category: Seq<char>, wants: bool, k: int)
    requires
        0 <= k < dishes_of(meals, category).len(),
    ensures
        ({
            let mine = dishes_of(meals, category);
            let indent = if any_two_cost_the_same(mine) {
                "  "@
            } else {
                "   "@
            };
            contains_text(
                sendable(category_text(meals, category, wants)),
                sendable(indent + mine[k].price@ + "\n"@),
            )
        }),
{
    if any_two_cost_the_same(dishes_of(meals, category)) {
        lemma_shared_price_sent(meals, category, wants, k);
    } else {
        lemma_own_price_sent(meals, category, wants, k);
    }
}

proof fn lemma_shared_price_sent(meals: Seq<MensiMeal>, category: Seq<char>, wants: bool, k: int)
    requires
        0 <= k < dishes_of(meals, category).len(),
        any_two_cost_the_same(dishes_of(meals, category)),
    ensures
        contains_text(
            sendable(category_text(meals, category, wants)),
            sendable("  "@ + dishes_of(meals, category)[k].price@ + "\n"@),
        ),
{
    reveal_strlit("\n");
    let mine = dishes_of(meals, category);
    law_mm_category(meals, category, wants, k);
    let head = "\n"@ + icon_text(lowercase(category)) + " "@ + bold_text(category) + "\n"@;
    assert(whole_lines(head));
    let texts = mine.map_values(|m: MensiMeal| mm_meal_text(m, true, wants));
    assert forall|i: int| 0 <= i < texts.len() implies whole_lines(#[trigger] texts[i]) by {
        lemma_dish_whole(mine[i], true, wants);
    }
    lemma_lines_sent(texts);
    let a = head + texts.flatten();
    let line = "  "@ + mine[k].price@ + "\n"@;
    assert(whole_lines(a));
    assert(whole_lines(line));
    assert(category_text(meals, category, wants) == a + line + Seq::<char>::empty());
    lemma_line_is_sent(a, line, Seq::empty());
}

proof fn lemma_own_price_sent(meals: Seq<MensiMeal>, category: Seq<char>, wants: bool, k: int)
    requires
        0 <= k < dishes_of(meals, category).len(),
        !any_two_cost_the_same(dishes_of(meals, category)),
    ensures
        contains_text(
            sendable(category_text(meals, category, wants)),
            sendable("   "@ + dishes_of(meals, category)[k].price@ + "\n"@),
        ),
{
    reveal_strlit("\n");
    let mine = dishes_of(meals, category);
    law_mm_category(meals, category, wants, k);
    let head = "\n"@ + icon_text(lowercase(category)) + " "@ + bold_text(category) + "\n"@;
    assert(whole_lines(head));
    let texts = mine.map_values(|m: MensiMeal| mm_meal_text(m, false, wants));
    assert forall|i: int| 0 <= i < texts.len() implies whole_lines(#[trigger] texts[i]) by {
        lemma_dish_whole(mine[i], false, wants);
    }
    let meal = mine[k];
    let first = lemma_before_price(meal, wants);
    let line = "   "@ + meal.price@ + "\n"@;
    assert(whole_lines(line));
    assert(texts[k] == first + line + rating_line(meal));
    lemma_line_of_one_is_sent(head, texts, k, first, line, rating_line(meal));
}

proof fn lemma_before_price(meal: MensiMeal, wants: bool) -> (first: Seq<char>)
    ensures
        whole_lines(first),
        mm_meal_text(meal, false, wants) == first + ("   "@ + meal.price@ + "\n"@) + rating_line(meal),
{
    reveal_strlit("\n");
    let list = parts(meal.description@, '·');
    lemma_ingredients_whole(list, list.len() as int);
    line_text(" • "@, underline_text(meal.name@)) + ingredient_lines(list, list.len() as int)
        + allergen_line(meal.allergens@, wants)
}

} // verus!
