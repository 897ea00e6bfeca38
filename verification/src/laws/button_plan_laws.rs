//! Plans in the messages with day buttons.
use crate::button_bot::stuwe_parser::{
    categories_text, category_text, emoji_text, head_text, ingredient_lines, json_address,
    meal_message, meal_text, members_text, mensa_list, sendable, EMOJI_COUNT,
};
use crate::calendar::{CalendarDate, RequestedDay};
use crate::data_backend::mm_parser::{categories_of, category_one_price};
use crate::data_backend::{german_date, iso_date, line_text};
use crate::data_types::mm_data_types::MensiMeal;
use crate::laws::mm_laws::{any_two_cost_the_same, dishes_of, lemma_first_dish, lemma_one_price};
use crate::laws::plan_laws::{ingredient_line, lemma_one_of_many};
use crate::laws::text_laws::{law_exchange, law_found, law_no_exchange};
use crate::markdown::{bold_text, escaped, italic_text, underline_text};
use crate::text::{contains_text, parts, stands_at, trimmed};
use vstd::prelude::*;

verus! {

/// A plan starts with its day in italics between two emojis that are the same. Where today's plan was
/// asked for, and it is one for a later day, the day is followed by a hint which one that is.
pub proof fn law_button_head(day: RequestedDay, days_forward: int, emoji_index: int)
    requires
        0 <= emoji_index < EMOJI_COUNT,
    ensures
        ({
            let emoji = seq!["☀️"@, "🦀"@, "💂🏻‍♀️"@, "☕️"@, "🍽️"@, "☝🏻"@, "🌤️"@][emoji_index];
            let hint = if days_forward != 0 || day.raised == 0 || day.raised > 2 {
                Seq::empty()
            } else if day.raised == 1 {
                " (Morgen)"@
            } else {
                " (Übermorgen)"@
            };
            head_text(emoji_text(emoji_index), day, days_forward) == emoji + " "@ + italic_text(
                german_date(day.date),
            ) + hint + " "@ + emoji + "\n"@
        }),
{
}

/// Whether something that a description names is known.
pub open spec fn is_known() -> spec_fn(Seq<char>) -> bool {
    |text: Seq<char>| text != "N/A"@
}

/// What a description names: what stands between its ampersands, without the blanks around it, unless
/// it is said to be unknown.
pub open spec fn things_named(description: Seq<char>) -> Seq<Seq<char>> {
    parts(description, '&').map_values(|part: Seq<char>| trimmed(part)).filter(is_known())
}

proof fn lemma_ingredients(list: Seq<Seq<char>>, n: int)
    requires
        0 <= n <= list.len(),
    ensures
        ingredient_lines(list, n) == list.take(n).map_values(
            |part: Seq<char>| trimmed(part),
        ).filter(is_known()).map_values(|text: Seq<char>| ingredient_line(text)).flatten(),
    decreases n,
{
    reveal(Seq::filter);
    let all = list.take(n).map_values(|part: Seq<char>| trimmed(part));
    let known = all.filter(is_known());
    let lines = known.map_values(|text: Seq<char>| ingredient_line(text));
    if n == 0 {
        assert(known.len() == 0);
        assert(lines.flatten() == Seq::<char>::empty());
    } else {
        lemma_ingredients(list, n - 1);
        let before = list.take(n - 1).map_values(|part: Seq<char>| trimmed(part));
        let text = trimmed(list[n - 1]);
        assert(all.drop_last() == before);
        assert(all.last() == text);
        let known_before = before.filter(is_known());
        let lines_before = known_before.map_values(|t: Seq<char>| ingredient_line(t));
        if is_known()(text) {
            assert(known == known_before.push(text));
            assert(lines == lines_before.push(ingredient_line(text)));
            lines_before.lemma_flatten_push(ingredient_line(text));
        } else {
            assert(known == known_before);
            assert(ingredient_lines(list, n) == ingredient_lines(list, n - 1));
        }
    }
}

/// A dish is shown by its name, a line for each thing that its description names, and its price unless
/// that is shown for all dishes together.
pub proof fn law_button_dish(meal: MensiMeal)
    ensures
        ({
            let shown = " • "@ + underline_text(meal.name@) + "\n"@ + things_named(
                meal.description@,
            ).map_values(|text: Seq<char>| ingredient_line(text)).flatten();
            &&& meal_text(meal, true) == shown
            &&& meal_text(meal, false) == shown + ("  "@ + meal.price@ + "\n"@)
        }),
{
    let list = parts(meal.description@, '&');
    lemma_ingredients(list, list.len() as int);
    assert(list.take(list.len() as int) == list);
    let shown = line_text(" • "@, underline_text(meal.name@)) + ingredient_lines(
        list,
        list.len() as int,
    );
    assert(shown + Seq::<char>::empty() == shown);
}

/// Everything that a description names and that is not said to be unknown has a line, and nothing else
/// has one.
pub proof fn law_things_named(description: Seq<char>, k: int)
    requires
        0 <= k < parts(description, '&').len(),
    ensures
        ({
            let text = trimmed(parts(description, '&')[k]);
            things_named(description).contains(text) <==> text != "N/A"@
        }),
        forall|j: int|
            0 <= j < things_named(description).len() ==> exists|i: int|
                0 <= i < parts(description, '&').len() && trimmed(
                    #[trigger] parts(description, '&')[i],
                ) == #[trigger] things_named(description)[j],
{
    let all = parts(description, '&').map_values(|part: Seq<char>| trimmed(part));
    let known = all.filter(is_known());
    let text = trimmed(parts(description, '&')[k]);
    assert(all[k] == text);
    if is_known()(text) {
        all.lemma_filter_contains(is_known(), k);
    }
    if known.contains(text) {
        let j = choose|j: int| 0 <= j < known.len() && known[j] == text;
        all.lemma_filter_pred(is_known(), j);
    }
    assert forall|j: int| 0 <= j < known.len() implies exists|i: int|
        0 <= i < parts(description, '&').len() && trimmed(#[trigger] parts(description, '&')[i])
            == #[trigger] known[j] by {
        assert(known.contains(known[j]));
        all.lemma_filter_contains_rev(is_known(), known[j]);
        let i = choose|i: int| 0 <= i < all.len() && all[i] == known[j];
        assert(trimmed(parts(description, '&')[i]) == known[j]);
    }
}

proof fn lemma_members(meals: Seq<MensiMeal>, n: int, category: Seq<char>, shared: bool)
    requires
        0 <= n <= meals.len(),
    ensures
        members_text(meals, n, category, shared) == dishes_of(meals.take(n), category).map_values(
            |m: MensiMeal| meal_text(m, shared),
        ).flatten(),
    decreases n,
{
    reveal(Seq::filter);
    let mine = dishes_of(meals.take(n), category);
    let texts = mine.map_values(|m: MensiMeal| meal_text(m, shared));
    if n == 0 {
        assert(mine.len() == 0);
        assert(texts.flatten() == Seq::<char>::empty());
    } else {
        lemma_members(meals, n - 1, category, shared);
        let meal = meals[n - 1];
        assert(meals.take(n).drop_last() == meals.take(n - 1));
        assert(meals.take(n).last() == meal);
        let before = dishes_of(meals.take(n - 1), category);
        let texts_before = before.map_values(|m: MensiMeal| meal_text(m, shared));
        if meal.category@ == category {
            assert(mine == before.push(meal));
            assert(texts == texts_before.push(meal_text(meal, shared)));
            texts_before.lemma_flatten_push(meal_text(meal, shared));
        } else {
            assert(mine == before);
            assert(members_text(meals, n, category, shared) == members_text(
                meals,
                n - 1,
                category,
                shared,
            ));
        }
    }
}

/// A category is its name and then its dishes in turn; those of other categories do not count. Where
/// any two of its dishes cost the same, the price of any of them, `k`, is shown once, at the end;
/// where two do not, each dish has its own.
pub proof fn law_button_category(meals: Seq<MensiMeal>, category: Seq<char>, k: int)
    requires
        0 <= k < dishes_of(meals, category).len(),
    ensures
        ({
            let mine = dishes_of(meals, category);
            let head = "\n"@ + bold_text(category) + "\n"@;
            category_text(meals, category) == if any_two_cost_the_same(mine) {
                head + mine.map_values(|m: MensiMeal| meal_text(m, true)).flatten() + ("  "@
                    + mine[k].price@ + "\n"@)
            } else {
                head + mine.map_values(|m: MensiMeal| meal_text(m, false)).flatten()
            }
        }),
{
    let mine = dishes_of(meals, category);
    let shared = category_one_price(meals, category);
    lemma_one_price(meals, category);
    lemma_first_dish(meals, category);
    lemma_members(meals, meals.len() as int, category, shared);
    assert(meals.take(meals.len() as int) == meals);
    let head = "\n"@ + bold_text(category) + "\n"@;
    if shared {
        assert(mine[0].price@ == mine[k].price@);
    } else {
        let text = head + mine.map_values(|m: MensiMeal| meal_text(m, false)).flatten();
        assert(text + Seq::<char>::empty() == text);
    }
}

/// The price of every dish stands in its category.
pub proof fn law_button_every_price_is_shown(meals: Seq<MensiMeal>, category: Seq<char>, k: int)
    requires
        0 <= k < dishes_of(meals, category).len(),
    ensures
        contains_text(
            category_text(meals, category),
            "  "@ + dishes_of(meals, category)[k].price@ + "\n"@,
        ),
{
    let mine = dishes_of(meals, category);
    law_button_category(meals, category, k);
    let head = "\n"@ + bold_text(category) + "\n"@;
    let line = "  "@ + mine[k].price@ + "\n"@;
    if any_two_cost_the_same(mine) {
        let a = head + mine.map_values(|m: MensiMeal| meal_text(m, true)).flatten();
        law_found(a, line, Seq::empty());
        assert(a + line + Seq::<char>::empty() == a + line);
    } else {
        let texts = mine.map_values(|m: MensiMeal| meal_text(m, false));
        law_button_dish(mine[k]);
        lemma_one_of_many(texts, k);
        let a = head + texts.take(k).flatten() + meal_text(mine[k], true);
        let b = texts.skip(k + 1).flatten();
        assert(texts[k] == meal_text(mine[k], true) + line);
        assert(head + texts.flatten() == a + line + b);
        law_found(a, line, b);
    }
}

proof fn lemma_categories(meals: Seq<MensiMeal>, categories: Seq<Seq<char>>, n: int)
    requires
        0 <= n <= categories.len(),
    ensures
        categories_text(meals, categories, n) == categories.take(n).map_values(
            |c: Seq<char>| category_text(meals, c),
        ).flatten(),
    decreases n,
{
    let texts = categories.take(n).map_values(|c: Seq<char>| category_text(meals, c));
    if n == 0 {
        assert(texts.flatten() == Seq::<char>::empty());
    } else {
        lemma_categories(meals, categories, n - 1);
        let before = categories.take(n - 1).map_values(|c: Seq<char>| category_text(meals, c));
        assert(texts == before.push(category_text(meals, categories[n - 1])));
        before.lemma_flatten_push(category_text(meals, categories[n - 1]));
    }
}

/// A message is the head of its plan and then every category in turn, in the order of the dictionary.
/// Where there is no dish, or no plan, it says so instead.
pub proof fn law_button_message(
    meals: Vec<MensiMeal>,
    day: RequestedDay,
    days_forward: int,
    emoji_index: int,
)
    ensures
        ({
            let head = head_text(emoji_text(emoji_index), day, days_forward);
            let categories = categories_of(meals@, meals@.len() as int);
            &&& meal_message(Some(meals), day, days_forward, emoji_index) == sendable(
                head + if meals@.len() == 0 {
                    "*\nkeine Daten vorhanden.\n*"@
                } else {
                    categories.map_values(|c: Seq<char>| category_text(meals@, c)).flatten()
                },
            )
            &&& meal_message(None, day, days_forward, emoji_index) == sendable(
                head + "*\nMensiMates-Abfrage fehlgeschlagen.\n*"@,
            )
        }),
{
    let categories = categories_of(meals@, meals@.len() as int);
    lemma_categories(meals@, categories, categories.len() as int);
    assert(categories.take(categories.len() as int) == categories);
    reveal_strlit("\nkeine Daten vorhanden.\n");
    reveal_strlit("*\nkeine Daten vorhanden.\n*");
    assert(bold_text("\nkeine Daten vorhanden.\n"@) == "*\nkeine Daten vorhanden.\n*"@);
    reveal_strlit("\nMensiMates-Abfrage fehlgeschlagen.\n");
    reveal_strlit("*\nMensiMates-Abfrage fehlgeschlagen.\n*");
    assert(bold_text("\nMensiMates-Abfrage fehlgeschlagen.\n"@)
        == "*\nMensiMates-Abfrage fehlgeschlagen.\n*"@);
}

/// What is sent is the escaped text, with every ampersand that came as an entity decoded. The first one
/// leaves what stands before it as it is, and what stands behind it is sent as if it stood alone.
pub proof fn law_button_sent(s: Seq<char>, before: Seq<char>, behind: Seq<char>)
    requires
        escaped(s) == before + "&amp;"@ + escaped(behind),
        forall|i: int| 0 <= i < before.len() ==> !#[trigger] stands_at(escaped(s), i, "&amp;"@),
    ensures
        sendable(s) == before + "&"@ + sendable(behind),
{
    reveal_strlit("&amp;");
    law_exchange(before, escaped(behind), "&amp;"@, "&"@);
}

/// A text whose escaped form holds no entity is sent in that form.
pub proof fn law_button_sent_escaped(s: Seq<char>)
    requires
        !contains_text(escaped(s), "&amp;"@),
    ensures
        sendable(s) == escaped(s),
{
    law_no_exchange(escaped(s), "&amp;"@, "&"@);
}

/// Every canteen of the list has an address of its own, which names it and the day: what stands behind
/// the address of the service are the name of the canteen, the word for a day, and the day.
pub proof fn law_canteen_addresses(i: int, date: CalendarDate)
    requires
        0 <= i < 9,
    ensures
        mensa_list().len() == 9,
        ({
            let name = seq![
                "cafeteria_dittrichring"@,
                "mensa_academica"@,
                "mensa_peterssteinweg"@,
                "mensa_schoenauerstr"@,
                "mensa_tierklinik"@,
                "mensa_am_elsterbecken"@,
                "mensa_am_medizincampus"@,
                "mensa_am_park"@,
                "menseria_am_botanischen_garten"@,
            ][i];
            json_address(date, mensa_list()[i].1) == "https://api.olech2412.de/mensaHub/"@ + name
                + "/servingDate/"@ + iso_date(date)
        }),
        mensa_list()[i].0 == seq![
            "Cafeteria Dittrichring"@,
            "Mensa Academica"@,
            "Mensa Peterssteinweg"@,
            "Mensa Schönauer Straße"@,
            "Mensa Tierklinik"@,
            "Mensa am Elsterbecken"@,
            "Mensa am Medizincampus"@,
            "Mensa am Park"@,
            "Mensaria am Botanischen Garten"@,
        ][i],
{
}

} // verus!
