//! Plans from the Studentenwerk, and what all messages with a plan have in common.
use crate::calendar::RequestedDay;
use crate::data_backend::stuwe_parser::{
    group_text, groups_text, ingredients_text, meal_text, meals_text, one_price, optional_line,
    plan_text, price_line, stuwe_message, variation_block, variations_text,
};
use crate::data_backend::{emoji_text, german_date, head_text, line_text, EMOJI_COUNT};
use crate::data_types::stuwe_data_types::{MealGroup, MealVariation, SingleMeal};
use crate::lines::{lemma_sendable_apart, lemma_sent_apart, whole_lines};
use crate::markdown::{bold_text, escaped, italic_text, sendable, underline_text};
use crate::text::{contains_text, stands_at};
use vstd::prelude::*;

verus! {

// ---------------------------------------------------------------------------------------------
// Texts one behind the other
// ---------------------------------------------------------------------------------------------

/// One of some texts stands between those before it and those after it.
pub proof fn lemma_one_of_many(texts: Seq<Seq<char>>, i: int)
    requires
        0 <= i < texts.len(),
    ensures
        texts.flatten() == texts.take(i).flatten() + texts[i] + texts.skip(i + 1).flatten(),
{
    let before = texts.take(i);
    let after = texts.skip(i + 1);
    assert(texts == before.push(texts[i]) + after);
    vstd::seq_lib::lemma_flatten_concat(before.push(texts[i]), after);
    before.lemma_flatten_push(texts[i]);
}

/// Whole lines one behind the other are whole lines, and are sent one behind the other.
pub proof fn lemma_lines_sent(texts: Seq<Seq<char>>)
    requires
        forall|i: int| 0 <= i < texts.len() ==> whole_lines(#[trigger] texts[i]),
    ensures
        whole_lines(texts.flatten()),
        sendable(texts.flatten()) == texts.map_values(|t: Seq<char>| sendable(t)).flatten(),
    decreases texts.len(),
{
    let sent = texts.map_values(|t: Seq<char>| sendable(t));
    if texts.len() == 0 {
        assert(texts.flatten() == Seq::<char>::empty());
        assert(sent.flatten() == Seq::<char>::empty());
        lemma_nothing_sent();
    } else {
        let front = texts.drop_last();
        let last = texts.last();
        lemma_lines_sent(front);
        assert(texts == front.push(last));
        front.lemma_flatten_push(last);
        let front_sent = front.map_values(|t: Seq<char>| sendable(t));
        assert(sent == front_sent.push(sendable(last)));
        front_sent.lemma_flatten_push(sendable(last));
        assert(whole_lines(texts[texts.len() - 1]));
        lemma_sent_apart(front.flatten(), last);
    }
}

/// Of nothing, nothing is sent.
pub proof fn lemma_nothing_sent()
    ensures
        sendable(Seq::<char>::empty()) == Seq::<char>::empty(),
{
    assert(escaped(Seq::<char>::empty()) == Seq::<char>::empty());
}

/// What stands before a line break and the rest are sent one behind the other.
pub proof fn lemma_sent_before_break(a: Seq<char>, b: Seq<char>)
    requires
        b.len() > 0,
        b[0] == '\n',
    ensures
        sendable(a + b) == sendable(a) + sendable(b),
{
    let rest = b.skip(1);
    let nothing = Seq::<char>::empty();
    lemma_nothing_sent();
    assert(a + b == a.push('\n') + rest);
    assert(b == nothing.push('\n') + rest);
    lemma_sendable_apart(a, rest);
    lemma_sendable_apart(nothing, rest);
    assert(sendable(a).push('\n') + sendable(rest) == sendable(a) + (nothing.push('\n') + sendable(
        rest,
    )));
}

/// What stands in a part of a text stands in the text.
pub proof fn lemma_found_in_part(a: Seq<char>, part: Seq<char>, b: Seq<char>, x: Seq<char>)
    requires
        contains_text(part, x),
    ensures
        contains_text(a + part + b, x),
{
    let i = choose|i: int| #[trigger] stands_at(part, i, x);
    let s = a + part + b;
    assert(s.subrange(a.len() + i, a.len() + i + x.len()) == part.subrange(i, i + x.len()));
    assert(stands_at(s, a.len() + i, x));
}

// ---------------------------------------------------------------------------------------------
// The head of a plan
// ---------------------------------------------------------------------------------------------

/// The marks of MarkdownV2 stand directly before and behind a text, which stays as it is. A text that
/// starts with a mark of its own is left out.
pub proof fn law_marks(s: Seq<char>)
    requires
        s.len() == 0 || s[0] != '_',
    ensures
        bold_text(s) == "*"@ + s + "*"@,
        italic_text(s) == "_"@ + s + "_"@,
        underline_text(s) == "__"@ + s + "__"@,
{
    reveal_strlit("*");
    reveal_strlit("_");
    reveal_strlit("__");
}

/// A plan starts with its day between two emojis that are the same. Where today's plan was asked for,
/// and it is one for a later day, it goes on with a hint which day that is.
pub proof fn law_head(day: RequestedDay, days_forward: int, emoji_index: int)
    requires
        0 <= emoji_index < EMOJI_COUNT,
    ensures
        ({
            let emoji = seq!["☀️"@, "🦀"@, "💂🏻‍♀️"@, "☕️"@, "☝🏻"@, "🌤️"@, "🥦"@][emoji_index];
            head_text(emoji_text(emoji_index), day, days_forward) == emoji + " "@ + german_date(
                day.date,
            ) + " "@ + emoji + "\n"@ + if days_forward != 0 || day.raised == 0 || day.raised > 2 {
                Seq::empty()
            } else if day.raised == 1 {
                "_      (Morgen)\n_"@
            } else {
                "_      (Übermorgen)\n_"@
            }
        }),
{
    reveal_strlit("      (Morgen)\n");
    reveal_strlit("      (Übermorgen)\n");
    reveal_strlit("_      (Morgen)\n_");
    reveal_strlit("_      (Übermorgen)\n_");
    assert(italic_text("      (Morgen)\n"@) == "_      (Morgen)\n_"@);
    assert(italic_text("      (Übermorgen)\n"@) == "_      (Übermorgen)\n_"@);
}

// ---------------------------------------------------------------------------------------------
// Dishes
// ---------------------------------------------------------------------------------------------

/// The line of an ingredient.
pub open spec fn ingredient_line(text: Seq<char>) -> Seq<char> {
    "     + "@ + italic_text(text) + "\n"@
}

/// The lines of a variation: its name, and what is said about it, if anything is.
pub open spec fn variation_line(variation: MealVariation) -> Seq<char> {
    "       • "@ + italic_text(variation.name@) + "\n"@ + match variation.allergens_and_add {
        Some(info) => "         ℹ️ "@ + info@ + "\n"@,
        None => Seq::empty(),
    }
}

proof fn lemma_ingredients(ingredients: Seq<String>, n: int)
    requires
        0 <= n <= ingredients.len(),
    ensures
        ingredients_text(ingredients, n) == ingredients.take(n).map_values(
            |x: String| ingredient_line(x@),
        ).flatten(),
    decreases n,
{
    let lines = ingredients.take(n).map_values(|x: String| ingredient_line(x@));
    if n == 0 {
        assert(lines.flatten() == Seq::<char>::empty());
    } else {
        lemma_ingredients(ingredients, n - 1);
        let before = ingredients.take(n - 1).map_values(|x: String| ingredient_line(x@));
        assert(lines == before.push(ingredient_line(ingredients[n - 1]@)));
        before.lemma_flatten_push(ingredient_line(ingredients[n - 1]@));
    }
}

proof fn lemma_variations(variations: Seq<MealVariation>, n: int)
    requires
        0 <= n <= variations.len(),
    ensures
        variations_text(variations, n) == variations.take(n).map_values(
            |v: MealVariation| variation_line(v),
        ).flatten(),
    decreases n,
{
    let lines = variations.take(n).map_values(|v: MealVariation| variation_line(v));
    if n == 0 {
        assert(lines.flatten() == Seq::<char>::empty());
    } else {
        lemma_variations(variations, n - 1);
        let before = variations.take(n - 1).map_values(|v: MealVariation| variation_line(v));
        let v = variations[n - 1];
        assert(lines == before.push(variation_line(v)));
        before.lemma_flatten_push(variation_line(v));
        assert(variations_text(variations, n) == variations_text(variations, n - 1)
            + variation_line(v));
    }
}

/// Each thing that is known of a dish has a line of its own, in this order: the name, every ingredient,
/// the allergens, the price, and below a heading every variation. Nothing else is shown of it. The
/// price is the only thing that is left out where it is shown for all dishes together.
pub proof fn law_dish(meal: SingleMeal)
    ensures
        ({
            let name = " • "@ + underline_text(meal.name@) + "\n"@;
            let ingredients = meal.additional_ingredients@.map_values(
                |x: String| ingredient_line(x@),
            ).flatten();
            let allergens = match meal.allergens {
                Some(text) => "    ℹ️ "@ + text@ + "\n"@,
                None => Seq::empty(),
            };
            let variations = match meal.variations {
                Some(list) => "   → *Variationen:*\n"@ + list@.map_values(
                    |v: MealVariation| variation_line(v),
                ).flatten(),
                None => Seq::empty(),
            };
            let price = "   "@ + meal.price@ + "\n"@;
            &&& meal_text(meal, true) == name + ingredients + allergens + variations
            &&& meal_text(meal, false) == name + ingredients + allergens + price + variations
        }),
{
    let list = meal.additional_ingredients@;
    lemma_ingredients(list, list.len() as int);
    assert(list.take(list.len() as int) == list);
    let nothing = Seq::<char>::empty();
    if let Some(v) = meal.variations {
        lemma_variations(v@, v@.len() as int);
        assert(v@.take(v@.len() as int) == v@);
        reveal_strlit("   → *Variationen:*\n");
        reveal_strlit("   → ");
        reveal_strlit("Variationen:");
        reveal_strlit("\n");
        assert(line_text("   → "@, bold_text("Variationen:"@)) == "   → *Variationen:*\n"@);
    }
    let before = line_text(" • "@, underline_text(meal.name@)) + ingredients_text(
        list,
        list.len() as int,
    ) + optional_line("    ℹ️ "@, meal.allergens);
    assert(before + nothing == before);
}

/// One more ingredient is one more line, at the end of the ingredients.
pub proof fn law_one_more_ingredient(meal: SingleMeal, more: SingleMeal, shared: bool)
    requires
        more.additional_ingredients@.len() == meal.additional_ingredients@.len() + 1,
        meal.additional_ingredients@ == more.additional_ingredients@.drop_last(),
        more.name == meal.name,
        more.allergens == meal.allergens,
        more.variations == meal.variations,
        more.price == meal.price,
    ensures
        exists|a: Seq<char>, b: Seq<char>|
            meal_text(meal, shared) == #[trigger] (a + b) && meal_text(more, shared) == a
                + ingredient_line(more.additional_ingredients@.last()@) + b,
{
    let list = meal.additional_ingredients@;
    let longer = more.additional_ingredients@;
    let n = list.len() as int;
    lemma_ingredients(list, n);
    lemma_ingredients(longer, n);
    assert(longer.take(n) == list.take(n));
    let a = line_text(" • "@, underline_text(meal.name@)) + ingredients_text(list, n);
    let b = optional_line("    ℹ️ "@, meal.allergens) + price_line(!shared, "   "@, meal.price@)
        + variation_block(meal.variations);
    assert(meal_text(meal, shared) == a + b);
    assert(meal_text(more, shared) == a + ingredient_line(longer.last()@) + b);
}

// ---------------------------------------------------------------------------------------------
// Groups
// ---------------------------------------------------------------------------------------------

proof fn lemma_meals(meals: Seq<SingleMeal>, n: int, shared: bool)
    requires
        0 <= n <= meals.len(),
    ensures
        meals_text(meals, n, shared) == meals.take(n).map_values(
            |m: SingleMeal| meal_text(m, shared),
        ).flatten(),
    decreases n,
{
    let texts = meals.take(n).map_values(|m: SingleMeal| meal_text(m, shared));
    if n == 0 {
        assert(texts.flatten() == Seq::<char>::empty());
    } else {
        lemma_meals(meals, n - 1, shared);
        let before = meals.take(n - 1).map_values(|m: SingleMeal| meal_text(m, shared));
        assert(texts == before.push(meal_text(meals[n - 1], shared)));
        before.lemma_flatten_push(meal_text(meals[n - 1], shared));
    }
}

/// Whether any two dishes cost the same.
pub open spec fn any_two_cost_the_same(meals: Seq<SingleMeal>) -> bool {
    forall|i: int, j: int|
        0 <= i < meals.len() && 0 <= j < meals.len() ==> (#[trigger] meals[i]).price@ == (
        #[trigger] meals[j]).price@
}

/// A group is its name and then every dish in turn. Where any two of its dishes cost the same, the
/// price of any of them, `k`, is shown once, at the end; where two do not, each dish has its own.
pub proof fn law_group(group: MealGroup, k: int)
    requires
        0 <= k < group.sub_meals@.len(),
    ensures
        ({
            let meals = group.sub_meals@;
            let head = "\n"@ + bold_text(group.meal_type@) + "\n"@;
            group_text(group) == if any_two_cost_the_same(meals) {
                head + meals.map_values(|m: SingleMeal| meal_text(m, true)).flatten() + ("  "@
                    + meals[k].price@ + "\n"@)
            } else {
                head + meals.map_values(|m: SingleMeal| meal_text(m, false)).flatten()
            }
        }),
{
    let meals = group.sub_meals@;
    let n = meals.len() as int;
    lemma_one_price(meals);
    lemma_meals(meals, n, one_price(meals));
    assert(meals.take(n) == meals);
    let head = "\n"@ + bold_text(group.meal_type@) + "\n"@;
    if any_two_cost_the_same(meals) {
        assert(meals[0].price@ == meals[k].price@);
    } else {
        let text = head + meals.map_values(|m: SingleMeal| meal_text(m, false)).flatten();
        assert(text + Seq::<char>::empty() == text);
    }
}

proof fn lemma_one_price(meals: Seq<SingleMeal>)
    requires
        meals.len() > 0,
    ensures
        one_price(meals) <==> any_two_cost_the_same(meals),
{
    if any_two_cost_the_same(meals) {
        assert forall|i: int| 0 <= i < meals.len() implies #[trigger] meals[i].price@
            == meals[0].price@ by {
            assert(meals[i].price@ == meals[0].price@);
        }
    }
    if one_price(meals) {
        assert forall|i: int, j: int| 0 <= i < meals.len() && 0 <= j < meals.len() implies (
        #[trigger] meals[i]).price@ == (#[trigger] meals[j]).price@ by {
            assert(meals[i].price@ == meals[0].price@);
            assert(meals[j].price@ == meals[0].price@);
        }
    }
}

proof fn lemma_meal_whole(meal: SingleMeal, shared: bool)
    ensures
        whole_lines(meal_text(meal, shared)),
{
    reveal_strlit("\n");
    let list = meal.additional_ingredients@;
    lemma_ingredients(list, list.len() as int);
    lemma_ingredients_whole(list, list.len() as int);
    if let Some(v) = meal.variations {
        lemma_variations_whole(v@, v@.len() as int);
    }
}

proof fn lemma_ingredients_whole(ingredients: Seq<String>, n: int)
    ensures
        whole_lines(ingredients_text(ingredients, n)),
    decreases n,
{
    reveal_strlit("\n");
    if n > 0 {
        lemma_ingredients_whole(ingredients, n - 1);
    }
}

proof fn lemma_variations_whole(variations: Seq<MealVariation>, n: int)
    ensures
        whole_lines(variations_text(variations, n)),
    decreases n,
{
    reveal_strlit("\n");
    if n > 0 {
        lemma_variations_whole(variations, n - 1);
    }
}

/// A group starts with a line break and is made of whole lines.
pub proof fn lemma_group_whole(group: MealGroup)
    requires
        group.sub_meals@.len() > 0,
    ensures
        whole_lines(group_text(group)),
        group_text(group).len() > 0,
        group_text(group)[0] == '\n',
{
    reveal_strlit("\n");
    let meals = group.sub_meals@;
    let shared = one_price(meals);
    let texts = meals.map_values(|m: SingleMeal| meal_text(m, shared));
    assert forall|i: int| 0 <= i < texts.len() implies whole_lines(#[trigger] texts[i]) by {
        lemma_meal_whole(meals[i], shared);
    }
    lemma_lines_sent(texts);
    lemma_meals(meals, meals.len() as int, shared);
    assert(meals.take(meals.len() as int) == meals);
    let head = "\n"@ + bold_text(group.meal_type@) + "\n"@;
    assert(head[0] == '\n');
    assert(group_text(group)[0] == head[0]);
}

proof fn lemma_groups(groups: Seq<MealGroup>, n: int)
    requires
        0 <= n <= groups.len(),
    ensures
        groups_text(groups, n) == groups.take(n).map_values(
            |g: MealGroup| group_text(g),
        ).flatten(),
    decreases n,
{
    let texts = groups.take(n).map_values(|g: MealGroup| group_text(g));
    if n == 0 {
        assert(texts.flatten() == Seq::<char>::empty());
    } else {
        lemma_groups(groups, n - 1);
        let before = groups.take(n - 1).map_values(|g: MealGroup| group_text(g));
        assert(texts == before.push(group_text(groups[n - 1])));
        before.lemma_flatten_push(group_text(groups[n - 1]));
    }
}

/// A message is the head of its plan and then every group in turn, whatever the other groups are. A
/// plan without groups is the head and the news that there is nothing to show.
pub proof fn law_message(
    groups: Seq<MealGroup>,
    day: RequestedDay,
    days_forward: int,
    emoji_index: int,
)
    requires
        forall|i: int| 0 <= i < groups.len() ==> (#[trigger] groups[i]).sub_meals@.len() > 0,
    ensures
        ({
            let head = head_text(emoji_text(emoji_index), day, days_forward);
            stuwe_message(groups, day, days_forward, emoji_index) == if groups.len() == 0 {
                sendable(head + "*\nkeine Daten vorhanden.\n*"@)
            } else {
                sendable(head) + groups.map_values(
                    |g: MealGroup| sendable(group_text(g)),
                ).flatten()
            }
        }),
{
    let head = head_text(emoji_text(emoji_index), day, days_forward);
    if groups.len() == 0 {
        reveal_strlit("\nkeine Daten vorhanden.\n");
        reveal_strlit("*\nkeine Daten vorhanden.\n*");
        assert(plan_text(groups) == "*\nkeine Daten vorhanden.\n*"@);
    } else {
        let texts = groups.map_values(|g: MealGroup| group_text(g));
        lemma_groups(groups, groups.len() as int);
        assert(groups.take(groups.len() as int) == groups);
        assert forall|i: int| 0 <= i < texts.len() implies whole_lines(#[trigger] texts[i]) by {
            lemma_group_whole(groups[i]);
        }
        lemma_lines_sent(texts);
        lemma_group_whole(groups[0]);
        lemma_one_of_many(texts, 0);
        assert(texts.take(0).flatten() == Seq::<char>::empty());
        let plan = texts.flatten();
        assert(plan[0] == group_text(groups[0])[0]);
        lemma_sent_before_break(head, plan);
        assert(texts.map_values(|t: Seq<char>| sendable(t)) == groups.map_values(
            |g: MealGroup| sendable(group_text(g)),
        ));
    }
}

/// Where a line of whole lines is sent, the line is sent.
pub proof fn lemma_line_is_sent(a: Seq<char>, line: Seq<char>, b: Seq<char>)
    requires
        whole_lines(a),
        whole_lines(line),
    ensures
        contains_text(a + line + b, line),
        contains_text(sendable(a + line + b), sendable(line)),
{
    let s = a + line + b;
    assert(s.subrange(a.len() as int, (a.len() + line.len()) as int) == line);
    assert(stands_at(s, a.len() as int, line));
    assert(whole_lines(a + line));
    lemma_sent_apart(a + line, b);
    lemma_sent_apart(a, line);
    let (x, y, z) = (sendable(a), sendable(line), sendable(b));
    let sent = x + y + z;
    assert(sendable(s) == sent);
    assert(sent.subrange(x.len() as int, (x.len() + y.len()) as int) == y);
    assert(stands_at(sent, x.len() as int, y));
}

/// Where one of some texts of whole lines is sent, each of its lines is sent.
pub proof fn lemma_line_of_one_is_sent(
    head: Seq<char>,
    texts: Seq<Seq<char>>,
    k: int,
    first: Seq<char>,
    line: Seq<char>,
    last: Seq<char>,
)
    requires
        0 <= k < texts.len(),
        whole_lines(head),
        forall|i: int| 0 <= i < texts.len() ==> whole_lines(#[trigger] texts[i]),
        whole_lines(first),
        whole_lines(line),
        texts[k] == first + line + last,
    ensures
        contains_text(head + texts.flatten(), line),
        contains_text(sendable(head + texts.flatten()), sendable(line)),
{
    let before = texts.take(k);
    assert forall|i: int| 0 <= i < before.len() implies whole_lines(#[trigger] before[i]) by {
        assert(before[i] == texts[i]);
    }
    lemma_lines_sent(before);
    lemma_one_of_many(texts, k);
    let after = texts.skip(k + 1).flatten();
    let a = head + before.flatten() + first;
    let b = last + after;
    assert(whole_lines(head + before.flatten()));
    assert(whole_lines(a));
    assert(head + texts.flatten() == a + line + b);
    lemma_line_is_sent(a, line, b);
}

proof fn lemma_own_price(group: MealGroup, i: int)
    requires
        0 <= i < group.sub_meals@.len(),
        !any_two_cost_the_same(group.sub_meals@),
    ensures
        ({
            let line = "   "@ + group.sub_meals@[i].price@ + "\n"@;
            &&& contains_text(group_text(group), line)
            &&& contains_text(sendable(group_text(group)), sendable(line))
        }),
{
    reveal_strlit("\n");
    let meals = group.sub_meals@;
    let head = "\n"@ + bold_text(group.meal_type@) + "\n"@;
    law_group(group, i);
    let texts = meals.map_values(|m: SingleMeal| meal_text(m, false));
    assert forall|k: int| 0 <= k < texts.len() implies whole_lines(#[trigger] texts[k]) by {
        lemma_meal_whole(meals[k], false);
    }
    let meal = meals[i];
    let list = meal.additional_ingredients@;
    let first = line_text(" • "@, underline_text(meal.name@)) + ingredients_text(
        list,
        list.len() as int,
    ) + optional_line("    ℹ️ "@, meal.allergens);
    lemma_ingredients_whole(list, list.len() as int);
    let line = "   "@ + meal.price@ + "\n"@;
    lemma_line_of_one_is_sent(head, texts, i, first, line, variation_block(meal.variations));
}

proof fn lemma_shared_price(group: MealGroup, i: int)
    requires
        0 <= i < group.sub_meals@.len(),
        any_two_cost_the_same(group.sub_meals@),
    ensures
        ({
            let line = "  "@ + group.sub_meals@[i].price@ + "\n"@;
            &&& contains_text(group_text(group), line)
            &&& contains_text(sendable(group_text(group)), sendable(line))
        }),
{
    reveal_strlit("\n");
    let meals = group.sub_meals@;
    law_group(group, i);
    let texts = meals.map_values(|m: SingleMeal| meal_text(m, true));
    assert forall|k: int| 0 <= k < texts.len() implies whole_lines(#[trigger] texts[k]) by {
        lemma_meal_whole(meals[k], true);
    }
    lemma_lines_sent(texts);
    let head = "\n"@ + bold_text(group.meal_type@) + "\n"@;
    let a = head + texts.flatten();
    let line = "  "@ + meals[i].price@ + "\n"@;
    assert(whole_lines(head));
    assert(whole_lines(a));
    assert(group_text(group) == a + line + Seq::<char>::empty());
    lemma_line_is_sent(a, line, Seq::empty());
}

/// The price of every dish stands in the message. It stands below the dish unless any two dishes of
/// its group cost the same.
pub proof fn law_every_price_is_shown(
    groups: Seq<MealGroup>,
    day: RequestedDay,
    days_forward: int,
    emoji_index: int,
    g: int,
    i: int,
)
    requires
        forall|k: int| 0 <= k < groups.len() ==> (#[trigger] groups[k]).sub_meals@.len() > 0,
        0 <= g < groups.len(),
        0 <= i < groups[g].sub_meals@.len(),
    ensures
        ({
            let meals = groups[g].sub_meals@;
            let indent = if any_two_cost_the_same(meals) {
                "  "@
            } else {
                "   "@
            };
            &&& contains_text(group_text(groups[g]), indent + meals[i].price@ + "\n"@)
            &&& contains_text(
                stuwe_message(groups, day, days_forward, emoji_index),
                sendable(indent + meals[i].price@ + "\n"@),
            )
        }),
{
    let meals = groups[g].sub_meals@;
    let indent = if any_two_cost_the_same(meals) {
        lemma_shared_price(groups[g], i);
        "  "@
    } else {
        lemma_own_price(groups[g], i);
        "   "@
    };
    let line = indent + meals[i].price@ + "\n"@;
    let part = sendable(group_text(groups[g]));
    law_message(groups, day, days_forward, emoji_index);
    let sent = groups.map_values(|x: MealGroup| sendable(group_text(x)));
    lemma_one_of_many(sent, g);
    let start = sendable(head_text(emoji_text(emoji_index), day, days_forward))
        + sent.take(g).flatten();
    let after = sent.skip(g + 1).flatten();
    let message = stuwe_message(groups, day, days_forward, emoji_index);
    assert(sent[g] == part);
    assert(message == start + part + after);
    lemma_found_in_part(start, part, after, sendable(line));
}

} // verus!
