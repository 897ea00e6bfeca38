//! What the wish to see allergens adds to a plan from MensiMates.
use crate::calendar::{day_month_year, year_text, RequestedDay};
use crate::data_backend::mm_parser::{
    all_categories_text, allergen_line, categories_of, category_one_price, category_text,
    first_member, icon_text, in_order, ingredient_lines, law_categories, lowercase, members_text,
    mm_meal_text, mm_message, mm_plan_text, rating_line, stars_text,
};
use crate::data_backend::stuwe_parser::price_line;
use crate::data_backend::{
    emoji_text, german_date, head_text, line_text, raise_hint, weekday_name, EMOJI_COUNT,
};
use crate::data_types::mm_data_types::MensiMeal;
use crate::lines::{
    adds_lines, free_of, lemma_adds_both, lemma_adds_nothing, lemma_adds_one, marked_lines,
    whole_lines, without_lines,
};
use crate::markdown::{bold_text, italic_text, underline_text};
use crate::text::{
    dec, lemma_order_irreflexive, parts, trimmed, trimmed_end, trimmed_start, zero_padded,
};
use vstd::prelude::*;

verus! {

/// Whether the texts of a dish leave the mark of the allergens and the line of the allergens alone:
/// the mark stands in none of the others, and there is no line break among the allergens.
pub open spec fn unmarked(meal: MensiMeal) -> bool {
    &&& free_of(meal.category@, 'ⓘ')
    &&& free_of(meal.description@, 'ⓘ')
    &&& free_of(meal.name@, 'ⓘ')
    &&& free_of(meal.price@, 'ⓘ')
    &&& free_of(meal.rating_text@, 'ⓘ')
    &&& free_of(meal.allergens@, '\n')
}

/// How many of the first `n` dishes have allergens that are known.
pub open spec fn known_allergens(meals: Seq<MensiMeal>, n: int) -> nat
    decreases n,
{
    if n <= 0 {
        0
    } else {
        known_allergens(meals, n - 1) + if meals[n - 1].allergens@ != "N/A"@ {
            1nat
        } else {
            0nat
        }
    }
}

// ---------------------------------------------------------------------------------------------
// Where the mark is not
// ---------------------------------------------------------------------------------------------

proof fn lemma_dec_free(n: nat)
    ensures
        free_of(dec(n), 'ⓘ'),
    decreases n,
{
    if n >= 10 {
        lemma_dec_free(n / 10);
    }
}

proof fn lemma_head_free(emoji_index: int, day: RequestedDay, days_forward: int)
    ensures
        free_of(head_text(emoji_text(emoji_index), day, days_forward), 'ⓘ'),
{
    reveal_strlit("☀️");
    reveal_strlit("🦀");
    reveal_strlit("💂🏻‍♀️");
    reveal_strlit("☕️");
    reveal_strlit("☝🏻");
    reveal_strlit("🌤️");
    reveal_strlit("🥦");
    let emoji = emoji_text(emoji_index);
    assert(free_of(emoji, 'ⓘ'));
    reveal_strlit("Montag");
    reveal_strlit("Dienstag");
    reveal_strlit("Mittwoch");
    reveal_strlit("Donnerstag");
    reveal_strlit("Freitag");
    let date = day.date;
    assert(free_of(weekday_name(date.weekday()), 'ⓘ'));
    lemma_dec_free(date.day as nat);
    lemma_dec_free(date.month as nat);
    lemma_dec_free(date.year as nat);
    lemma_dec_free((-date.year) as nat);
    assert(free_of(zero_padded(dec(date.day as nat), 2), 'ⓘ'));
    assert(free_of(zero_padded(dec(date.month as nat), 2), 'ⓘ'));
    assert(free_of(year_text(date.year as int), 'ⓘ'));
    assert(free_of(day_month_year(date), 'ⓘ'));
    reveal_strlit(", ");
    assert(free_of(german_date(date), 'ⓘ'));
    reveal_strlit("      (Morgen)\n");
    reveal_strlit("      (Übermorgen)\n");
    assert(free_of(raise_hint(days_forward, day.raised as int), 'ⓘ'));
    reveal_strlit(" ");
    reveal_strlit("\n");
}

proof fn lemma_trimmed_free(s: Seq<char>)
    requires
        free_of(s, 'ⓘ'),
    ensures
        free_of(trimmed(s), 'ⓘ'),
{
    lemma_trimmed_start_free(s);
    lemma_trimmed_end_free(trimmed_start(s));
}

proof fn lemma_trimmed_start_free(s: Seq<char>)
    requires
        free_of(s, 'ⓘ'),
    ensures
        free_of(trimmed_start(s), 'ⓘ'),
    decreases s.len(),
{
    if s.len() > 0 {
        lemma_trimmed_start_free(s.skip(1));
    }
}

proof fn lemma_trimmed_end_free(s: Seq<char>)
    requires
        free_of(s, 'ⓘ'),
    ensures
        free_of(trimmed_end(s), 'ⓘ'),
    decreases s.len(),
{
    if s.len() > 0 {
        lemma_trimmed_end_free(s.drop_last());
    }
}

proof fn lemma_parts_free(s: Seq<char>, sep: char)
    requires
        free_of(s, 'ⓘ'),
    ensures
        parts(s, sep).len() > 0,
        forall|i: int| 0 <= i < parts(s, sep).len() ==> free_of(#[trigger] parts(s, sep)[i], 'ⓘ'),
    decreases s.len(),
{
    if s.len() > 0 {
        let before = parts(s.drop_last(), sep);
        lemma_parts_free(s.drop_last(), sep);
        assert(s[s.len() - 1] != 'ⓘ');
        assert(free_of(before[before.len() - 1], 'ⓘ'));
        assert(free_of(before.last().push(s.last()), 'ⓘ') || s.last() == sep);
        assert forall|i: int| 0 <= i < parts(s, sep).len() implies free_of(
            #[trigger] parts(s, sep)[i],
            'ⓘ',
        ) by {
            if s.last() == sep && i < before.len() {
                assert(parts(s, sep)[i] == before[i]);
            }
            if s.last() != sep && i < before.len() - 1 {
                assert(parts(s, sep)[i] == before[i]);
            }
        }
    }
}

proof fn lemma_line(prefix: Seq<char>, text: Seq<char>)
    requires
        free_of(prefix, 'ⓘ'),
        free_of(text, 'ⓘ'),
    ensures
        free_of(line_text(prefix, text), 'ⓘ'),
        whole_lines(line_text(prefix, text)),
{
    reveal_strlit("\n");
}

proof fn lemma_ingredients(ingredients: Seq<Seq<char>>, n: int)
    requires
        n <= ingredients.len(),
        forall|i: int| 0 <= i < ingredients.len() ==> free_of(#[trigger] ingredients[i], 'ⓘ'),
    ensures
        free_of(ingredient_lines(ingredients, n), 'ⓘ'),
        whole_lines(ingredient_lines(ingredients, n)),
    decreases n,
{
    if n > 0 {
        lemma_ingredients(ingredients, n - 1);
        lemma_trimmed_free(ingredients[n - 1]);
        reveal_strlit("     + ");
        let text = trimmed(ingredients[n - 1]);
        assert(free_of(italic_text(text), 'ⓘ'));
        lemma_line("     + "@, italic_text(text));
    }
}

proof fn lemma_price(shown: bool, prefix: Seq<char>, price: Seq<char>)
    requires
        free_of(prefix, 'ⓘ'),
        free_of(price, 'ⓘ'),
    ensures
        free_of(price_line(shown, prefix, price), 'ⓘ'),
        whole_lines(price_line(shown, prefix, price)),
{
    lemma_line(prefix, price);
}

proof fn lemma_rating(meal: MensiMeal)
    requires
        unmarked(meal),
    ensures
        free_of(rating_line(meal), 'ⓘ'),
        whole_lines(rating_line(meal)),
{
    reveal_strlit("    Bewertung: ");
    reveal_strlit(" (");
    reveal_strlit(")\n");
    let stars = stars_text(meal.rating_eighths as int);
    assert(free_of(stars, 'ⓘ'));
}

proof fn lemma_icon(name: Seq<char>)
    ensures
        free_of(icon_text(name), 'ⓘ'),
{
    reveal_strlit("🌱");
    reveal_strlit("🧀");
    reveal_strlit("🍗");
    reveal_strlit("🍔");
    reveal_strlit("🐟");
    reveal_strlit("🍝");
    reveal_strlit("🥕");
    reveal_strlit("➕");
    reveal_strlit("♿️");
    reveal_strlit("🍽️");
}

// ---------------------------------------------------------------------------------------------
// What is added where
// ---------------------------------------------------------------------------------------------

proof fn lemma_meal(meal: MensiMeal, price_is_shared: bool)
    requires
        unmarked(meal),
    ensures
        whole_lines(mm_meal_text(meal, price_is_shared, false)),
        whole_lines(mm_meal_text(meal, price_is_shared, true)),
        adds_lines(
            mm_meal_text(meal, price_is_shared, false),
            mm_meal_text(meal, price_is_shared, true),
            if meal.allergens@ != "N/A"@ {
                1
            } else {
                0
            },
        ),
{
    let nothing = Seq::<char>::empty();
    let ingredients = parts(meal.description@, '·');
    reveal_strlit(" • ");
    reveal_strlit("   ");
    assert(free_of(underline_text(meal.name@), 'ⓘ'));
    lemma_line(" • "@, underline_text(meal.name@));
    lemma_parts_free(meal.description@, '·');
    lemma_ingredients(ingredients, ingredients.len() as int);
    lemma_price(!price_is_shared, "   "@, meal.price@);
    lemma_rating(meal);
    let front = line_text(" • "@, underline_text(meal.name@)) + ingredient_lines(
        ingredients,
        ingredients.len() as int,
    );
    let price = price_line(!price_is_shared, "   "@, meal.price@);
    let back = price + rating_line(meal);
    assert(free_of(front, 'ⓘ') && whole_lines(front));
    assert(free_of(back, 'ⓘ') && whole_lines(back));
    lemma_adds_nothing(front);
    lemma_adds_nothing(back);
    let added = allergen_line(meal.allergens@, true);
    let n: nat = if meal.allergens@ != "N/A"@ {
        1
    } else {
        0
    };
    if meal.allergens@ != "N/A"@ {
        reveal_strlit("    ⓘ ");
        reveal_strlit("\n");
        let x = "    ⓘ "@ + meal.allergens@;
        assert(x[4] == 'ⓘ');
        assert(free_of("    ⓘ "@, '\n'));
        assert(free_of(x, '\n'));
        assert(added == x.push('\n'));
        lemma_adds_one(x);
    } else {
        assert(added == nothing);
        lemma_adds_nothing(nothing);
    }
    assert(whole_lines(added));
    lemma_adds_both(nothing, added, n, back, back, 0);
    lemma_adds_both(front, front, 0, nothing + back, added + back, n);
    assert(mm_meal_text(meal, price_is_shared, false) == front + (nothing + back));
    assert(mm_meal_text(meal, price_is_shared, true) == front + (added + back));
}

/// How many of the first `n` dishes belong to a category and have allergens that are known.
spec fn known_in(meals: Seq<MensiMeal>, n: int, category: Seq<char>) -> nat
    decreases n,
{
    if n <= 0 {
        0
    } else {
        known_in(meals, n - 1, category) + if meals[n - 1].category@ == category && meals[n
            - 1].allergens@ != "N/A"@ {
            1nat
        } else {
            0nat
        }
    }
}

/// How many of the first `n` dishes belong to one of the first `m` categories and have allergens that
/// are known.
spec fn known_in_all(
    meals: Seq<MensiMeal>,
    n: int,
    categories: Seq<Seq<char>>,
    m: int,
) -> nat
    decreases m,
{
    if m <= 0 {
        0
    } else {
        known_in_all(meals, n, categories, m - 1) + known_in(meals, n, categories[m - 1])
    }
}

proof fn lemma_members(meals: Seq<MensiMeal>, n: int, category: Seq<char>, shared: bool)
    requires
        n <= meals.len(),
        forall|i: int| 0 <= i < meals.len() ==> unmarked(#[trigger] meals[i]),
    ensures
        whole_lines(members_text(meals, n, category, shared, false)),
        whole_lines(members_text(meals, n, category, shared, true)),
        adds_lines(
            members_text(meals, n, category, shared, false),
            members_text(meals, n, category, shared, true),
            known_in(meals, n, category),
        ),
    decreases n,
{
    let nothing = Seq::<char>::empty();
    if n <= 0 {
        lemma_adds_nothing(nothing);
    } else {
        let meal = meals[n - 1];
        lemma_members(meals, n - 1, category, shared);
        let short = members_text(meals, n - 1, category, shared, false);
        let long = members_text(meals, n - 1, category, shared, true);
        let k = known_in(meals, n - 1, category);
        if meal.category@ == category {
            lemma_meal(meal, shared);
            let one: nat = if meal.allergens@ != "N/A"@ {
                1
            } else {
                0
            };
            lemma_adds_both(
                short,
                long,
                k,
                mm_meal_text(meal, shared, false),
                mm_meal_text(meal, shared, true),
                one,
            );
        } else {
            assert(short + nothing == short);
            assert(long + nothing == long);
        }
    }
}

/// The lines of one category without the line break in front.
spec fn category_lines(
    meals: Seq<MensiMeal>,
    category: Seq<char>,
    wants_allergens: bool,
) -> Seq<char> {
    category_text(meals, category, wants_allergens).skip(1)
}

proof fn lemma_category(meals: Seq<MensiMeal>, category: Seq<char>)
    requires
        forall|i: int| 0 <= i < meals.len() ==> unmarked(#[trigger] meals[i]),
        exists|i: int| 0 <= i < meals.len() && #[trigger] meals[i].category@ == category,
    ensures
        forall|wants: bool| #[trigger]
            category_text(meals, category, wants) == seq!['\n'] + category_lines(
                meals,
                category,
                wants,
            ),
        whole_lines(category_lines(meals, category, false)),
        whole_lines(category_lines(meals, category, true)),
        adds_lines(
            category_lines(meals, category, false),
            category_lines(meals, category, true),
            known_in(meals, meals.len() as int, category),
        ),
{
    reveal_strlit("\n");
    reveal_strlit(" ");
    reveal_strlit("  ");
    assert forall|wants: bool| #[trigger]
        category_text(meals, category, wants) == seq!['\n'] + category_lines(
            meals,
            category,
            wants,
        ) by {
        assert(category_text(meals, category, wants)[0] == '\n');
    }
    let i = choose|i: int| 0 <= i < meals.len() && #[trigger] meals[i].category@ == category;
    assert(unmarked(meals[i]));
    let shared = category_one_price(meals, category);
    let n = meals.len() as int;
    lemma_member_exists(meals, category);
    let price = meals[first_member(meals, category)].price@;
    lemma_icon(lowercase(category));
    let front = icon_text(lowercase(category)) + " "@ + bold_text(category) + "\n"@;
    assert(free_of(bold_text(category), 'ⓘ'));
    assert(free_of(front, 'ⓘ') && whole_lines(front));
    lemma_adds_nothing(front);
    lemma_members(meals, n, category, shared);
    let short = members_text(meals, n, category, shared, false);
    let long = members_text(meals, n, category, shared, true);
    let k = known_in(meals, n, category);
    let back = price_line(shared, "  "@, price);
    lemma_price(shared, "  "@, price);
    lemma_adds_nothing(back);
    lemma_adds_both(short, long, k, back, back, 0);
    lemma_adds_both(front, front, 0, short + back, long + back, k);
    assert(category_lines(meals, category, false) == front + (short + back));
    assert(category_lines(meals, category, true) == front + (long + back));
}

proof fn lemma_member_exists(meals: Seq<MensiMeal>, category: Seq<char>)
    requires
        exists|i: int| 0 <= i < meals.len() && #[trigger] meals[i].category@ == category,
    ensures
        0 <= first_member(meals, category) < meals.len(),
    decreases meals.len(),
{
    let i = choose|i: int| 0 <= i < meals.len() && #[trigger] meals[i].category@ == category;
    if meals[0].category@ != category {
        assert(meals.skip(1)[i - 1].category@ == category);
        lemma_member_exists(meals.skip(1), category);
    }
}

proof fn lemma_categories(meals: Seq<MensiMeal>, categories: Seq<Seq<char>>, m: int)
    requires
        1 <= m <= categories.len(),
        forall|i: int| 0 <= i < meals.len() ==> unmarked(#[trigger] meals[i]),
        forall|j: int|
            0 <= j < categories.len() ==> exists|i: int|
                0 <= i < meals.len() && #[trigger] meals[i].category@ == #[trigger] categories[j],
    ensures
        forall|wants: bool| #[trigger]
            all_categories_text(meals, categories, m, wants) == seq!['\n'] + all_categories_text(
                meals,
                categories,
                m,
                wants,
            ).skip(1),
        whole_lines(all_categories_text(meals, categories, m, false).skip(1)),
        whole_lines(all_categories_text(meals, categories, m, true).skip(1)),
        adds_lines(
            all_categories_text(meals, categories, m, false).skip(1),
            all_categories_text(meals, categories, m, true).skip(1),
            known_in_all(meals, meals.len() as int, categories, m),
        ),
    decreases m,
{
    let n = meals.len() as int;
    let category = categories[m - 1];
    lemma_category(meals, category);
    let short_after = category_lines(meals, category, false);
    let long_after = category_lines(meals, category, true);
    let k = known_in(meals, n, category);
    let nothing = Seq::<char>::empty();
    let short = all_categories_text(meals, categories, m, false);
    let long = all_categories_text(meals, categories, m, true);
    reveal_with_fuel(all_categories_text, 2);
    reveal_with_fuel(known_in_all, 2);
    assert(category_text(meals, category, false) == seq!['\n'] + short_after);
    assert(category_text(meals, category, true) == seq!['\n'] + long_after);
    if m == 1 {
        assert(short == seq!['\n'] + short_after);
        assert(long == seq!['\n'] + long_after);
        assert(short.skip(1) == short_after);
        assert(long.skip(1) == long_after);
    } else {
        lemma_categories(meals, categories, m - 1);
        let short_before = all_categories_text(meals, categories, m - 1, false);
        let long_before = all_categories_text(meals, categories, m - 1, true);
        let k_before = known_in_all(meals, n, categories, m - 1);
        let gap = seq!['\n'];
        lemma_adds_nothing(gap);
        lemma_adds_both(gap, gap, 0, short_after, long_after, k);
        lemma_adds_both(
            short_before.skip(1),
            long_before.skip(1),
            k_before,
            gap + short_after,
            gap + long_after,
            k,
        );
        assert(short_before.len() > 0 && long_before.len() > 0) by {
            assert(short_before == gap + short_before.skip(1));
            assert(long_before == gap + long_before.skip(1));
        }
        assert(short.skip(1) == short_before.skip(1) + (gap + short_after));
        assert(long.skip(1) == long_before.skip(1) + (gap + long_after));
        assert(short[0] == short_before[0] && long[0] == long_before[0]);
    }
    assert forall|wants: bool| #[trigger]
        all_categories_text(meals, categories, m, wants) == seq!['\n'] + all_categories_text(
            meals,
            categories,
            m,
            wants,
        ).skip(1) by {
        if wants {
            assert(long[0] == '\n');
            assert(long == seq!['\n'] + long.skip(1));
        } else {
            assert(short[0] == '\n');
            assert(short == seq!['\n'] + short.skip(1));
        }
    }
}

// ---------------------------------------------------------------------------------------------
// How many lines are added
// ---------------------------------------------------------------------------------------------

proof fn lemma_one_more_dish(
    meals: Seq<MensiMeal>,
    n: int,
    categories: Seq<Seq<char>>,
    m: int,
)
    requires
        1 <= n <= meals.len(),
        0 <= m <= categories.len(),
        in_order(categories),
    ensures
        known_in_all(meals, n, categories, m) == known_in_all(meals, n - 1, categories, m) + if meals[n
            - 1].allergens@ != "N/A"@ && categories.take(m).contains(meals[n - 1].category@) {
            1nat
        } else {
            0nat
        },
    decreases m,
{
    let c = meals[n - 1].category@;
    if m > 0 {
        lemma_one_more_dish(meals, n, categories, m - 1);
        let before = categories.take(m - 1);
        let now = categories.take(m);
        assert(now == before.push(categories[m - 1]));
        if before.contains(c) {
            let j = choose|j: int| 0 <= j < before.len() && before[j] == c;
            assert(now[j] == c);
            assert(categories[j] == c);
            if categories[m - 1] == c {
                lemma_order_irreflexive(c);
                assert(false);
            }
        } else if categories[m - 1] == c {
            assert(now[m - 1] == c);
        } else if now.contains(c) {
            let j = choose|j: int| 0 <= j < now.len() && now[j] == c;
            assert(before[j] == c);
        }
    }
}

proof fn lemma_all_counted(meals: Seq<MensiMeal>, n: int, categories: Seq<Seq<char>>)
    requires
        0 <= n <= meals.len(),
        in_order(categories),
        forall|i: int| 0 <= i < n ==> categories.contains(#[trigger] meals[i].category@),
    ensures
        known_in_all(meals, n, categories, categories.len() as int) == known_allergens(meals, n),
    decreases n,
{
    if n == 0 {
        lemma_none_counted(meals, categories, categories.len() as int);
    } else {
        lemma_all_counted(meals, n - 1, categories);
        lemma_one_more_dish(meals, n, categories, categories.len() as int);
        assert(categories.take(categories.len() as int) == categories);
        assert(categories.contains(meals[n - 1].category@));
    }
}

proof fn lemma_none_counted(meals: Seq<MensiMeal>, categories: Seq<Seq<char>>, m: int)
    ensures
        known_in_all(meals, 0, categories, m) == 0,
    decreases m,
{
    if m > 0 {
        lemma_none_counted(meals, categories, m - 1);
    }
}

/// The message with allergens is the one without them and one more line for every dish whose
/// allergens are known. These lines are told by their mark, which stands nowhere else.
pub proof fn law_allergen_lines(
    meals: Vec<MensiMeal>,
    day: RequestedDay,
    days_forward: int,
    emoji_index: int,
)
    requires
        0 <= emoji_index < EMOJI_COUNT,
        forall|i: int| 0 <= i < meals@.len() ==> unmarked(#[trigger] meals@[i]),
    ensures
        ({
            let short = mm_message(Ok(meals), day, days_forward, false, emoji_index);
            let long = mm_message(Ok(meals), day, days_forward, true, emoji_index);
            &&& free_of(short, 'ⓘ')
            &&& without_lines(long, 'ⓘ') == short
            &&& marked_lines(long, 'ⓘ') == known_allergens(meals@, meals@.len() as int)
        }),
{
    let n = meals@.len() as int;
    let head = head_text(emoji_text(emoji_index), day, days_forward);
    lemma_head_free(emoji_index, day, days_forward);
    let short = mm_plan_text(meals@, false);
    let long = mm_plan_text(meals@, true);
    if n == 0 {
        reveal_strlit("\nkeine Daten vorhanden.\n");
        assert(free_of(short, 'ⓘ'));
        lemma_adds_nothing(head + short);
    } else {
        let categories = categories_of(meals@, n);
        law_categories(meals@, n);
        assert forall|i: int| 0 <= i < n implies categories.contains(
            #[trigger] meals@[i].category@,
        ) by {};
        assert(categories.contains(meals@[0].category@));
        assert forall|j: int| 0 <= j < categories.len() implies exists|i: int|
            0 <= i < meals@.len() && #[trigger] meals@[i].category@ == #[trigger] categories[j] by {
            assert(categories.contains(categories[j]));
        }
        let m = categories.len() as int;
        lemma_categories(meals@, categories, m);
        lemma_all_counted(meals@, n, categories);
        let front = head.push('\n');
        assert(free_of(front, 'ⓘ'));
        lemma_adds_nothing(front);
        lemma_adds_both(
            front,
            front,
            0,
            short.skip(1),
            long.skip(1),
            known_allergens(meals@, n),
        );
        assert(short == all_categories_text(meals@, categories, m, false));
        assert(long == all_categories_text(meals@, categories, m, true));
        assert(short == seq!['\n'] + short.skip(1));
        assert(long == seq!['\n'] + long.skip(1));
        assert(head + short == front + short.skip(1));
        assert(head + long == front + long.skip(1));
    }
}

} // verus!
