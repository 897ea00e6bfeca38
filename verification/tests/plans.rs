//! The messages that show a plan.
use stuwe_telegram_rs::calendar::{CalendarDate, RequestedDay};
use stuwe_telegram_rs::data_backend::mm_parser::{
    categories, category_price, get_mealgroup_icon, icon_of_lowercase, mm_build_meal_msg,
    mm_build_meal_msg_with, mm_meals_url, mm_mensen_url, rating_to_stars,
};
use stuwe_telegram_rs::data_backend::stuwe_parser::{
    get_mensen, mealgroups_to_msg, mealgroups_to_msg_with, meals_url, mensen_url,
    stuwe_build_meal_msg,
};
use stuwe_telegram_rs::data_backend::{
    build_date_string, emoji, german_date_fmt, mm_parser, plan_head, EMOJI_COUNT,
};
use stuwe_telegram_rs::data_types::mm_data_types::{GetMensasMensa, MensiMeal};
use stuwe_telegram_rs::data_types::stuwe_data_types::{MealGroup, MealVariation, SingleMeal};
use stuwe_telegram_rs::data_types::Backend;
use stuwe_telegram_rs::shared_main::{
    build_meal_message_dispatcher, plan_url, request_plan, request_plan_from_now, FetchedPlan,
    PlanRequest,
};

fn monday(raised: u32) -> RequestedDay {
    RequestedDay { date: CalendarDate { year: 2024, month: 5, day: 6 }, raised }
}

fn dish(name: &str, price: &str) -> SingleMeal {
    SingleMeal {
        name: name.to_string(),
        additional_ingredients: vec![],
        allergens: None,
        variations: None,
        price: price.to_string(),
    }
}

fn mm_dish(category: &str, name: &str, price: &str) -> MensiMeal {
    MensiMeal {
        allergens: "N/A".to_string(),
        category: category.to_string(),
        description: "N/A".to_string(),
        name: name.to_string(),
        price: price.to_string(),
        rating_eighths: 0,
        rating_text: "0".to_string(),
        votes: 0,
    }
}

fn any_head(message: &str, rest: &str) -> bool {
    (0..EMOJI_COUNT).any(|i| {
        message == format!("{} Montag, 06\\.05\\.2024 {}\n{}", emoji(i), emoji(i), rest)
    })
}

#[test]
fn emojis() {
    let all: Vec<&str> = (0..EMOJI_COUNT).map(emoji).collect();
    assert_eq!(all, ["☀️", "🦀", "💂🏻‍♀️", "☕️", "☝🏻", "🌤️", "🥦"]);
}

#[test]
fn german_dates() {
    for (day, text) in [
        (6, "Montag, 06.05.2024"),
        (7, "Dienstag, 07.05.2024"),
        (8, "Mittwoch, 08.05.2024"),
        (9, "Donnerstag, 09.05.2024"),
        (10, "Freitag, 10.05.2024"),
    ] {
        assert_eq!(german_date_fmt(CalendarDate { year: 2024, month: 5, day }), text);
    }
}

#[test]
fn dates_for_the_services() {
    for (year, month, day) in [(2024, 5, 6), (987, 12, 31), (0, 1, 1), (-5, 10, 2), (12345, 6, 7)] {
        assert_eq!(
            build_date_string(CalendarDate { year, month, day }),
            format!("{year:04}-{month:02}-{day:02}")
        );
    }
}

#[test]
fn heads_of_plans() {
    assert_eq!(plan_head(0, monday(0), 0), "☀️ Montag, 06.05.2024 ☀️\n");
    assert_eq!(
        plan_head(1, monday(1), 0),
        "🦀 Montag, 06.05.2024 🦀\n_      (Morgen)\n_"
    );
    assert_eq!(
        plan_head(6, monday(2), 0),
        "🥦 Montag, 06.05.2024 🥦\n_      (Übermorgen)\n_"
    );
    assert_eq!(plan_head(0, monday(1), 1), "☀️ Montag, 06.05.2024 ☀️\n");
    assert_eq!(plan_head(0, monday(2), 2), "☀️ Montag, 06.05.2024 ☀️\n");
}

#[test]
fn stuwe_plan_with_shared_price() {
    let mut stew = dish("Eintopf (klein)", "2,00 €");
    stew.additional_ingredients = vec!["Brot".to_string(), "Senf & Co.".to_string()];
    stew.allergens = Some("A, B".to_string());
    let groups = vec![MealGroup {
        meal_type: "Veganes Gericht".to_string(),
        sub_meals: vec![stew, dish("Suppe", "2,00 €")],
    }];
    assert_eq!(
        mealgroups_to_msg_with(&groups, monday(0), 0, 3),
        "☕️ Montag, 06\\.05\\.2024 ☕️\n\n*Veganes Gericht*\n • __Eintopf \\(klein\\)__\n     \\+ _Brot_\n     \\+ _Senf & Co\\._\n    ℹ️ A, B\n • __Suppe__\n  2,00 €\n"
    );
}

#[test]
fn stuwe_plan_with_different_prices_and_variations() {
    let mut grill = dish("Wurst", "3,10 €");
    grill.variations = Some(vec![
        MealVariation { name: "scharf".to_string(), allergens_and_add: Some("C".to_string()) },
        MealVariation { name: "mild".to_string(), allergens_and_add: None },
    ]);
    let groups = vec![MealGroup {
        meal_type: "Grill".to_string(),
        sub_meals: vec![grill, dish("Steak!", "4,50 €")],
    }];
    assert_eq!(
        mealgroups_to_msg_with(&groups, monday(2), 0, 0),
        "☀️ Montag, 06\\.05\\.2024 ☀️\n_      \\(Übermorgen\\)\n_\n*Grill*\n • __Wurst__\n   3,10 €\n   → *Variationen:*\n       • _scharf_\n         ℹ️ C\n       • _mild_\n • __Steak\\!__\n   4,50 €\n"
    );
}

#[test]
fn stuwe_plan_without_data() {
    assert!(any_head(
        &mealgroups_to_msg(&vec![], monday(0), 0),
        "*\nkeine Daten vorhanden\\.\n*"
    ));
    assert!(any_head(
        &stuwe_build_meal_msg(Some(vec![]), monday(0), 0),
        "*\nkeine Daten vorhanden\\.\n*"
    ));
}

#[test]
fn stuwe_request_failed() {
    assert_eq!(stuwe_build_meal_msg(None, monday(0), 0), "Ein Fehler ist aufgetreten\\.");
}

#[test]
fn entities_are_decoded() {
    let groups = vec![MealGroup {
        meal_type: "A &amp; B".to_string(),
        sub_meals: vec![dish("x&nbsp;y", "1=2 <3> 4-5+6")],
    }];
    assert!(mealgroups_to_msg_with(&groups, monday(0), 1, 0)
        .ends_with("\n*A & B*\n • __x y__\n  1\\=2 \\<3\\> 4\\-5\\+6\n"));
}

#[test]
fn icons() {
    for (name, icon) in [
        ("Veganes Gericht", "🌱"),
        ("VEGETARISCH", "🧀"),
        ("Fleischgericht", "🍗"),
        ("Grill", "🍔"),
        ("Fisch", "🐟"),
        ("Pastateller", "🍝"),
        ("GEMÜSEBEILAGE", "🥕"),
        ("Sättigungsbeilage", "➕"),
        ("Schneller Teller", "♿️"),
        ("Salat", "🍽️"),
        ("Vegan vom Grill", "🌱"),
    ] {
        assert_eq!(get_mealgroup_icon(name), icon);
    }
    assert_eq!(icon_of_lowercase("VEGAN"), "🍽️");
    assert_eq!(icon_of_lowercase("vegan"), "🌱");
}

#[test]
fn stars() {
    for (eighths, text) in [
        (0, "🌑🌑🌑🌑🌑"),
        (1, "🌘🌑🌑🌑🌑"),
        (3, "🌗🌑🌑🌑🌑"),
        (5, "🌖🌑🌑🌑🌑"),
        (7, "🌕🌑🌑🌑🌑"),
        (8, "🌕🌑🌑🌑🌑"),
        (28, "🌕🌕🌕🌗🌑"),
        (39, "🌕🌕🌕🌕🌕"),
        (40, "🌕🌕🌕🌕🌕"),
        (48, "🌕🌕🌕🌕🌕🌕"),
    ] {
        assert_eq!(rating_to_stars(eighths), text);
    }
}

#[test]
fn stars_agree_with_the_float() {
    for i in 0..=500 {
        let rating = i as f32 / 100.0;
        let floor = rating.floor();
        let partial = match rating - floor {
            r if r >= 0.875 => '🌕',
            r if r >= 0.625 => '🌖',
            r if r >= 0.375 => '🌗',
            r if r >= 0.125 => '🌘',
            _ => '🌑',
        };
        let mut expected = "🌕".repeat(floor as usize);
        if (floor as usize) < 5 {
            expected.push(partial);
            let missing = 5 - expected.chars().count();
            expected.push_str(&"🌑".repeat(missing));
        }
        assert_eq!(rating_to_stars((rating * 8.0).floor() as i64), expected, "{rating}");
    }
}

#[test]
fn mm_categories_in_order() {
    let meals = vec![
        mm_dish("b", "1", "1 €"),
        mm_dish("a", "2", "1 €"),
        mm_dish("b", "3", "2 €"),
        mm_dish("Z", "4", "1 €"),
        mm_dish("ä", "5", "1 €"),
    ];
    assert_eq!(categories(&meals), vec!["Z", "a", "b", "ä"]);
    assert_eq!(category_price(&meals, "b"), (0, false));
    assert_eq!(category_price(&meals, "Z"), (3, true));
}

#[test]
fn mm_plan_with_everything() {
    let mut rice = mm_dish("Veganes Gericht", "Reis", "2,00 €");
    rice.description = " Bohnen · N/A·  · Mais ".to_string();
    rice.allergens = "Soja".to_string();
    rice.rating_eighths = 28;
    rice.rating_text = "3.5".to_string();
    rice.votes = 2;
    let meals: Result<Vec<MensiMeal>, String> = Ok(vec![
        mm_dish("Vegetarisch", "Auflauf", "2,50 €"),
        rice,
        mm_dish("Veganes Gericht", "Nudeln", "2,10 €"),
    ]);
    assert_eq!(
        mm_build_meal_msg_with(&meals, monday(0), 1, true, 1),
        "🦀 Montag, 06\\.05\\.2024 🦀\n\n🌱 *Veganes Gericht*\n • __Reis__\n     \\+ _Bohnen_\n     \\+ _Mais_\n    ⓘ Soja\n   2,00 €\n    Bewertung: 🌕🌕🌕🌗🌑 \\(3\\.5\\)\n • __Nudeln__\n   2,10 €\n\n🧀 *Vegetarisch*\n • __Auflauf__\n  2,50 €\n"
    );
    let without = mm_build_meal_msg_with(&meals, monday(0), 1, false, 1);
    assert!(!without.contains("Soja"));
}

#[test]
fn allergens_add_lines() {
    let mut meals = vec![
        mm_dish("B", "Reis", "1 €"),
        mm_dish("A", "Nudeln & Soße", "2 €"),
        mm_dish("B", "Suppe\nmit Brot", "2 €"),
        mm_dish("C", "Auflauf", "3 €"),
    ];
    meals[0].allergens = "Soja (1), Ei".to_string();
    meals[1].allergens = "".to_string();
    meals[2].allergens = "ⓘ".to_string();
    let meals = Ok(meals);
    for (raised, ahead) in [(0, 0), (1, 0), (2, 0), (0, 1)] {
        let short = mm_build_meal_msg_with(&meals, monday(raised), ahead, false, 2);
        let long = mm_build_meal_msg_with(&meals, monday(raised), ahead, true, 2);
        assert!(!short.contains('ⓘ'));
        let (marked, others): (Vec<&str>, Vec<&str>) =
            long.split_inclusive('\n').partition(|line| line.contains('ⓘ'));
        assert_eq!(others.concat(), short);
        assert_eq!(marked, ["    ⓘ \n", "    ⓘ Soja \\(1\\), Ei\n", "    ⓘ ⓘ\n"]);
    }
}

#[test]
fn mm_plan_without_data() {
    assert!(any_head(
        &mm_build_meal_msg(&Ok(vec![]), monday(0), 0, true),
        "*\nkeine Daten vorhanden\\.\n*"
    ));
}

#[test]
fn mm_request_failed() {
    assert!(any_head(
        &mm_build_meal_msg(&Err("no_such-host.".to_string()), monday(0), 0, true),
        "*\nMensiMates\\-Abfrage fehlgeschlagen:\n*no\\_such\\-host\\."
    ));
}

#[test]
fn plans_come_from_the_right_service() {
    let date = monday(0).date;
    assert_eq!(
        plan_url(Backend::StuWe, "http://api", 106, date),
        "http://api/canteens/106/days/2024-05-06"
    );
    assert_eq!(
        plan_url(Backend::MensiMates, "http://api", 3, date),
        "https://api.cyber-biene.de/mensaHub/meal/servingDate/2024-05-06/fromMensa/3"
    );
    assert_eq!(meals_url("x", 0, date), "x/canteens/0/days/2024-05-06");
    assert_eq!(mm_meals_url(0, date), plan_url(Backend::MensiMates, "", 0, date));
    assert_eq!(mensen_url("http://api"), "http://api/canteens");
    assert_eq!(mm_mensen_url(), "https://api.cyber-biene.de/mensaHub/mensa/getMensas");
}

#[test]
fn requests_ask_for_the_day_that_is_shown() {
    let saturday = CalendarDate { year: 2024, month: 5, day: 4 };
    let request = |backend, ahead| request_plan(saturday, backend, "http://api", 106, ahead);
    assert_eq!(
        request(Backend::StuWe, 1),
        Some(PlanRequest {
            day: monday(1),
            days_forward: 1,
            url: "http://api/canteens/106/days/2024-05-06".to_string(),
        })
    );
    assert_eq!(
        request(Backend::MensiMates, 0),
        Some(PlanRequest {
            day: monday(2),
            days_forward: 0,
            url: "https://api.cyber-biene.de/mensaHub/meal/servingDate/2024-05-06/fromMensa/106"
                .to_string(),
        })
    );
    assert_eq!(request(Backend::StuWe, i64::MAX), None);
    let now = request_plan_from_now(Backend::StuWe, "x", 3, 2).unwrap();
    assert!(now.day.raised <= 2);
    assert_eq!(now.days_forward, 2);
    assert_eq!(now.url, plan_url(Backend::StuWe, "x", 3, now.day.date));
    assert_eq!(request_plan_from_now(Backend::StuWe, "x", 3, i64::MIN), None);
}

#[test]
fn plans_are_shown_by_service() {
    let mm = FetchedPlan::MensiMates(Ok(vec![]));
    let stuwe = FetchedPlan::StuWe(Some(vec![]));
    let request =
        PlanRequest { day: monday(0), days_forward: 0, url: "http://api/plan".to_string() };
    for plan in [mm, stuwe] {
        assert!(any_head(
            &build_meal_message_dispatcher(plan, &request, false),
            "*\nkeine Daten vorhanden\\.\n*"
        ));
    }
    assert_eq!(
        build_meal_message_dispatcher(FetchedPlan::StuWe(None), &request, false),
        "Ein Fehler ist aufgetreten\\."
    );
}

#[test]
fn canteens_by_number() {
    let list = || {
        vec![
            GetMensasMensa { id: 3, name: "C".to_string() },
            GetMensasMensa { id: 1, name: "A".to_string() },
            GetMensasMensa { id: 3, name: "B".to_string() },
        ]
    };
    for mensen in [get_mensen(list()), mm_parser::get_mensen(list())] {
        let all: Vec<(u32, String)> = mensen.into_iter().collect();
        assert_eq!(all, vec![(1, "A".to_string()), (3, "B".to_string())]);
    }
}
