//! CampusDual.
use stuwe_telegram_rs::campusdual_fetcher::{
    after_login_page, after_redirect, compare_campusdual_grades, compare_campusdual_signup_options,
    extract_exam_registr_options, extract_grades, get_campusdual_data, grade_of_line,
    grades_message, login_page_request, login_request, save_campusdual_grades,
    save_campusdual_signup_options, signup_of_line, signup_options_message, status_of_icon,
    CampusDualFailure, CampusDualRequest, CampusDualState, CampusDualStep, PageError, TableLine,
};
use stuwe_telegram_rs::data_types::{CampusDualError, CampusDualGrade, CampusDualSignupOption};

const GRADES: &str = r#"<html><body><table id="acwork"><thead><tr><td>Modul</td></tr></thead><tbody>
<tr id="node-1" class="child-of-node-0"><td>Mathe <b>I</b></td><td>1,3</td><td>x</td></tr>
<tr id="node-11" class="child-of-node-1"><td>Klausur</td><td>1,3</td></tr>
<tr id="node-12" class="child-of-node-1"><td>Labor</td><td>1,3</td></tr>
<tr id="node-2" class="child-of-node-0"><td>Physik</td><td>2,0</td></tr>
</tbody></table></body></html>"#;

const EXAMS: &str = r#"<table id="expproc"><tbody>
<tr id="node-1" class="child-of-node-0"><td>Mathe</td><td>Klausur</td></tr>
<tr class="child-of-node-1"><td><img src="/images/yellow.png"></td></tr>
<tr class="child-of-node-1"><td><img src="/images/missed.png"></td></tr>
<tr id="node-2" class="child-of-node-0"><td>Physik</td><td>Labor</td></tr>
<tr class="child-of-node-2"><td><img src="/images/other.png"></td></tr>
</tbody></table>"#;

fn grade(name: &str, grade: &str, subgrades: usize) -> CampusDualGrade {
    CampusDualGrade { name: name.to_string(), grade: grade.to_string(), subgrades }
}

fn exam(name: &str, verfahren: &str, status: &str) -> CampusDualSignupOption {
    CampusDualSignupOption {
        name: name.to_string(),
        verfahren: verfahren.to_string(),
        status: status.to_string(),
    }
}

fn line(id: Option<&str>, cells: &[Option<&str>]) -> TableLine {
    TableLine {
        id: id.map(|s| s.to_string()),
        cells: cells.iter().map(|c| c.iter().map(|s| s.to_string()).collect()).collect(),
    }
}

fn page_failed(e: PageError) -> CampusDualStep {
    CampusDualStep::Failed(CampusDualFailure::Page(e))
}

#[test]
fn grades_on_a_page() {
    assert_eq!(
        extract_grades(GRADES),
        Ok(vec![grade("Mathe ", "1,3", 2), grade("Physik", "2,0", 0)])
    );
}

#[test]
fn grades_page_without_table() {
    assert_eq!(extract_grades("<html></html>"), Err(PageError::TableMissing));
    assert_eq!(extract_grades(EXAMS), Err(PageError::TableMissing));
}

#[test]
fn grades_page_with_line_without_id() {
    let page = GRADES.replace("id=\"node-2\" ", "");
    assert_eq!(extract_grades(&page), Err(PageError::LineWithoutId));
}

#[test]
fn grades_page_with_missing_cells() {
    let page = GRADES.replace("<td>Physik</td><td>2,0</td>", "<td>Physik</td>");
    assert_eq!(extract_grades(&page), Err(PageError::Malformed));
    let page = GRADES.replace("<td>2,0</td>", "<td></td>");
    assert_eq!(extract_grades(&page), Err(PageError::Malformed));
    let page = GRADES.replace("id=\"node-2\"", "id=\"a b!\"");
    assert_eq!(extract_grades(&page), Err(PageError::Malformed));
}

#[test]
fn grades_page_with_empty_table() {
    assert_eq!(
        extract_grades("<table id=\"acwork\"><tbody></tbody></table>"),
        Ok(vec![])
    );
}

#[test]
fn grade_in_a_line() {
    let full = line(Some("n"), &[Some("Mathe"), Some("1,0")]);
    assert_eq!(grade_of_line(&full, Some(3)), Ok(grade("Mathe", "1,0", 3)));
    assert_eq!(grade_of_line(&full, None), Err(PageError::Malformed));
    let nameless = line(None, &[]);
    assert_eq!(grade_of_line(&nameless, Some(0)), Err(PageError::LineWithoutId));
    let empty = line(Some("n"), &[Some("Mathe"), None]);
    assert_eq!(grade_of_line(&empty, Some(0)), Err(PageError::Malformed));
}

#[test]
fn exams_on_a_page() {
    assert_eq!(
        extract_exam_registr_options(EXAMS),
        Ok(vec![exam("Mathe", "Klausur", "📝"), exam("Physik", "Labor", "???")])
    );
}

#[test]
fn exams_page_with_something_missing() {
    for page in [
        "<html></html>".to_string(),
        EXAMS.replace("id=\"node-1\" ", ""),
        EXAMS.replace("<td>Labor</td>", ""),
        EXAMS.replace("child-of-node-2", "child-of-node-3"),
        EXAMS.replace("<img src=\"/images/other.png\">", ""),
        EXAMS.replace("src=\"/images/other.png\"", ""),
    ] {
        assert_eq!(extract_exam_registr_options(&page), Err(PageError::Malformed));
    }
}

#[test]
fn exam_in_a_line() {
    let full = line(Some("n"), &[Some("Mathe"), Some("Klausur")]);
    let icon = |s: &str| Some(vec![vec![Some(s.to_string())]]);
    assert_eq!(
        signup_of_line(&full, &icon("/images/missed.png")),
        Ok(exam("Mathe", "Klausur", "🚫"))
    );
    for icons in [None, Some(vec![]), Some(vec![vec![]]), Some(vec![vec![None]])] {
        assert_eq!(signup_of_line(&full, &icons), Err(PageError::Malformed));
    }
    assert_eq!(
        signup_of_line(&line(None, &[Some("a"), Some("b")]), &icon("x")),
        Err(PageError::Malformed)
    );
}

#[test]
fn icons_of_exams() {
    for (icon, status) in [
        ("/images/missed.png", "🚫"),
        ("/images/yellow.png", "📝"),
        ("/images/exclamation.jpg", "⚠️"),
        ("/images/exclamation.png", "???"),
        ("", "???"),
    ] {
        assert_eq!(status_of_icon(icon), status);
    }
}

#[test]
fn login_starts_with_the_form() {
    assert_eq!(
        login_page_request(),
        CampusDualRequest::Get {
            url: "https://erp.campus-dual.de/sap/bc/webdynpro/sap/zba_initss?sap-client=100&sap-language=de&uri=https://selfservice.campus-dual.de/index/login".to_string(),
        }
    );
}

#[test]
fn login_posts_the_form() {
    let page = "<form><input name=\"sap-login-XSRF\" value=\"t&amp;k\"></form>";
    let step = get_campusdual_data(CampusDualState::LoginPage, page, "user", "word");
    assert_eq!(
        step,
        CampusDualStep::Ask {
            request: login_request("user", "word", "t&k"),
            then: CampusDualState::Redirect,
        }
    );
    match login_request("user", "word", "t&k") {
        CampusDualRequest::Login { url, fields, user_agent } => {
            assert_eq!(url, "https://erp.campus-dual.de/sap/bc/webdynpro/sap/zba_initss?uri=https%3a%2f%2fselfservice.campus-dual.de%2findex%2flogin&sap-client=100&sap-language=DE");
            let fields: Vec<(&str, &str)> =
                fields.iter().map(|f| (f.0.as_str(), f.1.as_str())).collect();
            assert_eq!(
                fields,
                [("sap-user", "user"), ("sap-password", "word"), ("sap-login-XSRF", "t&k")]
            );
            assert_eq!(user_agent, "Mozilla/5.0 (Macintosh; Intel Mac OS X 10_15_7) AppleWebKit/537.36 (KHTML, like Gecko) Chrome/117.0.0.0 Safari/537.36");
        }
        other => panic!("{other:?}"),
    }
}

#[test]
fn login_without_token() {
    let step = get_campusdual_data(CampusDualState::LoginPage, "<form></form>", "u", "p");
    assert_eq!(step, page_failed(PageError::TokenMissing));
    let page = "<input name=\"sap-login-XSRF\">";
    let step = get_campusdual_data(CampusDualState::LoginPage, page, "u", "p");
    assert_eq!(step, page_failed(PageError::Malformed));
    assert_eq!(after_login_page(None, "u", "p"), page_failed(PageError::TokenMissing));
    assert_eq!(after_login_page(Some(None), "u", "p"), page_failed(PageError::Malformed));
}

#[test]
fn login_is_judged_by_the_title() {
    let after = |title: &str| {
        let page = format!("<html><head><title>{title}</title></head></html>");
        get_campusdual_data(CampusDualState::Redirect, &page, "u", "p")
    };
    assert_eq!(
        after("Anmeldung"),
        CampusDualStep::Failed(CampusDualFailure::Login(CampusDualError::CdBadCredentials))
    );
    for title in ["Initialisierung Selfservices", "Etwas anderes"] {
        assert_eq!(
            after(title),
            CampusDualStep::Ask {
                request: CampusDualRequest::Get {
                    url: "https://selfservice.campus-dual.de/acwork/index".to_string(),
                },
                then: CampusDualState::Grades,
            }
        );
        assert_eq!(after(title), after_redirect(Some(title.to_string())));
    }
    let step = get_campusdual_data(CampusDualState::Redirect, "<p></p>", "u", "p");
    assert_eq!(step, page_failed(PageError::Malformed));
}

#[test]
fn title_with_attributes() {
    let page = "<svg><title zeta=\"1\" alpha=\"2\" mid=\"3\">An<i b=\"1\" a=\"2\"></i></title></svg>";
    let once = get_campusdual_data(CampusDualState::Redirect, page, "u", "p");
    for _ in 0..20 {
        assert_eq!(get_campusdual_data(CampusDualState::Redirect, page, "u", "p"), once);
    }
}

#[test]
fn first_of_several_is_read() {
    let page = "<input name=\"sap-login-XSRF\" value=\"a\"><input name=\"sap-login-XSRF\" value=\"b\">";
    assert_eq!(
        get_campusdual_data(CampusDualState::LoginPage, page, "u", "p"),
        CampusDualStep::Ask {
            request: login_request("u", "p", "a"),
            then: CampusDualState::Redirect,
        }
    );
    let page = "<title>Anmeldung</title><svg><title>Etwas</title></svg>";
    assert_eq!(
        get_campusdual_data(CampusDualState::Redirect, page, "u", "p"),
        CampusDualStep::Failed(CampusDualFailure::Login(CampusDualError::CdBadCredentials))
    );
}

#[test]
fn pages_lead_to_the_result() {
    let step = get_campusdual_data(CampusDualState::Grades, GRADES, "u", "p");
    let grades = extract_grades(GRADES).unwrap();
    let then = match step {
        CampusDualStep::Ask { request, then } => {
            assert_eq!(
                request,
                CampusDualRequest::Get {
                    url: "https://selfservice.campus-dual.de/acwork/expproc".to_string(),
                }
            );
            then
        }
        other => panic!("{other:?}"),
    };
    assert_eq!(
        get_campusdual_data(then, EXAMS, "u", "p"),
        CampusDualStep::Finished {
            grades,
            signup_options: extract_exam_registr_options(EXAMS).unwrap(),
        }
    );
    assert_eq!(
        get_campusdual_data(CampusDualState::Grades, "", "u", "p"),
        page_failed(PageError::TableMissing)
    );
    assert_eq!(
        get_campusdual_data(CampusDualState::SignupOptions { grades: vec![] }, "", "u", "p"),
        page_failed(PageError::Malformed)
    );
}

#[test]
fn new_grades() {
    let a = grade("A", "1", 0);
    let b = grade("B", "2", 1);
    let changed = grade("B", "2", 2);
    let received = vec![a.clone(), changed.clone()];
    let mut stored = None;
    assert_eq!(compare_campusdual_grades(&received, &mut stored), Some(received.clone()));
    assert_eq!(stored, Some(received.clone()));
    assert_eq!(compare_campusdual_grades(&received, &mut stored), None);
    let mut stored = Some(vec![b.clone(), a.clone()]);
    assert_eq!(compare_campusdual_grades(&received, &mut stored), Some(vec![changed]));
    assert_eq!(stored, Some(vec![b, a.clone()]));
    assert_eq!(compare_campusdual_grades(&vec![], &mut None), Some(vec![]));
    assert_eq!(compare_campusdual_grades(&vec![], &mut Some(vec![a])), None);
    save_campusdual_grades(&received, &mut stored);
    assert_eq!(stored, Some(received));
}

#[test]
fn new_exams() {
    let a = exam("A", "x", "📝");
    let b = exam("A", "x", "🚫");
    let c = exam("A", "y", "📝");
    let received = vec![c.clone(), a.clone(), b.clone()];
    let mut stored = None;
    assert_eq!(compare_campusdual_signup_options(&received, &mut stored), Some(received.clone()));
    assert_eq!(stored, Some(received.clone()));
    assert_eq!(compare_campusdual_signup_options(&received, &mut stored), None);
    let mut stored = Some(vec![a.clone()]);
    assert_eq!(compare_campusdual_signup_options(&received, &mut stored), Some(vec![c, b]));
    assert_eq!(stored, Some(vec![a]));
    save_campusdual_signup_options(&received, &mut stored);
    assert_eq!(stored, Some(received));
}

#[test]
fn messages_about_news() {
    assert_eq!(
        grades_message(&vec![grade("A", "1,0", 0), grade("B", "5,0", 0)]),
        "Neue Note:\nA: 1,0\nB: 5,0"
    );
    assert_eq!(grades_message(&vec![]), "Neue Note:");
    assert_eq!(
        signup_options_message(&vec![exam("A", "x", "📝")]),
        "Neue Anmeldemöglichkeit:\n📝 (x) — A"
    );
}

#[test]
fn campusdual_errors_in_words() {
    assert_eq!(CampusDualError::CdInitFailed(503).text(), "CampusDual init failed: 503");
    assert_eq!(CampusDualError::CdZbaFailed(404).text(), "CampusDual zba_init failed: 404");
    assert_eq!(CampusDualError::CdBadCredentials.text(), "CampusDual: bad credentials");
    assert_eq!(PageError::TableMissing.text(), "CD grades page: #acwork tbody missing");
    assert_eq!(PageError::LineWithoutId.text(), "CD: grades table line has no ID");
    assert_eq!(PageError::TokenMissing.text(), "CD login stage 1: XSRF token missing");
    assert_eq!(PageError::Malformed.text(), "CD: malformed page");
}
