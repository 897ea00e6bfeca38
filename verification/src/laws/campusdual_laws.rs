//! What is read from CampusDual, and what is reported of it.
use crate::campusdual_fetcher::{
    follows_grades, follows_login_page, follows_redirect, follows_signups, grade_in, grade_rows,
    grade_sublines, grades_in, news, page_grades, page_images, page_lines, page_signups, reported,
    signup_icons, signup_in, signup_rows, signups_in, status_of, stored_after_comparing,
    stored_after_sending, CampusDualFailure, CampusDualState, CampusDualStep, GradeView, LineView,
    PageError, RequestView, SignupView,
};
use crate::data_types::CampusDualError;
use crate::task_scheduler_funcs::{grade_notice, signup_notice, CampusDualNews};
use vstd::prelude::*;

verus! {

// ---------------------------------------------------------------------------------------------
// Messages
// ---------------------------------------------------------------------------------------------

/// The message about a list of exams is the message about the list without its last exam, and then a
/// row that is made of the status, the procedure and the name of that exam and of nothing else.
pub proof fn law_exam_rows(chat_id: i64, options: Seq<SignupView>, last: SignupView)
    ensures
        ({
            let row = "\n"@ + last.status + " ("@ + last.verfahren + ") — "@ + last.name;
            let n = options.len() as int;
            &&& signup_rows(options.push(last), n + 1) == signup_rows(options, n) + row
            &&& signup_rows(Seq::<SignupView>::empty(), 0) == Seq::<char>::empty()
            &&& signup_notice(chat_id, Some(options.push(last)))[0].2 == signup_notice(
                chat_id,
                Some(options),
            )[0].2 + row
        }),
{
    lemma_exam_rows_agree(options.push(last), options, options.len() as int);
    let row = "\n"@ + last.status + " ("@ + last.verfahren + ") — "@ + last.name;
    assert("Neue Anmeldemöglichkeit:"@ + (signup_rows(options, options.len() as int) + row)
        == "Neue Anmeldemöglichkeit:"@ + signup_rows(options, options.len() as int) + row);
}

proof fn lemma_exam_rows_agree(a: Seq<SignupView>, b: Seq<SignupView>, n: int)
    requires
        0 <= n <= a.len(),
        n <= b.len(),
        forall|i: int| 0 <= i < n ==> a[i] == b[i],
    ensures
        signup_rows(a, n) == signup_rows(b, n),
    decreases n,
{
    if n > 0 {
        lemma_exam_rows_agree(a, b, n - 1);
    }
}

/// Row `i` of the message about exams is made of exam `i`: all rows one behind the other are the
/// message.
pub proof fn law_exam_row(options: Seq<SignupView>, n: int)
    requires
        0 <= n <= options.len(),
    ensures
        signup_rows(options, n) == Seq::new(
            n as nat,
            |i: int|
                "\n"@ + options[i].status + " ("@ + options[i].verfahren + ") — "@
                    + options[i].name,
        ).flatten(),
    decreases n,
{
    let row = |i: int|
        "\n"@ + options[i].status + " ("@ + options[i].verfahren + ") — "@ + options[i].name;
    let rows = Seq::new(n as nat, row);
    if n == 0 {
        assert(rows.flatten() == Seq::<char>::empty());
    } else {
        law_exam_row(options, n - 1);
        let before = Seq::new((n - 1) as nat, row);
        assert(rows == before.push(row(n - 1)));
        before.lemma_flatten_push(row(n - 1));
    }
}

/// The message about a list of results is the message about the list without its last result, and then
/// a row that is made of the name and the grade of that result and of nothing else.
pub proof fn law_grade_rows(chat_id: i64, grades: Seq<GradeView>, last: GradeView)
    ensures
        ({
            let row = "\n"@ + last.name + ": "@ + last.grade;
            let n = grades.len() as int;
            &&& grade_rows(grades.push(last), n + 1) == grade_rows(grades, n) + row
            &&& grade_rows(Seq::<GradeView>::empty(), 0) == Seq::<char>::empty()
            &&& grade_notice(chat_id, Some(grades.push(last)))[0].2 == grade_notice(
                chat_id,
                Some(grades),
            )[0].2 + row
        }),
{
    lemma_grade_rows_agree(grades.push(last), grades, grades.len() as int);
    let row = "\n"@ + last.name + ": "@ + last.grade;
    assert("Neue Note:"@ + (grade_rows(grades, grades.len() as int) + row) == "Neue Note:"@
        + grade_rows(grades, grades.len() as int) + row);
}

proof fn lemma_grade_rows_agree(a: Seq<GradeView>, b: Seq<GradeView>, n: int)
    requires
        0 <= n <= a.len(),
        n <= b.len(),
        forall|i: int| 0 <= i < n ==> a[i] == b[i],
    ensures
        grade_rows(a, n) == grade_rows(b, n),
    decreases n,
{
    if n > 0 {
        lemma_grade_rows_agree(a, b, n - 1);
    }
}

/// Row `i` of the message about results is made of result `i`: all rows one behind the other are the
/// message.
pub proof fn law_grade_row(grades: Seq<GradeView>, n: int)
    requires
        0 <= n <= grades.len(),
    ensures
        grade_rows(grades, n) == Seq::new(
            n as nat,
            |i: int| "\n"@ + grades[i].name + ": "@ + grades[i].grade,
        ).flatten(),
    decreases n,
{
    let row = |i: int| "\n"@ + grades[i].name + ": "@ + grades[i].grade;
    let rows = Seq::new(n as nat, row);
    if n == 0 {
        assert(rows.flatten() == Seq::<char>::empty());
    } else {
        law_grade_row(grades, n - 1);
        let before = Seq::new((n - 1) as nat, row);
        assert(rows == before.push(row(n - 1)));
        before.lemma_flatten_push(row(n - 1));
    }
}

/// A chat gets one message about results where there are some to report, and none where there are
/// none; and the same of exams. It says what it is about, and then what is new.
pub proof fn law_notices(
    chat_id: i64,
    grades: Option<Seq<GradeView>>,
    options: Option<Seq<SignupView>>,
)
    ensures
        match grades {
            Some(new) => grade_notice(chat_id, grades) == seq![
                (
                    chat_id,
                    CampusDualNews::Grades,
                    "Neue Note:"@ + Seq::new(
                        new.len(),
                        |i: int| "\n"@ + new[i].name + ": "@ + new[i].grade,
                    ).flatten(),
                ),
            ],
            None => grade_notice(chat_id, grades).len() == 0,
        },
        match options {
            Some(new) => signup_notice(chat_id, options) == seq![
                (
                    chat_id,
                    CampusDualNews::SignupOptions,
                    "Neue Anmeldemöglichkeit:"@ + Seq::new(
                        new.len(),
                        |i: int|
                            "\n"@ + new[i].status + " ("@ + new[i].verfahren + ") — "@ + new[i].name,
                    ).flatten(),
                ),
            ],
            None => signup_notice(chat_id, options).len() == 0,
        },
{
    if let Some(new) = grades {
        law_grade_row(new, new.len() as int);
    }
    if let Some(new) = options {
        law_exam_row(new, new.len() as int);
    }
}

// ---------------------------------------------------------------------------------------------
// What is new
// ---------------------------------------------------------------------------------------------

/// Whether something is not among what is known.
pub open spec fn is_new<T>(known: Seq<T>) -> spec_fn(T) -> bool {
    |x: T| !known.contains(x)
}

proof fn lemma_news<T>(received: Seq<T>, known: Seq<T>, n: int)
    requires
        0 <= n <= received.len(),
    ensures
        news(received, known, n) == received.take(n).filter(is_new(known)),
    decreases n,
{
    reveal(Seq::filter);
    if n > 0 {
        lemma_news(received, known, n - 1);
        assert(received.take(n).drop_last() == received.take(n - 1));
        assert(received.take(n).last() == received[n - 1]);
    }
}

/// What is reported is what was received, without what was known, in the order and as often as it was
/// received. Where nothing is left, nothing is reported. Where nothing was ever known, all is.
pub proof fn law_reported<T>(received: Seq<T>, known: Seq<T>)
    ensures
        reported(received, None) == Some(received),
        reported(received, Some(known)) == if forall|x: T| #[trigger]
            received.contains(x) ==> known.contains(x) {
            None
        } else {
            Some(received.filter(is_new(known)))
        },
{
    lemma_news(received, known, received.len() as int);
    assert(received.take(received.len() as int) == received);
    let new = received.filter(is_new(known));
    if forall|x: T| #[trigger] received.contains(x) ==> known.contains(x) {
        if new.len() > 0 {
            received.lemma_filter_pred(is_new(known), 0);
            assert(new.contains(new[0]));
            received.lemma_filter_contains_rev(is_new(known), new[0]);
            assert(received.contains(new[0]));
        }
    } else {
        let x = choose|x: T| #[trigger] received.contains(x) && !known.contains(x);
        let i = choose|i: int| 0 <= i < received.len() && received[i] == x;
        received.lemma_filter_contains(is_new(known), i);
        assert(new.contains(x));
        let j = choose|j: int| 0 <= j < new.len() && new[j] == x;
        assert(new.len() > 0);
    }
}

/// What is stored is either what was stored or all that was received: the latter where nothing was
/// stored, and once a message has been sent.
pub proof fn law_stored<T>(received: Seq<T>, before: Seq<T>, nothing: Option<Seq<T>>)
    requires
        nothing is None,
    ensures
        stored_after_comparing(received, nothing) == Some(received),
        stored_after_comparing(received, Some(before)) == Some(before),
        stored_after_sending(received, Some(before), true) == Some(received),
        stored_after_sending(received, Some(before), false) == Some(before),
        stored_after_sending(received, nothing, true) == Some(received),
        stored_after_sending(received, nothing, false) == nothing,
{
}

// ---------------------------------------------------------------------------------------------
// What a page says
// ---------------------------------------------------------------------------------------------

/// The lines of the first table of results in a page, if it has one.
pub open spec fn result_lines(html: Seq<char>) -> Option<Seq<LineView>> {
    match page_lines(html, "#acwork tbody"@, ".child-of-node-0"@, "td"@, "id"@) {
        Some(tables) => if tables.len() > 0 {
            Some(tables[0])
        } else {
            None
        },
        None => None,
    }
}

/// The images below a line of the first table with this identifier, one list for each line below it.
pub open spec fn images_below(html: Seq<char>, table: Seq<char>, id: Seq<char>) -> Option<
    Seq<Seq<Option<Seq<char>>>>,
> {
    match page_images(html, table, ".child-of-"@ + id, "img"@, "src"@) {
        Some(tables) => if tables.len() > 0 {
            Some(tables[0])
        } else {
            None
        },
        None => None,
    }
}

/// Whether the first two cells of a line hold text.
pub open spec fn has_two_texts(line: LineView) -> bool {
    line.1.len() >= 2 && line.1[0].len() > 0 && line.1[1].len() > 0
}

/// Whether a line of results says all that it should.
pub open spec fn is_result(html: Seq<char>, line: LineView) -> bool {
    line.0 is Some && has_two_texts(line) && images_below(html, "#acwork tbody"@, line.0->0) is Some
}

proof fn lemma_results(html: Seq<char>, lines: Seq<LineView>, n: int)
    requires
        0 <= n <= lines.len(),
    ensures
        match grades_in(html, lines, n) {
            Ok(grades) => {
                &&& grades.len() == n
                &&& forall|i: int|
                    0 <= i < n ==> is_result(html, #[trigger] lines[i]) && grades[i] == (GradeView {
                        name: lines[i].1[0][0],
                        grade: lines[i].1[1][0],
                        subgrades: images_below(
                            html,
                            "#acwork tbody"@,
                            lines[i].0->0,
                        )->0.len(),
                    })
            },
            Err(e) => exists|k: int|
                0 <= k < n && first_bad_result(html, lines, k) && e == if (#[trigger] lines[k]).0
                    is None {
                    PageError::LineWithoutId
                } else {
                    PageError::Malformed
                },
        },
    decreases n,
{
    if n > 0 {
        lemma_results(html, lines, n - 1);
        let line = lines[n - 1];
        match grades_in(html, lines, n - 1) {
            Ok(before) => {
                if !is_result(html, line) {
                    assert(first_bad_result(html, lines, n - 1));
                    assert(grade_in(line, grade_sublines(html, line.0)) is Err);
                }
            },
            Err(_) => {},
        }
    }
}

/// Whether a line of results is the first one that does not say all that it should.
pub open spec fn first_bad_result(html: Seq<char>, lines: Seq<LineView>, k: int) -> bool {
    &&& !is_result(html, lines[k])
    &&& forall|j: int| 0 <= j < k ==> is_result(html, #[trigger] lines[j])
}

/// A page of results gives one result for every line of its table: the first text of the first cell is
/// its name, that of the second its grade, and the lines below it are counted. A page without a table
/// gives none, and neither does one with a line that says too little: the first such line tells why.
pub proof fn law_results(html: Seq<char>)
    ensures
        match (result_lines(html), page_grades(html)) {
            (None, outcome) => outcome == Err::<Seq<GradeView>, PageError>(PageError::TableMissing),
            (Some(lines), Ok(grades)) => {
                &&& grades.len() == lines.len()
                &&& forall|i: int|
                    0 <= i < lines.len() ==> is_result(html, #[trigger] lines[i]) && grades[i] == (
                    GradeView {
                        name: lines[i].1[0][0],
                        grade: lines[i].1[1][0],
                        subgrades: images_below(
                            html,
                            "#acwork tbody"@,
                            lines[i].0->0,
                        )->0.len(),
                    })
            },
            (Some(lines), Err(e)) => exists|k: int|
                0 <= k < lines.len() && first_bad_result(html, lines, k) && e == if (
                #[trigger] lines[k]).0 is None {
                    PageError::LineWithoutId
                } else {
                    PageError::Malformed
                },
        },
{
    if let Some(lines) = result_lines(html) {
        lemma_results(html, lines, lines.len() as int);
    }
}

/// The lines of the first table of exams in a page, if it has one.
pub open spec fn exam_lines(html: Seq<char>) -> Option<Seq<LineView>> {
    match page_lines(html, "#expproc tbody"@, ".child-of-node-0"@, "td"@, "id"@) {
        Some(tables) => if tables.len() > 0 {
            Some(tables[0])
        } else {
            None
        },
        None => None,
    }
}

/// The icon of an exam: the source of the first image in the first line below it.
pub open spec fn exam_icon(html: Seq<char>, line: LineView) -> Option<Seq<char>> {
    match line.0 {
        Some(id) => match images_below(html, "#expproc tbody"@, id) {
            Some(below) => if below.len() > 0 && below[0].len() > 0 {
                below[0][0]
            } else {
                None
            },
            None => None,
        },
        None => None,
    }
}

/// Whether a line of exams says all that it should.
pub open spec fn is_exam(html: Seq<char>, line: LineView) -> bool {
    line.0 is Some && has_two_texts(line) && exam_icon(html, line) is Some
}

proof fn lemma_exams(html: Seq<char>, lines: Seq<LineView>, n: int)
    requires
        0 <= n <= lines.len(),
    ensures
        match signups_in(html, lines, n) {
            Ok(options) => {
                &&& options.len() == n
                &&& forall|i: int|
                    0 <= i < n ==> is_exam(html, #[trigger] lines[i]) && options[i] == (SignupView {
                        name: lines[i].1[0][0],
                        verfahren: lines[i].1[1][0],
                        status: status_of(exam_icon(html, lines[i])->0),
                    })
            },
            Err(e) => e == PageError::Malformed && exists|k: int|
                0 <= k < n && !is_exam(html, #[trigger] lines[k]),
        },
    decreases n,
{
    if n > 0 {
        lemma_exams(html, lines, n - 1);
        let line = lines[n - 1];
        match signups_in(html, lines, n - 1) {
            Ok(before) => {
                if !is_exam(html, line) {
                    assert(signup_in(line, signup_icons(html, line.0)) is Err);
                }
            },
            Err(_) => {},
        }
    }
}

/// A page of exams gives one exam for every line of its table: the first text of the first cell is its
/// name, that of the second its procedure, and its icon tells its status. A page without a table, or
/// with a line that says too little, gives none.
pub proof fn law_exams(html: Seq<char>)
    ensures
        match (exam_lines(html), page_signups(html)) {
            (None, outcome) => outcome == Err::<Seq<SignupView>, PageError>(PageError::Malformed),
            (Some(lines), Ok(options)) => {
                &&& options.len() == lines.len()
                &&& forall|i: int|
                    0 <= i < lines.len() ==> is_exam(html, #[trigger] lines[i]) && options[i] == (
                    SignupView {
                        name: lines[i].1[0][0],
                        verfahren: lines[i].1[1][0],
                        status: status_of(exam_icon(html, lines[i])->0),
                    })
            },
            (Some(lines), Err(e)) => e == PageError::Malformed && exists|k: int|
                0 <= k < lines.len() && !is_exam(html, #[trigger] lines[k]),
        },
{
    if let Some(lines) = exam_lines(html) {
        lemma_exams(html, lines, lines.len() as int);
    }
}

/// Three icons have a meaning, each one of its own, and all others have none.
pub proof fn law_status(icon: Seq<char>)
    ensures
        status_of("/images/missed.png"@) == "🚫"@,
        status_of("/images/yellow.png"@) == "📝"@,
        status_of("/images/exclamation.jpg"@) == "⚠️"@,
        icon != "/images/missed.png"@ && icon != "/images/yellow.png"@ && icon
            != "/images/exclamation.jpg"@ ==> status_of(icon) == "???"@,
{
    reveal_strlit("/images/missed.png");
    reveal_strlit("/images/yellow.png");
    reveal_strlit("/images/exclamation.jpg");
    assert("/images/missed.png"@[8] == 'm' && "/images/yellow.png"@[8] == 'y'
        && "/images/exclamation.jpg"@[8] == 'e');
}

// ---------------------------------------------------------------------------------------------
// The way through the pages
// ---------------------------------------------------------------------------------------------

/// Whoever logs in sends the name, the password and the token of the login page, each under its own
/// name, and goes on where the answer leads. Without a token nobody logs in.
pub proof fn law_login(
    step: CampusDualStep,
    token: Option<Option<Seq<char>>>,
    username: Seq<char>,
    password: Seq<char>,
)
    requires
        follows_login_page(step, token, username, password),
    ensures
        match token {
            Some(Some(token)) => {
                &&& step matches CampusDualStep::Ask { request, then }
                &&& then is Redirect
                &&& request@ matches RequestView::Login { url, fields, user_agent }
                &&& url
                    == "https://erp.campus-dual.de/sap/bc/webdynpro/sap/zba_initss?uri=https%3a%2f%2fselfservice.campus-dual.de%2findex%2flogin&sap-client=100&sap-language=DE"@
                &&& fields.len() == 3
                &&& fields[0] == ("sap-user"@, username)
                &&& fields[1] == ("sap-password"@, password)
                &&& fields[2] == ("sap-login-XSRF"@, token)
            },
            Some(None) => step == CampusDualStep::Failed(
                CampusDualFailure::Page(PageError::Malformed),
            ),
            None => step == CampusDualStep::Failed(
                CampusDualFailure::Page(PageError::TokenMissing),
            ),
        },
{
}

/// A login is refused if and only if the login page comes back; what else comes back leads to the page
/// of results.
pub proof fn law_login_refused(step: CampusDualStep, title: Option<Seq<char>>)
    requires
        follows_redirect(step, title),
    ensures
        title == Some("Anmeldung"@) <==> step == CampusDualStep::Failed(
            CampusDualFailure::Login(CampusDualError::CdBadCredentials),
        ),
        title is None <==> step == CampusDualStep::Failed(
            CampusDualFailure::Page(PageError::Malformed),
        ),
        title is Some && title != Some("Anmeldung"@) ==> (step matches CampusDualStep::Ask {
            request,
            then,
        } && then is Grades && request@ == (RequestView::Get {
            url: "https://selfservice.campus-dual.de/acwork/index"@,
        })),
{
}

/// The results that were read come back unchanged at the end, together with the exams. A page that
/// gives none ends the way with its error.
pub proof fn law_results_are_carried(
    html: Seq<char>,
    step: CampusDualStep,
    next_html: Seq<char>,
    last: CampusDualStep,
)
    requires
        follows_grades(step, page_grades(html)),
        step matches CampusDualStep::Ask { then, .. } ==> (
        then matches CampusDualState::SignupOptions { grades } ==> follows_signups(
            last,
            crate::campusdual_fetcher::grade_views(grades@),
            page_signups(next_html),
        )),
    ensures
        match page_grades(html) {
            Ok(results) => {
                &&& step matches CampusDualStep::Ask { request, then }
                &&& request@ == (RequestView::Get {
                    url: "https://selfservice.campus-dual.de/acwork/expproc"@,
                })
                &&& match page_signups(next_html) {
                    Ok(exams) => last matches CampusDualStep::Finished { grades, signup_options }
                        && crate::campusdual_fetcher::grade_views(grades@) == results
                        && crate::campusdual_fetcher::signup_views(signup_options@) == exams,
                    Err(e) => last == CampusDualStep::Failed(CampusDualFailure::Page(e)),
                }
            },
            Err(e) => step == CampusDualStep::Failed(CampusDualFailure::Page(e)),
        },
{
}

} // verus!
