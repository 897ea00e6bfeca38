//! Results and exams of CampusDual: how one logs in, what its pages say, and what is new on them.
use crate::data_types::{CampusDualError, CampusDualGrade, CampusDualSignupOption};
use crate::text::{owned, same_text, texts};
use scraper::{ElementRef, Html, Selector};
use vstd::prelude::*;
use vstd::string::StringExecFns;

verus! {

// ---------------------------------------------------------------------------------------------
// Pages
// ---------------------------------------------------------------------------------------------

/// One line of a table: its identifier, and the pieces of text in each of its cells.
#[derive(Debug, Clone, PartialEq)]
pub struct TableLine {
    pub id: Option<String>,
    pub cells: Vec<Vec<String>>,
}

/// What is seen of a line: its identifier, and the pieces of text in each of its cells.
pub type LineView = (Option<Seq<char>>, Seq<Seq<Seq<char>>>);

/// The characters of a text, if there is one.
pub open spec fn chars_if_any(s: Option<String>) -> Option<Seq<char>> {
    match s {
        Some(s) => Some(s@),
        None => None,
    }
}

/// The characters of some texts, as far as there are any.
pub open spec fn all_chars_if_any(v: Seq<Option<String>>) -> Seq<Option<Seq<char>>> {
    v.map_values(|s: Option<String>| chars_if_any(s))
}

impl View for TableLine {
    type V = LineView;

    open spec fn view(&self) -> LineView {
        (chars_if_any(self.id), self.cells@.map_values(|pieces: Vec<String>| texts(pieces@)))
    }
}

/// The lines of the tables in a page: in each element that `table` selects, those that `line`
/// selects, each with its attribute `id_name` and, of all that `cell` selects in it, the pieces of
/// text. `None` if one of the three is no selector.
pub uninterp spec fn page_lines(
    html: Seq<char>,
    table: Seq<char>,
    line: Seq<char>,
    cell: Seq<char>,
    id_name: Seq<char>,
) -> Option<Seq<Seq<(Option<Seq<char>>, Seq<Seq<Seq<char>>>)>>>;

/// What is seen of the lines of a table.
pub open spec fn line_views(lines: Seq<TableLine>) -> Seq<LineView> {
    lines.map_values(|line: TableLine| line@)
}

/// What is seen of some tables.
pub open spec fn table_views(tables: Option<Vec<Vec<TableLine>>>) -> Option<Seq<Seq<LineView>>> {
    match tables {
        Some(tables) => Some(tables@.map_values(|lines: Vec<TableLine>| line_views(lines@))),
        None => None,
    }
}

/// `Html::parse_document` reads a page, `Selector::parse` a selector, `select` finds the elements
/// that a selector describes, `attr` gives an attribute of an element, and `text` the pieces of text
/// in it. What comes out depends on the page, the selectors and the name of the attribute alone;
/// nothing else is claimed of it.
#[verifier::external_body]
fn select_lines(html: &str, table: &str, line: &str, cell: &str, id_name: &str) -> (r: Option<
    Vec<Vec<TableLine>>,
>)
    ensures
        table_views(r) == page_lines(html@, table@, line@, cell@, id_name@),
{
    let document = Html::parse_document(html);
    let (table, line) = (Selector::parse(table).ok()?, Selector::parse(line).ok()?);
    let cell = Selector::parse(cell).ok()?;
    let read = |l: ElementRef| TableLine {
        id: l.value().attr(id_name).map(|id| id.to_string()),
        cells: l.select(&cell).map(|c| c.text().map(|t| t.to_string()).collect()).collect(),
    };
    Some(document.select(&table).map(|t| t.select(&line).map(&read).collect()).collect())
}

/// The images in the lines of the tables in a page: in each element that `table` selects, for each
/// element that `line` selects, the attribute `source_name` of each that `image` selects in it.
/// `None` if one of the three is no selector.
pub uninterp spec fn page_images(
    html: Seq<char>,
    table: Seq<char>,
    line: Seq<char>,
    image: Seq<char>,
    source_name: Seq<char>,
) -> Option<Seq<Seq<Seq<Option<Seq<char>>>>>>;

/// What is seen of the images in the lines of a table.
pub open spec fn image_views(lines: Seq<Vec<Option<String>>>) -> Seq<Seq<Option<Seq<char>>>> {
    lines.map_values(|images: Vec<Option<String>>| all_chars_if_any(images@))
}

/// What is seen of the images in some tables.
pub open spec fn table_image_views(tables: Option<Vec<Vec<Vec<Option<String>>>>>) -> Option<
    Seq<Seq<Seq<Option<Seq<char>>>>>,
> {
    match tables {
        Some(tables) => Some(
            tables@.map_values(|lines: Vec<Vec<Option<String>>>| image_views(lines@)),
        ),
        None => None,
    }
}

/// `Html::parse_document`, `Selector::parse`, `select` and `attr`. What comes out depends on the
/// page, the selectors and the name of the attribute alone; nothing else is claimed of it.
#[verifier::external_body]
fn select_images(html: &str, table: &str, line: &str, image: &str, source_name: &str) -> (r: Option<
    Vec<Vec<Vec<Option<String>>>>,
>)
    ensures
        table_image_views(r) == page_images(html@, table@, line@, image@, source_name@),
{
    let document = Html::parse_document(html);
    let (table, line) = (Selector::parse(table).ok()?, Selector::parse(line).ok()?);
    let image = Selector::parse(image).ok()?;
    let source = |i: ElementRef| i.value().attr(source_name).map(|s| s.to_string());
    let images = |l: ElementRef| l.select(&image).map(&source).collect();
    Some(document.select(&table).map(|t| t.select(&line).map(&images).collect()).collect())
}

/// The attribute `name` of each element that `selector` selects in a page, as far as it has one.
/// `None` if `selector` is no selector.
pub uninterp spec fn page_attributes(
    html: Seq<char>,
    selector: Seq<char>,
    name: Seq<char>,
) -> Option<Seq<Option<Seq<char>>>>;

/// What is seen of some attributes.
pub open spec fn attribute_views(attributes: Option<Vec<Option<String>>>) -> Option<
    Seq<Option<Seq<char>>>,
> {
    match attributes {
        Some(values) => Some(all_chars_if_any(values@)),
        None => None,
    }
}

/// `Html::parse_document`, `Selector::parse`, `select` and `attr`. What comes out depends on the
/// page, the selector and the name of the attribute alone; nothing else is claimed of it.
#[verifier::external_body]
fn select_attributes(html: &str, selector: &str, name: &str) -> (r: Option<Vec<Option<String>>>)
    ensures
        attribute_views(r) == page_attributes(html@, selector@, name@),
{
    let document = Html::parse_document(html);
    let selector = Selector::parse(selector).ok()?;
    let value = |e: ElementRef| e.value().attr(name).map(|value| value.to_string());
    Some(document.select(&selector).map(value).collect())
}

/// The contents of each element that `selector` selects in a page. `None` if `selector` is no
/// selector.
pub uninterp spec fn page_contents(html: Seq<char>, selector: Seq<char>) -> Option<Seq<Seq<char>>>;

/// What is seen of some contents.
pub open spec fn content_views(contents: Option<Vec<String>>) -> Option<Seq<Seq<char>>> {
    match contents {
        Some(contents) => Some(texts(contents@)),
        None => None,
    }
}

/// `Html::parse_document`, `Selector::parse`, `select` and `inner_html`, which writes the attributes
/// of an element in the order of the page, since scraper is built with its feature `deterministic`.
/// What comes out depends on the page and the selector alone; nothing else is claimed of it.
#[verifier::external_body]
fn select_contents(html: &str, selector: &str) -> (r: Option<Vec<String>>)
    ensures
        content_views(r) == page_contents(html@, selector@),
{
    let document = Html::parse_document(html);
    let selector = Selector::parse(selector).ok()?;
    Some(document.select(&selector).map(|e| e.inner_html()).collect())
}

/// The first of some things, if there are things and one of them is the first.
pub open spec fn first_if_any<T>(all: Option<Seq<T>>) -> Option<T> {
    match all {
        Some(all) => if all.len() > 0 {
            Some(all[0])
        } else {
            None
        },
        None => None,
    }
}

fn take_first<T>(all: Option<Vec<T>>) -> (r: Option<T>)
    ensures
        match all {
            Some(v) => r == first_if_any(Some(v@)),
            None => r is None,
        },
{
    match all {
        Some(mut v) => if v.len() > 0 {
            Some(v.remove(0))
        } else {
            None
        },
        None => None,
    }
}

/// Why a page gave nothing.
#[derive(Debug, Copy, Clone, PartialEq, Eq, Structural)]
pub enum PageError {
    /// The page of results has no table of results.
    TableMissing,
    /// A line of the table of results has no identifier.
    LineWithoutId,
    /// The login page has no token against forged requests.
    TokenMissing,
    /// Something else is missing that every such page has.
    Malformed,
}

/// What a log says of an error.
pub open spec fn page_error_text(e: PageError) -> Seq<char> {
    match e {
        PageError::TableMissing => "CD grades page: #acwork tbody missing"@,
        PageError::LineWithoutId => "CD: grades table line has no ID"@,
        PageError::TokenMissing => "CD login stage 1: XSRF token missing"@,
        PageError::Malformed => "CD: malformed page"@,
    }
}

impl PageError {
    /// What a log says of the error.
    pub fn text(&self) -> (r: String)
        ensures
            r@ == page_error_text(*self),
    {
        match self {
            PageError::TableMissing => owned("CD grades page: #acwork tbody missing"),
            PageError::LineWithoutId => owned("CD: grades table line has no ID"),
            PageError::TokenMissing => owned("CD login stage 1: XSRF token missing"),
            PageError::Malformed => owned("CD: malformed page"),
        }
    }
}

fn cell_text(line: &TableLine, i: usize) -> (r: Option<String>)
    ensures
        chars_if_any(r) == cell_of(line@, i as int),
{
    if i < line.cells.len() && line.cells[i].len() > 0 {
        assert(line@.1[i as int][0] == line.cells@[i as int]@[0]@);
        Some(owned(line.cells[i][0].as_str()))
    } else {
        None
    }
}

/// The first piece of text in a cell of a line, if the line has such a cell and there is text in it.
pub open spec fn cell_of(line: LineView, i: int) -> Option<Seq<char>> {
    if 0 <= i < line.1.len() && line.1[i].len() > 0 {
        Some(line.1[i][0])
    } else {
        None
    }
}

/// What selects the lines below the line with an identifier.
pub open spec fn below(id: Seq<char>) -> Seq<char> {
    ".child-of-"@ + id
}

fn below_line(id: &str) -> (r: String)
    ensures
        r@ == below(id@),
{
    let mut r = owned(".child-of-");
    r.append(id);
    r
}

// ---------------------------------------------------------------------------------------------
// Results
// ---------------------------------------------------------------------------------------------

/// A result, with its texts as sequences of characters.
pub ghost struct GradeView {
    pub name: Seq<char>,
    pub grade: Seq<char>,
    pub subgrades: nat,
}

impl View for CampusDualGrade {
    type V = GradeView;

    open spec fn view(&self) -> GradeView {
        GradeView { name: self.name@, grade: self.grade@, subgrades: self.subgrades as nat }
    }
}

/// Some results.
pub open spec fn grade_views(grades: Seq<CampusDualGrade>) -> Seq<GradeView> {
    grades.map_values(|g: CampusDualGrade| g@)
}

/// The result in a line of the table: its name, the grade, and how many lines stand below it.
pub open spec fn grade_in(
    line: LineView,
    sublines: Option<nat>,
) -> Result<GradeView, PageError> {
    match line.0 {
        None => Err(PageError::LineWithoutId),
        Some(_) => match (cell_of(line, 0), cell_of(line, 1), sublines) {
            (Some(name), Some(grade), Some(subgrades)) => Ok(
                GradeView { name, grade, subgrades },
            ),
            _ => Err(PageError::Malformed),
        },
    }
}

/// The result in a line of the table, below which this many lines stand.
pub fn grade_of_line(line: &TableLine, sublines: Option<usize>) -> (r: Result<
    CampusDualGrade,
    PageError,
>)
    ensures
        match r {
            Ok(grade) => grade_in(line@, count_of(sublines)) == Ok::<GradeView, PageError>(grade@),
            Err(e) => grade_in(line@, count_of(sublines)) == Err::<GradeView, PageError>(e),
        },
{
    if line.id.is_none() {
        return Err(PageError::LineWithoutId);
    }
    match (cell_text(line, 0), cell_text(line, 1), sublines) {
        (Some(name), Some(grade), Some(subgrades)) => Ok(
            CampusDualGrade { name, grade, subgrades },
        ),
        _ => Err(PageError::Malformed),
    }
}

/// A number, if there is one.
pub open spec fn count_of(n: Option<usize>) -> Option<nat> {
    match n {
        Some(n) => Some(n as nat),
        None => None,
    }
}

/// The lines of the table of results.
pub open spec fn grade_lines(html: Seq<char>) -> Option<Seq<LineView>> {
    first_if_any(page_lines(html, "#acwork tbody"@, ".child-of-node-0"@, "td"@, "id"@))
}

/// How many lines stand below a line of the table of results.
pub open spec fn grade_sublines(html: Seq<char>, id: Option<Seq<char>>) -> Option<nat> {
    match id {
        Some(id) => match first_if_any(
            page_images(html, "#acwork tbody"@, below(id), "img"@, "src"@),
        ) {
            Some(sublines) => Some(sublines.len()),
            None => None,
        },
        None => None,
    }
}

/// The results in the first `n` lines of the table. The first line that holds none decides.
pub open spec fn grades_in(
    html: Seq<char>,
    lines: Seq<LineView>,
    n: int,
) -> Result<Seq<GradeView>, PageError>
    decreases n,
{
    if n <= 0 {
        Ok(Seq::empty())
    } else {
        match grades_in(html, lines, n - 1) {
            Err(e) => Err(e),
            Ok(before) => match grade_in(
                lines[n - 1],
                grade_sublines(html, lines[n - 1].0),
            ) {
                Ok(grade) => Ok(before.push(grade)),
                Err(e) => Err(e),
            },
        }
    }
}

/// The results on a page.
pub open spec fn page_grades(html: Seq<char>) -> Result<Seq<GradeView>, PageError> {
    match grade_lines(html) {
        Some(lines) => grades_in(html, lines, lines.len() as int),
        None => Err(PageError::TableMissing),
    }
}

proof fn lemma_grades_stop(
    html: Seq<char>,
    lines: Seq<LineView>,
    n: int,
    m: int,
)
    requires
        n <= m,
        grades_in(html, lines, n) is Err,
    ensures
        grades_in(html, lines, m) == grades_in(html, lines, n),
    decreases m - n,
{
    if n < m {
        lemma_grades_stop(html, lines, n, m - 1);
    }
}

/// Whether `r` is this outcome.
pub open spec fn grades_are(
    r: Result<Vec<CampusDualGrade>, PageError>,
    outcome: Result<Seq<GradeView>, PageError>,
) -> bool {
    match r {
        Ok(grades) => outcome == Ok::<Seq<GradeView>, PageError>(grade_views(grades@)),
        Err(e) => outcome == Err::<Seq<GradeView>, PageError>(e),
    }
}

/// The results on a page.
pub fn extract_grades(html_text: &str) -> (r: Result<Vec<CampusDualGrade>, PageError>)
    ensures
        grades_are(r, page_grades(html_text@)),
{
    let tables = select_lines(html_text, "#acwork tbody", ".child-of-node-0", "td", "id");
    let lines = match take_first(tables) {
        Some(lines) => lines,
        None => {
            return Err(PageError::TableMissing);
        },
    };
    let ghost seen = line_views(lines@);
    assert(grade_lines(html_text@) == Some(seen));
    let mut grades: Vec<CampusDualGrade> = Vec::new();
    assert(grade_views(grades@) == Seq::<GradeView>::empty());
    for i in 0..lines.len()
        invariant
            seen == line_views(lines@),
            grade_lines(html_text@) == Some(seen),
            grades_in(html_text@, seen, i as int) == Ok::<Seq<GradeView>, PageError>(
                grade_views(grades@),
            ),
    {
        let line = &lines[i];
        let sublines = match &line.id {
            Some(id) => {
                let tables = select_images(
                    html_text,
                    "#acwork tbody",
                    below_line(id.as_str()).as_str(),
                    "img",
                    "src",
                );
                match take_first(tables) {
                    Some(below) => Some(below.len()),
                    None => None,
                }
            },
            None => None,
        };
        assert(seen[i as int] == line@);
        assert(count_of(sublines) == grade_sublines(html_text@, line@.0));
        match grade_of_line(line, sublines) {
            Ok(grade) => {
                let ghost before = grade_views(grades@);
                grades.push(grade);
                assert(grade_views(grades@) == before.push(grade@));
            },
            Err(e) => {
                proof {
                    lemma_grades_stop(html_text@, seen, i + 1, seen.len() as int);
                }
                return Err(e);
            },
        }
    }
    Ok(grades)
}

// ---------------------------------------------------------------------------------------------
// Exams
// ---------------------------------------------------------------------------------------------

/// An exam, with its texts as sequences of characters.
pub ghost struct SignupView {
    pub name: Seq<char>,
    pub verfahren: Seq<char>,
    pub status: Seq<char>,
}

impl View for CampusDualSignupOption {
    type V = SignupView;

    open spec fn view(&self) -> SignupView {
        SignupView { name: self.name@, verfahren: self.verfahren@, status: self.status@ }
    }
}

/// Some exams.
pub open spec fn signup_views(options: Seq<CampusDualSignupOption>) -> Seq<SignupView> {
    options.map_values(|o: CampusDualSignupOption| o@)
}

/// What the icon of an exam means.
pub open spec fn status_of(icon: Seq<char>) -> Seq<char> {
    if icon == "/images/missed.png"@ {
        "🚫"@
    } else if icon == "/images/yellow.png"@ {
        "📝"@
    } else if icon == "/images/exclamation.jpg"@ {
        "⚠️"@
    } else {
        "???"@
    }
}

/// What the icon of an exam means.
pub fn status_of_icon(icon: &str) -> (r: String)
    ensures
        r@ == status_of(icon@),
{
    if same_text(icon, "/images/missed.png") {
        owned("🚫")
    } else if same_text(icon, "/images/yellow.png") {
        owned("📝")
    } else if same_text(icon, "/images/exclamation.jpg") {
        owned("⚠️")
    } else {
        owned("???")
    }
}

/// The exam in a line of the table: its name, the procedure, and what the icon in the first line
/// below it means.
pub open spec fn signup_in(
    line: LineView,
    icons: Option<Seq<Seq<Option<Seq<char>>>>>,
) -> Result<SignupView, PageError> {
    match (line.0, cell_of(line, 0), cell_of(line, 1), first_if_any(first_if_any(icons))) {
        (Some(_), Some(name), Some(verfahren), Some(Some(icon))) => Ok(
            SignupView { name, verfahren, status: status_of(icon) },
        ),
        _ => Err(PageError::Malformed),
    }
}

/// What is seen of the icons below a line, if they could be looked for.
pub open spec fn icon_views(icons: Option<Vec<Vec<Option<String>>>>) -> Option<
    Seq<Seq<Option<Seq<char>>>>,
> {
    match icons {
        Some(lines) => Some(image_views(lines@)),
        None => None,
    }
}

/// The exam in a line of the table, below which lines with these icons stand.
pub fn signup_of_line(line: &TableLine, icons: &Option<Vec<Vec<Option<String>>>>) -> (r: Result<
    CampusDualSignupOption,
    PageError,
>)
    ensures
        match r {
            Ok(option) => signup_in(line@, icon_views(*icons)) == Ok::<SignupView, PageError>(
                option@,
            ),
            Err(e) => signup_in(line@, icon_views(*icons)) == Err::<SignupView, PageError>(e),
        },
{
    if line.id.is_none() {
        return Err(PageError::Malformed);
    }
    match (cell_text(line, 0), cell_text(line, 1), icons) {
        (Some(name), Some(verfahren), Some(lines)) => {
            if lines.len() == 0 || lines[0].len() == 0 {
                return Err(PageError::Malformed);
            }
            assert(image_views(lines@)[0][0] == chars_if_any(lines@[0]@[0]));
            match &lines[0][0] {
                Some(icon) => Ok(
                    CampusDualSignupOption {
                        name,
                        verfahren,
                        status: status_of_icon(icon.as_str()),
                    },
                ),
                None => Err(PageError::Malformed),
            }
        },
        _ => Err(PageError::Malformed),
    }
}

/// The lines of the table of exams.
pub open spec fn signup_lines(html: Seq<char>) -> Option<Seq<LineView>> {
    first_if_any(page_lines(html, "#expproc tbody"@, ".child-of-node-0"@, "td"@, "id"@))
}

/// The icons in the lines below a line of the table of exams.
pub open spec fn signup_icons(html: Seq<char>, id: Option<Seq<char>>) -> Option<
    Seq<Seq<Option<Seq<char>>>>,
> {
    match id {
        Some(id) => first_if_any(
            page_images(html, "#expproc tbody"@, below(id), "img"@, "src"@),
        ),
        None => None,
    }
}

/// The exams in the first `n` lines of the table. The first line that holds none decides.
pub open spec fn signups_in(
    html: Seq<char>,
    lines: Seq<LineView>,
    n: int,
) -> Result<Seq<SignupView>, PageError>
    decreases n,
{
    if n <= 0 {
        Ok(Seq::empty())
    } else {
        match signups_in(html, lines, n - 1) {
            Err(e) => Err(e),
            Ok(before) => match signup_in(lines[n - 1], signup_icons(html, lines[n - 1].0)) {
                Ok(option) => Ok(before.push(option)),
                Err(e) => Err(e),
            },
        }
    }
}

/// The exams on a page.
pub open spec fn page_signups(html: Seq<char>) -> Result<Seq<SignupView>, PageError> {
    match signup_lines(html) {
        Some(lines) => signups_in(html, lines, lines.len() as int),
        None => Err(PageError::Malformed),
    }
}

proof fn lemma_signups_stop(
    html: Seq<char>,
    lines: Seq<LineView>,
    n: int,
    m: int,
)
    requires
        n <= m,
        signups_in(html, lines, n) is Err,
    ensures
        signups_in(html, lines, m) == signups_in(html, lines, n),
    decreases m - n,
{
    if n < m {
        lemma_signups_stop(html, lines, n, m - 1);
    }
}

/// Whether `r` is this outcome.
pub open spec fn signups_are(
    r: Result<Vec<CampusDualSignupOption>, PageError>,
    outcome: Result<Seq<SignupView>, PageError>,
) -> bool {
    match r {
        Ok(options) => outcome == Ok::<Seq<SignupView>, PageError>(signup_views(options@)),
        Err(e) => outcome == Err::<Seq<SignupView>, PageError>(e),
    }
}

/// The exams on a page.
pub fn extract_exam_registr_options(html_text: &str) -> (r: Result<
    Vec<CampusDualSignupOption>,
    PageError,
>)
    ensures
        signups_are(r, page_signups(html_text@)),
{
    let tables = select_lines(html_text, "#expproc tbody", ".child-of-node-0", "td", "id");
    let lines = match take_first(tables) {
        Some(lines) => lines,
        None => {
            return Err(PageError::Malformed);
        },
    };
    let ghost seen = line_views(lines@);
    assert(signup_lines(html_text@) == Some(seen));
    let mut options: Vec<CampusDualSignupOption> = Vec::new();
    assert(signup_views(options@) == Seq::<SignupView>::empty());
    for i in 0..lines.len()
        invariant
            seen == line_views(lines@),
            signup_lines(html_text@) == Some(seen),
            signups_in(html_text@, seen, i as int) == Ok::<Seq<SignupView>, PageError>(
                signup_views(options@),
            ),
    {
        let line = &lines[i];
        let icons = match &line.id {
            Some(id) => take_first(
                select_images(
                    html_text,
                    "#expproc tbody",
                    below_line(id.as_str()).as_str(),
                    "img",
                    "src",
                ),
            ),
            None => None,
        };
        assert(seen[i as int] == line@);
        assert(icon_views(icons) == signup_icons(html_text@, line@.0));
        match signup_of_line(line, &icons) {
            Ok(option) => {
                let ghost before = signup_views(options@);
                options.push(option);
                assert(signup_views(options@) == before.push(option@));
            },
            Err(e) => {
                proof {
                    lemma_signups_stop(html_text@, seen, i + 1, seen.len() as int);
                }
                return Err(e);
            },
        }
    }
    Ok(options)
}

// ---------------------------------------------------------------------------------------------
// Logging in
// ---------------------------------------------------------------------------------------------

/// A request to CampusDual.
#[derive(Debug, PartialEq)]
pub enum CampusDualRequest {
    /// Get a page.
    Get { url: String },
    /// Post the login form, under the name of this browser.
    Login { url: String, fields: Vec<(String, String)>, user_agent: String },
}

/// A request, with its texts as sequences of characters.
pub ghost enum RequestView {
    Get { url: Seq<char> },
    Login { url: Seq<char>, fields: Seq<(Seq<char>, Seq<char>)>, user_agent: Seq<char> },
}

impl View for CampusDualRequest {
    type V = RequestView;

    open spec fn view(&self) -> RequestView {
        match *self {
            CampusDualRequest::Get { url } => RequestView::Get { url: url@ },
            CampusDualRequest::Login { url, fields, user_agent } => RequestView::Login {
                url: url@,
                fields: fields@.map_values(|f: (String, String)| (f.0@, f.1@)),
                user_agent: user_agent@,
            },
        }
    }
}

/// Which page has just come.
#[derive(Debug, PartialEq)]
pub enum CampusDualState {
    /// The one with the login form.
    LoginPage,
    /// The one that the login leads to.
    Redirect,
    /// The one with the results.
    Grades,
    /// The one with the exams. These are the results of the one before.
    SignupOptions { grades: Vec<CampusDualGrade> },
}

/// Why there are no results and exams.
#[derive(Debug, Copy, Clone, PartialEq, Eq, Structural)]
pub enum CampusDualFailure {
    /// One could not log in.
    Login(CampusDualError),
    /// A page is not as expected.
    Page(PageError),
}

/// What is done once a page has come.
#[derive(Debug, PartialEq)]
pub enum CampusDualStep {
    /// Another page is asked for.
    Ask { request: CampusDualRequest, then: CampusDualState },
    /// All is there.
    Finished { grades: Vec<CampusDualGrade>, signup_options: Vec<CampusDualSignupOption> },
    /// There will be nothing.
    Failed(CampusDualFailure),
}

/// The first request: for the login form.
pub fn login_page_request() -> (r: CampusDualRequest)
    ensures
        r@ == (RequestView::Get {
            url:
                "https://erp.campus-dual.de/sap/bc/webdynpro/sap/zba_initss?sap-client=100&sap-language=de&uri=https://selfservice.campus-dual.de/index/login"@,
        }),
{
    CampusDualRequest::Get {
        url: owned(
            "https://erp.campus-dual.de/sap/bc/webdynpro/sap/zba_initss?sap-client=100&sap-language=de&uri=https://selfservice.campus-dual.de/index/login",
        ),
    }
}

/// The request that logs in.
pub open spec fn login_with(
    username: Seq<char>,
    password: Seq<char>,
    token: Seq<char>,
) -> RequestView {
    RequestView::Login {
        url:
            "https://erp.campus-dual.de/sap/bc/webdynpro/sap/zba_initss?uri=https%3a%2f%2fselfservice.campus-dual.de%2findex%2flogin&sap-client=100&sap-language=DE"@,
        fields: seq![
            ("sap-user"@, username),
            ("sap-password"@, password),
            ("sap-login-XSRF"@, token),
        ],
        user_agent:
            "Mozilla/5.0 (Macintosh; Intel Mac OS X 10_15_7) AppleWebKit/537.36 (KHTML, like Gecko) Chrome/117.0.0.0 Safari/537.36"@,
    }
}

/// The request that logs in.
pub fn login_request(username: &str, password: &str, token: &str) -> (r: CampusDualRequest)
    ensures
        r@ == login_with(username@, password@, token@),
{
    let fields = vec![
        (owned("sap-user"), owned(username)),
        (owned("sap-password"), owned(password)),
        (owned("sap-login-XSRF"), owned(token)),
    ];
    assert(fields@.map_values(|f: (String, String)| (f.0@, f.1@)) == seq![
        ("sap-user"@, username@),
        ("sap-password"@, password@),
        ("sap-login-XSRF"@, token@),
    ]);
    CampusDualRequest::Login {
        url: owned(
            "https://erp.campus-dual.de/sap/bc/webdynpro/sap/zba_initss?uri=https%3a%2f%2fselfservice.campus-dual.de%2findex%2flogin&sap-client=100&sap-language=DE",
        ),
        fields,
        user_agent: owned(
            "Mozilla/5.0 (Macintosh; Intel Mac OS X 10_15_7) AppleWebKit/537.36 (KHTML, like Gecko) Chrome/117.0.0.0 Safari/537.36",
        ),
    }
}

/// Whether `step` is what follows the login form, whose token is this.
pub open spec fn follows_login_page(
    step: CampusDualStep,
    token: Option<Option<Seq<char>>>,
    username: Seq<char>,
    password: Seq<char>,
) -> bool {
    match token {
        None => step == CampusDualStep::Failed(CampusDualFailure::Page(PageError::TokenMissing)),
        Some(None) => step == CampusDualStep::Failed(CampusDualFailure::Page(PageError::Malformed)),
        Some(Some(token)) => step matches CampusDualStep::Ask { request, then } && request@
            == login_with(username, password, token) && then is Redirect,
    }
}

/// What is seen of a token: whether there is a field for it, and whether that has a value.
pub open spec fn token_view(token: Option<Option<String>>) -> Option<Option<Seq<char>>> {
    match token {
        Some(value) => Some(chars_if_any(value)),
        None => None,
    }
}

/// What follows the login form, once its token has been found or not.
pub fn after_login_page(
    token: Option<Option<String>>,
    username: &str,
    password: &str,
) -> (r: CampusDualStep)
    ensures
        follows_login_page(r, token_view(token), username@, password@),
{
    match token {
        None => CampusDualStep::Failed(CampusDualFailure::Page(PageError::TokenMissing)),
        Some(None) => CampusDualStep::Failed(CampusDualFailure::Page(PageError::Malformed)),
        Some(Some(token)) => CampusDualStep::Ask {
            request: login_request(username, password, token.as_str()),
            then: CampusDualState::Redirect,
        },
    }
}

/// Whether `step` is what follows the login, if the page that it leads to has this title: on the
/// login form again the credentials were bad, and any other page is taken for a success.
pub open spec fn follows_redirect(step: CampusDualStep, title: Option<Seq<char>>) -> bool {
    match title {
        None => step == CampusDualStep::Failed(CampusDualFailure::Page(PageError::Malformed)),
        Some(title) => if title == "Anmeldung"@ {
            step == CampusDualStep::Failed(
                CampusDualFailure::Login(CampusDualError::CdBadCredentials),
            )
        } else {
            step matches CampusDualStep::Ask { request, then } && request@ == (RequestView::Get {
                url: "https://selfservice.campus-dual.de/acwork/index"@,
            }) && then is Grades
        },
    }
}

/// What follows the login, by the title of the page that it leads to.
pub fn after_redirect(title: Option<String>) -> (r: CampusDualStep)
    ensures
        follows_redirect(r, chars_if_any(title)),
{
    match title {
        None => CampusDualStep::Failed(CampusDualFailure::Page(PageError::Malformed)),
        Some(title) => if same_text(title.as_str(), "Anmeldung") {
            CampusDualStep::Failed(CampusDualFailure::Login(CampusDualError::CdBadCredentials))
        } else {
            CampusDualStep::Ask {
                request: CampusDualRequest::Get {
                    url: owned("https://selfservice.campus-dual.de/acwork/index"),
                },
                then: CampusDualState::Grades,
            }
        },
    }
}

/// Whether `step` is what follows the page with the results, from which these were taken.
pub open spec fn follows_grades(
    step: CampusDualStep,
    outcome: Result<Seq<GradeView>, PageError>,
) -> bool {
    match outcome {
        Ok(expected) => {
            &&& step matches CampusDualStep::Ask { request, then }
            &&& request@ == (RequestView::Get {
                url: "https://selfservice.campus-dual.de/acwork/expproc"@,
            })
            &&& then matches CampusDualState::SignupOptions { grades }
            &&& grade_views(grades@) == expected
        },
        Err(e) => step == CampusDualStep::Failed(CampusDualFailure::Page(e)),
    }
}

/// Whether `step` is what follows the page with the exams, from which these were taken.
pub open spec fn follows_signups(
    step: CampusDualStep,
    grades: Seq<GradeView>,
    outcome: Result<Seq<SignupView>, PageError>,
) -> bool {
    match outcome {
        Ok(expected) => step matches CampusDualStep::Finished { grades: found, signup_options }
            && grade_views(found@) == grades && signup_views(signup_options@) == expected,
        Err(e) => step == CampusDualStep::Failed(CampusDualFailure::Page(e)),
    }
}

/// What is done once a page has come: the way leads from the login form over the login and the page
/// with the results to the page with the exams.
pub fn get_campusdual_data(
    state: CampusDualState,
    page: &str,
    username: &str,
    password: &str,
) -> (r: CampusDualStep)
    ensures
        match state {
            CampusDualState::LoginPage => follows_login_page(
                r,
                first_if_any(
                    page_attributes(page@, "input[name=\"sap-login-XSRF\"]"@, "value"@),
                ),
                username@,
                password@,
            ),
            CampusDualState::Redirect => follows_redirect(
                r,
                first_if_any(page_contents(page@, "title"@)),
            ),
            CampusDualState::Grades => follows_grades(r, page_grades(page@)),
            CampusDualState::SignupOptions { grades } => follows_signups(
                r,
                grade_views(grades@),
                page_signups(page@),
            ),
        },
{
    match state {
        CampusDualState::LoginPage => after_login_page(
            take_first(select_attributes(page, "input[name=\"sap-login-XSRF\"]", "value")),
            username,
            password,
        ),
        CampusDualState::Redirect => after_redirect(
            take_first(select_contents(page, "title")),
        ),
        CampusDualState::Grades => match extract_grades(page) {
            Ok(grades) => CampusDualStep::Ask {
                request: CampusDualRequest::Get {
                    url: owned("https://selfservice.campus-dual.de/acwork/expproc"),
                },
                then: CampusDualState::SignupOptions { grades },
            },
            Err(e) => CampusDualStep::Failed(CampusDualFailure::Page(e)),
        },
        CampusDualState::SignupOptions { grades } => match extract_exam_registr_options(page) {
            Ok(signup_options) => CampusDualStep::Finished { grades, signup_options },
            Err(e) => CampusDualStep::Failed(CampusDualFailure::Page(e)),
        },
    }
}

// ---------------------------------------------------------------------------------------------
// What is new
// ---------------------------------------------------------------------------------------------

/// Those of the first `n` of `received` that do not occur in `known`, in the order of `received`.
pub open spec fn news<T>(received: Seq<T>, known: Seq<T>, n: int) -> Seq<T>
    decreases n,
{
    if n <= 0 {
        Seq::empty()
    } else if known.contains(received[n - 1]) {
        news(received, known, n - 1)
    } else {
        news(received, known, n - 1).push(received[n - 1])
    }
}

/// What is reported: all there is if nothing was known before, else what is new, if anything is.
pub open spec fn reported<T>(received: Seq<T>, known: Option<Seq<T>>) -> Option<Seq<T>> {
    match known {
        None => Some(received),
        Some(known) => {
            let new = news(received, known, received.len() as int);
            if new.len() == 0 {
                None
            } else {
                Some(new)
            }
        },
    }
}

/// What is stored after what was received has been compared with it: what was received, if nothing
/// was stored before, and else what was.
pub open spec fn stored_after_comparing<T>(received: Seq<T>, stored: Option<Seq<T>>) -> Option<
    Seq<T>,
> {
    match stored {
        None => Some(received),
        Some(stored) => Some(stored),
    }
}

/// What is stored after the message about what was received has been sent, or could not be: all that
/// was received, or what was stored before.
pub open spec fn stored_after_sending<T>(
    received: Seq<T>,
    stored: Option<Seq<T>>,
    sent: bool,
) -> Option<Seq<T>> {
    if sent {
        Some(received)
    } else {
        stored
    }
}

fn copy_grade(grade: &CampusDualGrade) -> (r: CampusDualGrade)
    ensures
        r@ == grade@,
{
    CampusDualGrade {
        name: owned(grade.name.as_str()),
        grade: owned(grade.grade.as_str()),
        subgrades: grade.subgrades,
    }
}

fn knows_grade(known: &Vec<CampusDualGrade>, grade: &CampusDualGrade) -> (r: bool)
    ensures
        r == grade_views(known@).contains(grade@),
{
    for i in 0..known.len()
        invariant
            forall|j: int| 0 <= j < i ==> (#[trigger] known@[j])@ != grade@,
    {
        let k = &known[i];
        if same_text(k.name.as_str(), grade.name.as_str()) && same_text(
            k.grade.as_str(),
            grade.grade.as_str(),
        ) && k.subgrades == grade.subgrades {
            assert(grade_views(known@)[i as int] == grade@);
            return true;
        }
    }
    assert forall|j: int| 0 <= j < known@.len() implies #[trigger] grade_views(known@)[j]
        != grade@ by {
        assert(known@[j]@ != grade@);
    }
    false
}

/// The known results, if there are any.
pub open spec fn known_grades(known: Option<Vec<CampusDualGrade>>) -> Option<Seq<GradeView>> {
    match known {
        Some(known) => Some(grade_views(known@)),
        None => None,
    }
}

fn copy_grades(recv_grades: &Vec<CampusDualGrade>) -> (r: Vec<CampusDualGrade>)
    ensures
        grade_views(r@) == grade_views(recv_grades@),
{
    let mut r: Vec<CampusDualGrade> = Vec::new();
    for i in 0..recv_grades.len()
        invariant
            grade_views(r@) == grade_views(recv_grades@).take(i as int),
    {
        let ghost before = grade_views(r@);
        r.push(copy_grade(&recv_grades[i]));
        assert(grade_views(r@) == before.push(recv_grades@[i as int]@));
    }
    assert(grade_views(recv_grades@).take(recv_grades@.len() as int) == grade_views(recv_grades@));
    r
}

/// Stores the results that were received, all of them.
pub fn save_campusdual_grades(
    recv_grades: &Vec<CampusDualGrade>,
    stored_grades: &mut Option<Vec<CampusDualGrade>>,
)
    ensures
        known_grades(*final(stored_grades)) == Some(grade_views(recv_grades@)),
{
    *stored_grades = Some(copy_grades(recv_grades));
}

/// The results that are reported. If none have been stored yet, those that were received are.
pub fn compare_campusdual_grades(
    recv_grades: &Vec<CampusDualGrade>,
    stored_grades: &mut Option<Vec<CampusDualGrade>>,
) -> (r: Option<Vec<CampusDualGrade>>)
    ensures
        known_grades(r) == reported(grade_views(recv_grades@), known_grades(*old(stored_grades))),
        known_grades(*final(stored_grades)) == stored_after_comparing(
            grade_views(recv_grades@),
            known_grades(*old(stored_grades)),
        ),
{
    let ghost received = grade_views(recv_grades@);
    match &*stored_grades {
        None => {},
        Some(known) => {
            let mut new_grades: Vec<CampusDualGrade> = Vec::new();
            assert(grade_views(new_grades@) == Seq::<GradeView>::empty());
            for i in 0..recv_grades.len()
                invariant
                    received == grade_views(recv_grades@),
                    grade_views(new_grades@) == news(received, grade_views(known@), i as int),
            {
                assert(received[i as int] == recv_grades@[i as int]@);
                if !knows_grade(known, &recv_grades[i]) {
                    let ghost before = grade_views(new_grades@);
                    new_grades.push(copy_grade(&recv_grades[i]));
                    assert(grade_views(new_grades@) == before.push(recv_grades@[i as int]@));
                }
            }
            assert(grade_views(new_grades@).len() == new_grades@.len());
            return if new_grades.len() == 0 {
                None
            } else {
                Some(new_grades)
            };
        },
    }
    save_campusdual_grades(recv_grades, stored_grades);
    Some(copy_grades(recv_grades))
}

fn copy_signup(option: &CampusDualSignupOption) -> (r: CampusDualSignupOption)
    ensures
        r@ == option@,
{
    CampusDualSignupOption {
        name: owned(option.name.as_str()),
        verfahren: owned(option.verfahren.as_str()),
        status: owned(option.status.as_str()),
    }
}

fn knows_signup(known: &Vec<CampusDualSignupOption>, option: &CampusDualSignupOption) -> (r: bool)
    ensures
        r == signup_views(known@).contains(option@),
{
    for i in 0..known.len()
        invariant
            forall|j: int| 0 <= j < i ==> (#[trigger] known@[j])@ != option@,
    {
        let k = &known[i];
        if same_text(k.name.as_str(), option.name.as_str()) && same_text(
            k.verfahren.as_str(),
            option.verfahren.as_str(),
        ) && same_text(k.status.as_str(), option.status.as_str()) {
            assert(signup_views(known@)[i as int] == option@);
            return true;
        }
    }
    assert forall|j: int| 0 <= j < known@.len() implies #[trigger] signup_views(known@)[j]
        != option@ by {
        assert(known@[j]@ != option@);
    }
    false
}

/// The known exams, if there are any.
pub open spec fn known_signups(known: Option<Vec<CampusDualSignupOption>>) -> Option<
    Seq<SignupView>,
> {
    match known {
        Some(known) => Some(signup_views(known@)),
        None => None,
    }
}

fn copy_signups(recv_options: &Vec<CampusDualSignupOption>) -> (r: Vec<CampusDualSignupOption>)
    ensures
        signup_views(r@) == signup_views(recv_options@),
{
    let mut r: Vec<CampusDualSignupOption> = Vec::new();
    for i in 0..recv_options.len()
        invariant
            signup_views(r@) == signup_views(recv_options@).take(i as int),
    {
        let ghost before = signup_views(r@);
        r.push(copy_signup(&recv_options[i]));
        assert(signup_views(r@) == before.push(recv_options@[i as int]@));
    }
    assert(signup_views(recv_options@).take(recv_options@.len() as int) == signup_views(recv_options@));
    r
}

/// Stores the exams that were received, all of them.
pub fn save_campusdual_signup_options(
    recv_options: &Vec<CampusDualSignupOption>,
    stored_options: &mut Option<Vec<CampusDualSignupOption>>,
)
    ensures
        known_signups(*final(stored_options)) == Some(signup_views(recv_options@)),
{
    *stored_options = Some(copy_signups(recv_options));
}

/// The exams that are reported. If none have been stored yet, those that were received are.
pub fn compare_campusdual_signup_options(
    recv_options: &Vec<CampusDualSignupOption>,
    stored_options: &mut Option<Vec<CampusDualSignupOption>>,
) -> (r: Option<Vec<CampusDualSignupOption>>)
    ensures
        known_signups(r) == reported(signup_views(recv_options@), known_signups(*old(stored_options))),
        known_signups(*final(stored_options)) == stored_after_comparing(
            signup_views(recv_options@),
            known_signups(*old(stored_options)),
        ),
{
    let ghost received = signup_views(recv_options@);
    match &*stored_options {
        None => {},
        Some(known) => {
            let mut new_options: Vec<CampusDualSignupOption> = Vec::new();
            assert(signup_views(new_options@) == Seq::<SignupView>::empty());
            for i in 0..recv_options.len()
                invariant
                    received == signup_views(recv_options@),
                    signup_views(new_options@) == news(received, signup_views(known@), i as int),
            {
                assert(received[i as int] == recv_options@[i as int]@);
                if !knows_signup(known, &recv_options[i]) {
                    let ghost before = signup_views(new_options@);
                    new_options.push(copy_signup(&recv_options[i]));
                    assert(signup_views(new_options@) == before.push(recv_options@[i as int]@));
                }
            }
            assert(signup_views(new_options@).len() == new_options@.len());
            return if new_options.len() == 0 {
                None
            } else {
                Some(new_options)
            };
        },
    }
    save_campusdual_signup_options(recv_options, stored_options);
    Some(copy_signups(recv_options))
}

proof fn lemma_news<T>(received: Seq<T>, known: Seq<T>, n: int)
    requires
        0 <= n <= received.len(),
    ensures
        forall|x: T| #[trigger]
            news(received, known, n).contains(x) <==> received.take(n).contains(x)
                && !known.contains(x),
    decreases n,
{
    if n > 0 {
        lemma_news(received, known, n - 1);
        let before = news(received, known, n - 1);
        let now = news(received, known, n);
        let last = received[n - 1];
        let shorter = received.take(n - 1);
        let longer = received.take(n);
        assert(longer == shorter.push(last));
        assert forall|x: T| #[trigger] now.contains(x) <==> received.take(n).contains(x)
            && !known.contains(x) by {
            assert(longer.contains(x) <==> shorter.contains(x) || x == last) by {
                if shorter.contains(x) {
                    let i = choose|i: int| 0 <= i < shorter.len() && shorter[i] == x;
                    assert(longer[i] == x);
                }
                if x == last {
                    assert(longer[n - 1] == x);
                }
                if longer.contains(x) && x != last {
                    let i = choose|i: int| 0 <= i < longer.len() && longer[i] == x;
                    assert(shorter[i] == x);
                }
            }
            if !known.contains(last) {
                assert(now == before.push(last));
                if before.contains(x) {
                    let i = choose|i: int| 0 <= i < before.len() && before[i] == x;
                    assert(now[i] == x);
                }
                if x == last {
                    assert(now[before.len() as int] == x);
                }
                if now.contains(x) && x != last {
                    let i = choose|i: int| 0 <= i < now.len() && now[i] == x;
                    assert(before[i] == x);
                }
            }
        }
    }
}

/// What is reported of something known before is all that was received and not known, and nothing
/// else.
pub proof fn law_reported_is_new<T>(received: Seq<T>, known: Seq<T>, x: T)
    ensures
        (reported(received, Some(known)) matches Some(new) && new.contains(x)) <==> (
        received.contains(x) && !known.contains(x)),
{
    lemma_news(received, known, received.len() as int);
    let new = news(received, known, received.len() as int);
    assert(received.take(received.len() as int) == received);
    assert(new.contains(x) <==> received.contains(x) && !known.contains(x));
}

/// What was received and saved is not reported again.
pub proof fn law_saved_is_not_reported<T>(received: Seq<T>)
    ensures
        reported(received, Some(received)) is None,
{
    lemma_news(received, received, received.len() as int);
    let new = news(received, received, received.len() as int);
    if new.len() > 0 {
        assert(new.contains(new[0]));
    }
}

/// What could not be sent is reported again the next time, and what was sent is not. Only what is
/// received when nothing has ever been stored is stored before it is sent.
pub proof fn law_reported_until_sent<T>(received: Seq<T>, stored: Seq<T>, sent: bool)
    ensures
        ({
            let compared = stored_after_comparing(received, Some(stored));
            let after = stored_after_sending(received, compared, sent);
            if sent {
                reported(received, after) is None
            } else {
                reported(received, after) == reported(received, Some(stored))
            }
        }),
{
    law_saved_is_not_reported(received);
}

/// The lines that tell of the first `n` results.
pub open spec fn grade_rows(grades: Seq<GradeView>, n: int) -> Seq<char>
    decreases n,
{
    if n <= 0 {
        Seq::empty()
    } else {
        grade_rows(grades, n - 1) + ("\n"@ + grades[n - 1].name + ": "@ + grades[n - 1].grade)
    }
}

/// The message that tells of new results.
pub fn grades_message(new_grades: &Vec<CampusDualGrade>) -> (r: String)
    ensures
        r@ == "Neue Note:"@ + grade_rows(grade_views(new_grades@), new_grades@.len() as int),
{
    let mut rows = String::new();
    for i in 0..new_grades.len()
        invariant
            rows@ == grade_rows(grade_views(new_grades@), i as int),
    {
        let grade = &new_grades[i];
        let mut row = owned("\n");
        row.append(grade.name.as_str());
        row.append(": ");
        row.append(grade.grade.as_str());
        assert(grade_views(new_grades@)[i as int] == grade@);
        rows.append(row.as_str());
    }
    let mut r = owned("Neue Note:");
    r.append(rows.as_str());
    r
}

/// The lines that tell of the first `n` exams.
pub open spec fn signup_rows(options: Seq<SignupView>, n: int) -> Seq<char>
    decreases n,
{
    if n <= 0 {
        Seq::empty()
    } else {
        let option = options[n - 1];
        signup_rows(options, n - 1) + ("\n"@ + option.status + " ("@ + option.verfahren + ") — "@
            + option.name)
    }
}

/// The message that tells of new exams.
pub fn signup_options_message(new_options: &Vec<CampusDualSignupOption>) -> (r: String)
    ensures
        r@ == "Neue Anmeldemöglichkeit:"@ + signup_rows(
            signup_views(new_options@),
            new_options@.len() as int,
        ),
{
    let mut rows = String::new();
    for i in 0..new_options.len()
        invariant
            rows@ == signup_rows(signup_views(new_options@), i as int),
    {
        let option = &new_options[i];
        let mut row = owned("\n");
        row.append(option.status.as_str());
        row.append(" (");
        row.append(option.verfahren.as_str());
        row.append(") — ");
        row.append(option.name.as_str());
        assert(signup_views(new_options@)[i as int] == option@);
        rows.append(row.as_str());
    }
    let mut r = owned("Neue Anmeldemöglichkeit:");
    r.append(rows.as_str());
    r
}

} // verus!
