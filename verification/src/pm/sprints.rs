//! Sprints: named spans of days, planned, then active, then closed.

use crate::mcp::{McpError, McpErrorView, INVALID_PARAMS};
use crate::pm::error::{PmError, PmErrorView};
use crate::pm::model::SprintStatus;
use crate::text::{concat, str_eq, views};
use vstd::prelude::*;
use vstd::string::*;

verus! {

/// A calendar day, as the number of days since the last day of the year
/// 1 BCE in the proleptic Gregorian calendar, on which 0001-01-01 is day 1.
#[derive(Debug, Clone, Copy, PartialEq, Eq, Structural)]
pub struct Date {
    pub days: i32,
}

/// The day that a text names when read by a format, as
/// `chrono::NaiveDate::parse_from_str` reads it; none where the text does
/// not fit the format or names no day.
pub uninterp spec fn date_of(text: Seq<char>, format: Seq<char>) -> Option<Date>;

/// Reads a day with `chrono::NaiveDate::parse_from_str` and takes its day
/// number with `Datelike::num_days_from_ce`. Which texts fit a format is
/// chrono's to say; the contract only names the result.
#[verifier::external_body]
pub(crate) fn parse_date(text: &str, format: &str) -> (r: Option<Date>)
    ensures
        r == date_of(text@, format@),
{
    match chrono::NaiveDate::parse_from_str(text, format) {
        Ok(day) => Some(Date { days: chrono::Datelike::num_days_from_ce(&day) }),
        Err(_) => None,
    }
}

/// The format in which the days of a sprint are written: year, month and
/// day, with dashes between them.
pub open spec fn day_format() -> Seq<char> {
    "%Y-%m-%d"@
}

/// The day that a text of the form `YYYY-MM-DD` names.
pub open spec fn day_of(text: Seq<char>) -> Option<Date> {
    date_of(text, day_format())
}

/// Reads a day written as `YYYY-MM-DD`.
pub fn read_day(text: &str) -> (r: Option<Date>)
    ensures
        r == day_of(text@),
{
    parse_date(text, "%Y-%m-%d")
}

/// A sprint.
#[derive(Debug, Clone)]
pub struct Sprint {
    pub name: String,
    pub start: Date,
    pub end: Date,
    pub goal: Option<String>,
    pub boards: Vec<String>,
    pub status: SprintStatus,
}

#[verifier::ext_equal]
pub struct SprintView {
    pub name: Seq<char>,
    pub start: Date,
    pub end: Date,
    pub goal: Option<Seq<char>>,
    pub boards: Seq<Seq<char>>,
    pub status: SprintStatus,
}

impl View for Sprint {
    type V = SprintView;

    open spec fn view(&self) -> SprintView {
        SprintView {
            name: self.name@,
            start: self.start,
            end: self.end,
            goal: match self.goal {
                Some(g) => Some(g@),
                None => None,
            },
            boards: views(self.boards@),
            status: self.status,
        }
    }
}

pub open spec fn sprint_views(sprints: Seq<Sprint>) -> Seq<SprintView> {
    sprints.map_values(|s: Sprint| s@)
}

/// `i` is the place of the first sprint that meets `wanted`.
pub open spec fn is_first_sprint(
    sprints: Seq<SprintView>,
    wanted: spec_fn(SprintView) -> bool,
    i: int,
) -> bool {
    &&& 0 <= i < sprints.len()
    &&& wanted(sprints[i])
    &&& forall|j: int| 0 <= j < i ==> !wanted(#[trigger] sprints[j])
}

/// The place of the first sprint that meets `wanted`.
pub open spec fn first_sprint(sprints: Seq<SprintView>, wanted: spec_fn(SprintView) -> bool) -> Option<
    int,
> {
    if exists|i: int| is_first_sprint(sprints, wanted, i) {
        Some(choose|i: int| is_first_sprint(sprints, wanted, i))
    } else {
        None
    }
}

/// The place of the first sprint called `name`.
pub open spec fn named(sprints: Seq<SprintView>, name: Seq<char>) -> Option<int> {
    first_sprint(sprints, |s: SprintView| s.name == name)
}

/// The place of the first active sprint.
pub open spec fn active(sprints: Seq<SprintView>) -> Option<int> {
    first_sprint(sprints, |s: SprintView| s.status == SprintStatus::Active)
}

/// The sprint a new one starts as.
pub open spec fn planned(name: Seq<char>, start: Date, end: Date) -> SprintView {
    SprintView {
        name,
        start,
        end,
        goal: None,
        boards: Seq::empty(),
        status: SprintStatus::Planned,
    }
}

/// What is wrong with the dates of a sprint.
#[derive(Debug, Clone, Copy, PartialEq, Eq, Structural)]
pub enum DateProblem {
    /// The start does not read as a day.
    BadStart,
    /// The end does not read as a day.
    BadEnd,
    /// The end is not after the start.
    EndNotAfterStart,
}

/// The dates of a sprint, given what the two texts read as: both must be
/// days, and the end after the start.
pub open spec fn dates_result(start: Option<Date>, end: Option<Date>) -> Result<
    (Date, Date),
    DateProblem,
> {
    match (start, end) {
        (None, _) => Err(DateProblem::BadStart),
        (Some(_), None) => Err(DateProblem::BadEnd),
        (Some(s), Some(e)) => if e.days <= s.days {
            Err(DateProblem::EndNotAfterStart)
        } else {
            Ok((s, e))
        },
    }
}

/// How a problem with the dates reads on the command line.
pub open spec fn date_error(p: DateProblem, start_text: Seq<char>, end_text: Seq<char>) -> PmErrorView {
    match p {
        DateProblem::BadStart => PmErrorView::InvalidDate("invalid start date: "@ + start_text),
        DateProblem::BadEnd => PmErrorView::InvalidDate("invalid end date: "@ + end_text),
        DateProblem::EndNotAfterStart => PmErrorView::InvalidDate(
            "end date must be after start date"@,
        ),
    }
}

/// How a problem with the dates reads in the tool protocol.
pub open spec fn date_tool_error(p: DateProblem, start_text: Seq<char>, end_text: Seq<char>) -> McpErrorView {
    McpErrorView {
        code: -32602,
        message: match p {
            DateProblem::BadStart => "Invalid start date: "@ + start_text
                + " (expected YYYY-MM-DD)"@,
            DateProblem::BadEnd => "Invalid end date: "@ + end_text + " (expected YYYY-MM-DD)"@,
            DateProblem::EndNotAfterStart => "end date must be after start date"@,
        },
    }
}

/// What adding a planned sprint comes to: the name must be new.
pub open spec fn planned_result(sprints: Seq<SprintView>, name: Seq<char>, start: Date, end: Date) -> (
    Seq<SprintView>,
    Result<int, PmErrorView>,
) {
    if named(sprints, name) is Some {
        (sprints, Err(PmErrorView::SprintAlreadyExists(name)))
    } else {
        (sprints.push(planned(name, start, end)), Ok(sprints.len() as int))
    }
}

/// What adding a sprint comes to, given what the two dates read as: both
/// must be days, the end after the start, and the name new.
pub open spec fn add_result(
    sprints: Seq<SprintView>,
    name: Seq<char>,
    start: Option<Date>,
    end: Option<Date>,
    start_text: Seq<char>,
    end_text: Seq<char>,
) -> (Seq<SprintView>, Result<int, PmErrorView>) {
    match dates_result(start, end) {
        Err(p) => (sprints, Err(date_error(p, start_text, end_text))),
        Ok((s, e)) => planned_result(sprints, name, s, e),
    }
}

/// The sprints with the status of the one at `i` changed.
pub open spec fn with_status(sprints: Seq<SprintView>, i: int, status: SprintStatus) -> Seq<
    SprintView,
> {
    sprints.update(i, SprintView { status, ..sprints[i] })
}

/// What closing the sprint `name` comes to: it must exist and not be
/// closed.
pub open spec fn close_result(sprints: Seq<SprintView>, name: Seq<char>) -> (
    Seq<SprintView>,
    Result<int, PmErrorView>,
) {
    match named(sprints, name) {
        None => (sprints, Err(PmErrorView::SprintNotFound(name))),
        Some(i) => if sprints[i].status == SprintStatus::Closed {
            (sprints, Err(PmErrorView::SprintAlreadyClosed(name)))
        } else {
            (with_status(sprints, i, SprintStatus::Closed), Ok(i))
        },
    }
}

/// What starting the sprint `name` comes to: it must exist and be planned.
pub open spec fn start_result(sprints: Seq<SprintView>, name: Seq<char>) -> (
    Seq<SprintView>,
    Result<int, PmErrorView>,
) {
    match named(sprints, name) {
        None => (sprints, Err(PmErrorView::SprintNotFound(name))),
        Some(i) => match sprints[i].status {
            SprintStatus::Active => (
                sprints,
                Err(PmErrorView::Other("Sprint already active: "@ + name)),
            ),
            SprintStatus::Closed => (sprints, Err(PmErrorView::SprintAlreadyClosed(name))),
            SprintStatus::Planned => (with_status(sprints, i, SprintStatus::Active), Ok(i)),
        },
    }
}

/// The sprint that a report is about: the one called `name`, or the first
/// active one where no name is given.
pub open spec fn chosen(sprints: Seq<SprintView>, name: Option<Seq<char>>) -> Result<
    int,
    PmErrorView,
> {
    match name {
        Some(n) => match named(sprints, n) {
            Some(i) => Ok(i),
            None => Err(PmErrorView::SprintNotFound(n)),
        },
        None => match active(sprints) {
            Some(i) => Ok(i),
            None => Err(PmErrorView::NoActiveSprint),
        },
    }
}

pub open spec fn place_view(r: Result<usize, PmError>) -> Result<int, PmErrorView> {
    match r {
        Ok(i) => Ok(i as int),
        Err(e) => Err(e@),
    }
}

/// The place of the first sprint called `name`.
pub fn find_named(sprints: &Vec<Sprint>, name: &str) -> (r: Option<usize>)
    ensures
        match r {
            Some(i) => named(sprint_views(sprints@), name@) == Some(i as int) && i < sprints.len(),
            None => named(sprint_views(sprints@), name@) is None,
        },
{
    let ghost wanted = |s: SprintView| s.name == name@;
    let mut i: usize = 0;
    while i < sprints.len()
        invariant
            i <= sprints.len(),
            wanted == (|s: SprintView| s.name == name@),
            forall|j: int| 0 <= j < i ==> !wanted(#[trigger] sprint_views(sprints@)[j]),
        decreases sprints.len() - i,
    {
        if str_eq(sprints[i].name.as_str(), name) {
            assert(is_first_sprint(sprint_views(sprints@), wanted, i as int));
            return Some(i);
        }
        i += 1;
    }
    None
}

/// The place of the first active sprint.
pub fn find_active(sprints: &Vec<Sprint>) -> (r: Option<usize>)
    ensures
        match r {
            Some(i) => active(sprint_views(sprints@)) == Some(i as int) && i < sprints.len(),
            None => active(sprint_views(sprints@)) is None,
        },
{
    let ghost wanted = |s: SprintView| s.status == SprintStatus::Active;
    let mut i: usize = 0;
    while i < sprints.len()
        invariant
            i <= sprints.len(),
            wanted == (|s: SprintView| s.status == SprintStatus::Active),
            forall|j: int| 0 <= j < i ==> !wanted(#[trigger] sprint_views(sprints@)[j]),
        decreases sprints.len() - i,
    {
        if sprints[i].status == SprintStatus::Active {
            assert(is_first_sprint(sprint_views(sprints@), wanted, i as int));
            return Some(i);
        }
        i += 1;
    }
    None
}

/// The sprint that a report is about: the one called `name`, or the first
/// active one where no name is given.
pub fn choose_sprint(sprints: &Vec<Sprint>, name: Option<&str>) -> (r: Result<usize, PmError>)
    ensures
        place_view(r) == chosen(
            sprint_views(sprints@),
            match name {
                Some(n) => Some(n@),
                None => None,
            },
        ),
        r matches Ok(i) ==> i < sprints.len(),
{
    match name {
        Some(n) => match find_named(sprints, n) {
            Some(i) => Ok(i),
            None => Err(PmError::SprintNotFound(n.to_owned())),
        },
        None => match find_active(sprints) {
            Some(i) => Ok(i),
            None => Err(PmError::NoActiveSprint),
        },
    }
}

/// The dates of a sprint, given what the two texts read as.
pub fn check_dates(start: Option<Date>, end: Option<Date>) -> (r: Result<(Date, Date), DateProblem>)
    ensures
        r == dates_result(start, end),
{
    let s = match start {
        Some(s) => s,
        None => {
            return Err(DateProblem::BadStart);
        },
    };
    let e = match end {
        Some(e) => e,
        None => {
            return Err(DateProblem::BadEnd);
        },
    };
    if e.days <= s.days {
        Err(DateProblem::EndNotAfterStart)
    } else {
        Ok((s, e))
    }
}

/// Reads the dates of a sprint, two days written as `YYYY-MM-DD`. The end
/// is not looked at where the start is no day.
pub fn read_dates(start: &str, end: &str) -> (r: Result<(Date, Date), DateProblem>)
    ensures
        r == dates_result(day_of(start@), day_of(end@)),
{
    let first = read_day(start);
    let last = match first {
        Some(_) => read_day(end),
        None => None,
    };
    check_dates(first, last)
}

impl DateProblem {
    /// How the problem reads on the command line.
    pub fn error(&self, start_text: &str, end_text: &str) -> (e: PmError)
        ensures
            e@ == date_error(*self, start_text@, end_text@),
    {
        match self {
            DateProblem::BadStart => PmError::InvalidDate(
                concat("invalid start date: ", start_text),
            ),
            DateProblem::BadEnd => PmError::InvalidDate(concat("invalid end date: ", end_text)),
            DateProblem::EndNotAfterStart => PmError::InvalidDate(
                "end date must be after start date".to_owned(),
            ),
        }
    }

    /// How the problem reads in the tool protocol.
    pub fn tool_error(&self, start_text: &str, end_text: &str) -> (e: McpError)
        ensures
            e@ == date_tool_error(*self, start_text@, end_text@),
    {
        let message = match self {
            DateProblem::BadStart => {
                let mut m = concat("Invalid start date: ", start_text);
                m.append(" (expected YYYY-MM-DD)");
                m
            },
            DateProblem::BadEnd => {
                let mut m = concat("Invalid end date: ", end_text);
                m.append(" (expected YYYY-MM-DD)");
                m
            },
            DateProblem::EndNotAfterStart => "end date must be after start date".to_owned(),
        };
        McpError { code: INVALID_PARAMS, message }
    }
}

/// Adds a planned sprint from `start` to `end`. Returns its place.
pub fn add_planned(sprints: &mut Vec<Sprint>, name: &str, start: Date, end: Date) -> (r: Result<
    usize,
    PmError,
>)
    ensures
        (sprint_views(final(sprints)@), place_view(r)) == planned_result(
            sprint_views(old(sprints)@),
            name@,
            start,
            end,
        ),
{
    if find_named(sprints, name).is_some() {
        return Err(PmError::SprintAlreadyExists(name.to_owned()));
    }
    let place = sprints.len();
    let sprint = Sprint {
        name: name.to_owned(),
        start,
        end,
        goal: None,
        boards: Vec::new(),
        status: SprintStatus::Planned,
    };
    assert(sprint@ =~= planned(name@, start, end));
    sprints.push(sprint);
    assert(sprint_views(sprints@) =~= sprint_views(old(sprints)@).push(planned(name@, start, end)));
    Ok(place)
}

/// Adds a planned sprint from `start` to `end`, two days written as
/// `YYYY-MM-DD`. Returns its place.
pub fn sprint_create(sprints: &mut Vec<Sprint>, name: &str, start: &str, end: &str) -> (r: Result<
    usize,
    PmError,
>)
    ensures
        (sprint_views(final(sprints)@), place_view(r)) == add_result(
            sprint_views(old(sprints)@),
            name@,
            day_of(start@),
            day_of(end@),
            start@,
            end@,
        ),
{
    match read_dates(start, end) {
        Ok((s, e)) => add_planned(sprints, name, s, e),
        Err(p) => Err(p.error(start, end)),
    }
}

fn set_status(sprints: &mut Vec<Sprint>, i: usize, status: SprintStatus)
    requires
        i < old(sprints).len(),
    ensures
        sprint_views(final(sprints)@) == with_status(sprint_views(old(sprints)@), i as int, status),
{
    let sprint = &mut sprints[i];
    sprint.status = status;
    assert(sprint_views(sprints@) =~= with_status(sprint_views(old(sprints)@), i as int, status));
}

/// Closes the sprint `name`. Returns its place.
pub fn sprint_close(sprints: &mut Vec<Sprint>, name: &str) -> (r: Result<usize, PmError>)
    ensures
        (sprint_views(final(sprints)@), place_view(r)) == close_result(
            sprint_views(old(sprints)@),
            name@,
        ),
{
    let i = match find_named(sprints, name) {
        Some(i) => i,
        None => {
            return Err(PmError::SprintNotFound(name.to_owned()));
        },
    };
    assert(sprint_views(sprints@)[i as int] == sprints[i as int]@);
    if sprints[i].status == SprintStatus::Closed {
        return Err(PmError::SprintAlreadyClosed(name.to_owned()));
    }
    set_status(sprints, i, SprintStatus::Closed);
    Ok(i)
}

/// Starts the sprint `name`. Returns its place.
pub fn sprint_start(sprints: &mut Vec<Sprint>, name: &str) -> (r: Result<usize, PmError>)
    ensures
        (sprint_views(final(sprints)@), place_view(r)) == start_result(
            sprint_views(old(sprints)@),
            name@,
        ),
{
    let i = match find_named(sprints, name) {
        Some(i) => i,
        None => {
            return Err(PmError::SprintNotFound(name.to_owned()));
        },
    };
    assert(sprint_views(sprints@)[i as int] == sprints[i as int]@);
    match sprints[i].status {
        SprintStatus::Active => {
            return Err(PmError::Other(concat("Sprint already active: ", name)));
        },
        SprintStatus::Closed => {
            return Err(PmError::SprintAlreadyClosed(name.to_owned()));
        },
        SprintStatus::Planned => {},
    }
    set_status(sprints, i, SprintStatus::Active);
    Ok(i)
}

/// The name of a status, as lists show it.
pub fn status_name(status: SprintStatus) -> (r: &'static str)
    ensures
        r@ == match status {
            SprintStatus::Planned => "planned"@,
            SprintStatus::Active => "active"@,
            SprintStatus::Closed => "closed"@,
        },
{
    match status {
        SprintStatus::Planned => "planned",
        SprintStatus::Active => "active",
        SprintStatus::Closed => "closed",
    }
}

} // verus!
