//! Reports: how columns are classed, and release notes from the history.

use crate::pm::git::CommitInfo;
use crate::text::{
    chars_of, decimal, decimal_digits, first_line, first_line_chars, is_prefix, lowercase,
    starts_with, str_eq, string_of, to_lowercase, trim_chars, trimmed, views,
};
use vstd::prelude::*;
use vstd::string::*;

verus! {

/// The lowercase names of a column of finished work: `done`, `completed`
/// and `closed`.
pub open spec fn done_word(lower: Seq<char>) -> bool {
    lower == "done"@ || lower == "completed"@ || lower == "closed"@
}

/// The lowercase names of a column of work not yet begun: `todo`,
/// `backlog` and `to do`.
pub open spec fn todo_word(lower: Seq<char>) -> bool {
    lower == "todo"@ || lower == "backlog"@ || lower == "to do"@
}

/// A column of finished work, by its name: `done`, `completed` or `closed`,
/// in any case.
pub open spec fn done_name(name: Seq<char>) -> bool {
    done_word(lowercase(name))
}

/// A column of work not yet begun, by its name: `todo`, `backlog` or
/// `to do`, in any case.
pub open spec fn todo_name(name: Seq<char>) -> bool {
    todo_word(lowercase(name))
}

/// Whether a name that is already in lowercase is one for finished work.
pub fn is_done_word(lower: &str) -> (r: bool)
    ensures
        r == done_word(lower@),
{
    str_eq(lower, "done") || str_eq(lower, "completed") || str_eq(lower, "closed")
}

/// Whether a name that is already in lowercase is one for work not yet
/// begun.
pub fn is_todo_word(lower: &str) -> (r: bool)
    ensures
        r == todo_word(lower@),
{
    str_eq(lower, "todo") || str_eq(lower, "backlog") || str_eq(lower, "to do")
}

/// Whether the column holds finished work.
pub fn is_done_column(name: &str) -> (r: bool)
    ensures
        r == done_name(name@),
{
    is_done_word(to_lowercase(name).as_str())
}

/// Whether the column holds work not yet begun.
pub fn is_todo_column(name: &str) -> (r: bool)
    ensures
        r == todo_name(name@),
{
    is_todo_word(to_lowercase(name).as_str())
}

/// Whether the column holds work in progress: any column that holds
/// neither finished work nor work not yet begun.
pub fn is_wip_column(name: &str) -> (r: bool)
    ensures
        r == (!done_name(name@) && !todo_name(name@)),
{
    !is_done_column(name) && !is_todo_column(name)
}

/// The commits since some point, by kind.
#[derive(Debug, Clone)]
pub struct ReleaseNotesReport {
    pub since: String,
    pub features: Vec<String>,
    pub fixes: Vec<String>,
    pub other: Vec<String>,
}

/// The headline of a commit message: the first line of the message without
/// the white space around it.
pub open spec fn headline(message: Seq<char>) -> Seq<char> {
    first_line(trimmed(message))
}

pub open spec fn is_feature(line: Seq<char>) -> bool {
    is_prefix("feat"@, line)
}

pub open spec fn is_fix(line: Seq<char>) -> bool {
    !is_prefix("feat"@, line) && is_prefix("fix"@, line)
}

pub open spec fn is_other(line: Seq<char>) -> bool {
    !is_prefix("feat"@, line) && !is_prefix("fix"@, line)
}

/// The headlines of the commits, in their sequence.
pub open spec fn headlines(commits: Seq<CommitInfo>) -> Seq<Seq<char>> {
    commits.map_values(|c: CommitInfo| headline(c.message@))
}

/// Sorts the commits by the way their headline begins: `feat` makes a
/// feature, `fix` a fix, anything else goes under other. Each list keeps the
/// sequence of the commits; `since` is left empty.
pub fn categorize_commits(commits: &[CommitInfo]) -> (report: ReleaseNotesReport)
    ensures
        report.since@ == Seq::<char>::empty(),
        views(report.features@) == headlines(commits@).filter(|l: Seq<char>| is_feature(l)),
        views(report.fixes@) == headlines(commits@).filter(|l: Seq<char>| is_fix(l)),
        views(report.other@) == headlines(commits@).filter(|l: Seq<char>| is_other(l)),
{
    let ghost feature = |l: Seq<char>| is_feature(l);
    let ghost fix = |l: Seq<char>| is_fix(l);
    let ghost other_kind = |l: Seq<char>| is_other(l);
    let ghost lines = headlines(commits@);
    let feat_mark = chars_of("feat");
    let fix_mark = chars_of("fix");
    let mut features: Vec<String> = Vec::new();
    let mut fixes: Vec<String> = Vec::new();
    let mut other: Vec<String> = Vec::new();
    let mut i: usize = 0;
    proof {
        reveal(Seq::filter);
        assert(lines.take(0).filter(feature) =~= Seq::<Seq<char>>::empty());
        assert(lines.take(0).filter(fix) =~= Seq::<Seq<char>>::empty());
        assert(lines.take(0).filter(other_kind) =~= Seq::<Seq<char>>::empty());
        assert(views(features@) =~= Seq::<Seq<char>>::empty());
        assert(views(fixes@) =~= Seq::<Seq<char>>::empty());
        assert(views(other@) =~= Seq::<Seq<char>>::empty());
    }
    while i < commits.len()
        invariant
            i <= commits.len(),
            lines == headlines(commits@),
            feature == (|l: Seq<char>| is_feature(l)),
            fix == (|l: Seq<char>| is_fix(l)),
            other_kind == (|l: Seq<char>| is_other(l)),
            feat_mark@ == "feat"@,
            fix_mark@ == "fix"@,
            views(features@) == lines.take(i as int).filter(feature),
            views(fixes@) == lines.take(i as int).filter(fix),
            views(other@) == lines.take(i as int).filter(other_kind),
        decreases commits.len() - i,
    {
        let message = chars_of(commits[i].message.as_str());
        let line = first_line_chars(&trim_chars(&message));
        let text = string_of(&line);
        proof {
            assert(text@ == lines[i as int]);
            assert(lines.take(i + 1) =~= lines.take(i as int).push(text@));
            lines.take(i as int).lemma_filter_push(text@, feature);
            lines.take(i as int).lemma_filter_push(text@, fix);
            lines.take(i as int).lemma_filter_push(text@, other_kind);
        }
        if starts_with(&line, &feat_mark) {
            let ghost before = features@;
            features.push(text);
            assert(views(features@) =~= views(before).push(text@));
        } else if starts_with(&line, &fix_mark) {
            let ghost before = fixes@;
            fixes.push(text);
            assert(views(fixes@) =~= views(before).push(text@));
        } else {
            let ghost before = other@;
            other.push(text);
            assert(views(other@) =~= views(before).push(text@));
        }
        i += 1;
    }
    assert(lines.take(i as int) =~= lines);
    ReleaseNotesReport { since: String::new(), features, fixes, other }
}

/// The items as a list, one to a line.
pub open spec fn bullets(items: Seq<Seq<char>>) -> Seq<char>
    decreases items.len(),
{
    if items.len() == 0 {
        Seq::empty()
    } else {
        bullets(items.drop_last()) + "  - "@ + items.last() + "\n"@
    }
}

/// A section of the notes: its title, a rule, the items and an empty line;
/// nothing at all for a section without items.
pub open spec fn section(title: Seq<char>, rule: Seq<char>, items: Seq<Seq<char>>) -> Seq<char> {
    if items.len() == 0 {
        Seq::empty()
    } else {
        title + "\n"@ + rule + "\n"@ + bullets(items) + "\n"@
    }
}

/// The release notes as text.
pub open spec fn release_notes_text(
    since: Seq<char>,
    features: Seq<Seq<char>>,
    fixes: Seq<Seq<char>>,
    other: Seq<Seq<char>>,
) -> Seq<char> {
    "Release Notes (since "@ + since + ")\n"@ + "════════════════════════════════════════\n\n"@
        + section("Features"@, "────────"@, features) + section("Fixes"@, "─────"@, fixes)
        + section("Other"@, "─────"@, other) + decimal_digits(
        features.len() + fixes.len() + other.len(),
    ) + " commits total\n"@
}

fn push_section(out: &mut String, title: &str, rule: &str, items: &Vec<String>)
    ensures
        final(out)@ == old(out)@ + section(title@, rule@, views(items@)),
{
    if items.len() == 0 {
        assert(out@ + Seq::<char>::empty() =~= out@);
        return;
    }
    let ghost start = out@;
    out.append(title);
    out.append("\n");
    out.append(rule);
    out.append("\n");
    let ghost head = out@;
    let mut i: usize = 0;
    assert(views(items@).take(0) =~= Seq::<Seq<char>>::empty());
    assert(head + Seq::<char>::empty() =~= head);
    while i < items.len()
        invariant
            i <= items.len(),
            out@ == head + bullets(views(items@).take(i as int)),
        decreases items.len() - i,
    {
        proof {
            let all = views(items@);
            assert(all.take(i + 1).drop_last() =~= all.take(i as int));
            assert(all.take(i + 1).last() == items@[i as int]@);
        }
        out.append("  - ");
        out.append(items[i].as_str());
        out.append("\n");
        assert(out@ =~= head + bullets(views(items@).take(i + 1)));
        i += 1;
    }
    assert(views(items@).take(i as int) =~= views(items@));
    out.append("\n");
    assert(out@ =~= start + section(title@, rule@, views(items@)));
}

/// The release notes as text: a heading, a section for each kind of commit
/// that occurs, and the number of commits.
pub fn render_release_notes_text(report: &ReleaseNotesReport) -> (r: String)
    requires
        report.features.len() + report.fixes.len() + report.other.len() <= usize::MAX,
    ensures
        r@ == release_notes_text(
            report.since@,
            views(report.features@),
            views(report.fixes@),
            views(report.other@),
        ),
{
    let mut out = "Release Notes (since ".to_owned();
    out.append(report.since.as_str());
    out.append(")\n");
    out.append("════════════════════════════════════════\n\n");
    push_section(&mut out, "Features", "────────", &report.features);
    push_section(&mut out, "Fixes", "─────", &report.fixes);
    push_section(&mut out, "Other", "─────", &report.other);
    let total = report.features.len() + report.fixes.len() + report.other.len();
    out.append(decimal(total).as_str());
    out.append(" commits total\n");
    assert(out@ =~= release_notes_text(
        report.since@,
        views(report.features@),
        views(report.fixes@),
        views(report.other@),
    ));
    out
}

} // verus!
