//! The counts behind the reports: how many cards stand where, how many
//! were finished in which week, how a sprint burns down. Averages and
//! projections are left to the caller; what is counted is decided here.
//!
//! A card counts as finished on the day of its last change, if it stands
//! in a column of finished work. Archived cards are never counted.

use crate::clock::Timestamp;
use crate::model::board::{Board, BoardView, ColumnView};
use crate::model::card::{Card, CardView};
use crate::pm::reports::{done_name, is_done_column, is_todo_column, todo_name};
use crate::pm::sprints::{sprint_views, Date, Sprint, SprintView};
use crate::text::{concat, views};
use vstd::prelude::*;

verus! {

// ---------------------------------------------------------------------------
// Days
// ---------------------------------------------------------------------------

/// The first day that chrono holds: January 1 of the year 262143 BCE.
pub const FIRST_DAY: i32 = -95_746_129;

/// The last day that chrono holds: December 31 of the year 262142.
pub const LAST_DAY: i32 = 95_745_399;

/// The day number of January 1, 1970.
pub const EPOCH_DAY: i32 = 719_163;

/// The calendar day in UTC on which a point in time falls: so many whole
/// days after January 1, 1970 as there are whole 86400 seconds in it. It
/// has none where the day is not one that chrono holds, or where the
/// nanoseconds are no part of a second; a number of a thousand million or
/// more stands for a leap second and is one only in the last second of a
/// minute.
pub open spec fn utc_day(secs: i64, nanos: u32) -> Option<Date> {
    let day = secs as int / 86_400 + EPOCH_DAY;
    let second = secs as int % 86_400;
    if FIRST_DAY <= day <= LAST_DAY && nanos < 2_000_000_000 && (nanos < 1_000_000_000 || second
        % 60 == 59) {
        Some(Date { days: day as i32 })
    } else {
        None
    }
}

/// The day of a point in time: `chrono::DateTime::from_timestamp`, then
/// `DateTime::date_naive` and the day number of that date by
/// `Datelike::num_days_from_ce`. The first takes the floor of the seconds
/// over 86400 for the day and refuses a day out of range and nanoseconds
/// that are no part of the second.
#[verifier::external_body]
pub(crate) fn utc_date(t: Timestamp) -> (r: Option<Date>)
    ensures
        r == utc_day(t.secs, t.nanos),
{
    match chrono::DateTime::from_timestamp(t.secs, t.nanos) {
        Some(d) => Some(Date { days: chrono::Datelike::num_days_from_ce(&d.date_naive()) }),
        None => None,
    }
}

/// How many days after a Monday a day is: day 1, January 1 of the year 1,
/// is a Monday, and every seventh day after and before it. A day that
/// chrono does not hold has no weekday.
pub open spec fn monday_offset(days: i32) -> Option<u32> {
    if FIRST_DAY <= days <= LAST_DAY {
        Some(((days - 1) % 7) as u32)
    } else {
        None
    }
}

/// The weekday of a day: `chrono::NaiveDate::from_num_days_from_ce_opt`,
/// which refuses a day out of range, then `Datelike::weekday` and
/// `Weekday::num_days_from_monday`, which counts from 0 for a Monday to 6
/// for a Sunday.
#[verifier::external_body]
pub(crate) fn days_from_monday(d: Date) -> (r: Option<u32>)
    ensures
        r == monday_offset(d.days),
{
    match chrono::NaiveDate::from_num_days_from_ce_opt(d.days) {
        Some(n) => Some(chrono::Datelike::weekday(&n).num_days_from_monday()),
        None => None,
    }
}

/// The day `by` days after `d`; `d` itself where that is no day number.
pub open spec fn shifted(d: Date, by: int) -> Date {
    if i32::MIN <= d.days + by <= i32::MAX {
        Date { days: (d.days + by) as i32 }
    } else {
        d
    }
}

/// The Monday of the week of `d`; `d` itself where chrono cannot hold it.
pub open spec fn week_start(d: Date) -> Date {
    match monday_offset(d.days) {
        Some(k) => shifted(d, -(k as int)),
        None => d,
    }
}

/// The day `by` days after `d`, `by` being zero or more.
pub fn later(d: Date, by: u64) -> (r: Date)
    ensures
        r == shifted(d, by as int),
{
    if by > 0xffff_ffff {
        return d;
    }
    let sum: i64 = d.days as i64 + by as i64;
    if sum > i32::MAX as i64 {
        d
    } else {
        Date { days: sum as i32 }
    }
}

/// The day `by` days before `d`, `by` being zero or more.
pub fn earlier(d: Date, by: u64) -> (r: Date)
    ensures
        r == shifted(d, -(by as int)),
{
    if by > 0xffff_ffff {
        return d;
    }
    let diff: i64 = d.days as i64 - by as i64;
    if diff < i32::MIN as i64 {
        d
    } else {
        Date { days: diff as i32 }
    }
}

/// The Monday of the week of `d`.
pub fn week_start_monday(d: Date) -> (r: Date)
    ensures
        r == week_start(d),
{
    match days_from_monday(d) {
        Some(k) => earlier(d, k as u64),
        None => d,
    }
}

// ---------------------------------------------------------------------------
// Which cards are counted
// ---------------------------------------------------------------------------

/// A way to pick cards for a count.
#[derive(Debug, Clone, Copy, PartialEq, Eq, Structural)]
pub enum Pick {
    /// Cards not yet begun.
    Todo,
    /// Cards in progress.
    Wip,
    /// Finished cards.
    Done,
    /// Cards finished on the given day or before.
    DoneBy(Date),
    /// Cards finished on the given day or after.
    DoneSince(Date),
    /// Cards finished from the first day on and before the second.
    DoneWithin(Date, Date),
}

/// The day on which the card was last changed.
pub open spec fn changed_on(c: CardView) -> Option<Date> {
    utc_day(c.updated_at.secs, c.updated_at.nanos)
}

/// The card is one of those picked.
pub open spec fn picks(p: Pick, c: CardView) -> bool {
    match p {
        Pick::Todo => todo_name(c.column),
        Pick::Wip => !done_name(c.column) && !todo_name(c.column),
        Pick::Done => done_name(c.column),
        Pick::DoneBy(d) => done_name(c.column) && match changed_on(c) {
            Some(day) => day.days <= d.days,
            None => false,
        },
        Pick::DoneSince(d) => done_name(c.column) && match changed_on(c) {
            Some(day) => day.days >= d.days,
            None => false,
        },
        Pick::DoneWithin(from, to) => done_name(c.column) && match changed_on(c) {
            Some(day) => from.days <= day.days < to.days,
            None => false,
        },
    }
}

/// How many of the cards are picked.
pub open spec fn tally(cards: Seq<CardView>, p: Pick) -> nat {
    cards.filter(|c: CardView| picks(p, c)).len()
}

/// The cards that are not archived, in their sequence.
pub open spec fn active_cards(cards: Seq<CardView>) -> Seq<CardView> {
    cards.filter(|c: CardView| !c.archived)
}

pub open spec fn board_views(boards: Seq<Board>) -> Seq<BoardView> {
    boards.map_values(|b: Board| b@)
}

/// The cards of all boards that are not archived, board by board.
pub open spec fn all_active(boards: Seq<BoardView>) -> Seq<CardView>
    decreases boards.len(),
{
    if boards.len() == 0 {
        Seq::empty()
    } else {
        all_active(boards.drop_last()) + active_cards(boards.last().cards)
    }
}

pub open spec fn ref_views(cards: Seq<&Card>) -> Seq<CardView> {
    cards.map_values(|c: &Card| c@)
}

/// The cards of the board that are not archived.
fn gather_board<'a>(board: &'a Board, out: &mut Vec<&'a Card>)
    ensures
        ref_views(final(out)@) == ref_views(old(out)@) + active_cards(board@.cards),
{
    let ghost keep = |c: CardView| !c.archived;
    let ghost before = ref_views(out@);
    let mut i: usize = 0;
    proof {
        reveal(Seq::filter);
        assert(board@.cards.take(0).filter(keep) =~= Seq::<CardView>::empty());
        assert(before + Seq::<CardView>::empty() =~= before);
    }
    while i < board.cards.len()
        invariant
            i <= board.cards.len(),
            keep == (|c: CardView| !c.archived),
            ref_views(out@) == before + board@.cards.take(i as int).filter(keep),
        decreases board.cards.len() - i,
    {
        let card = &board.cards[i];
        proof {
            let all = board@.cards;
            assert(all.take(i + 1) =~= all.take(i as int).push(card@));
            all.take(i as int).lemma_filter_push(card@, keep);
        }
        if !card.archived {
            let ghost mid = ref_views(out@);
            out.push(card);
            assert(ref_views(out@) =~= mid.push(card@));
            assert(ref_views(out@) =~= before + board@.cards.take(i + 1).filter(keep));
        }
        i += 1;
    }
    assert(board@.cards.take(i as int) =~= board@.cards);
}

/// The cards of all boards that are not archived, board by board.
pub fn gather<'a>(boards: &'a [Board]) -> (cards: Vec<&'a Card>)
    ensures
        ref_views(cards@) == all_active(board_views(boards@)),
{
    let mut out: Vec<&Card> = Vec::new();
    let mut b: usize = 0;
    assert(ref_views(out@) =~= Seq::<CardView>::empty());
    assert(board_views(boards@).take(0) =~= Seq::<BoardView>::empty());
    while b < boards.len()
        invariant
            b <= boards.len(),
            ref_views(out@) == all_active(board_views(boards@).take(b as int)),
        decreases boards.len() - b,
    {
        proof {
            let all = board_views(boards@);
            assert(all.take(b + 1).drop_last() =~= all.take(b as int));
            assert(all.take(b + 1).last() == boards@[b as int]@);
        }
        gather_board(&boards[b], &mut out);
        b += 1;
    }
    assert(board_views(boards@).take(b as int) =~= board_views(boards@));
    out
}

/// Whether the card is one of those picked.
fn is_picked(p: Pick, card: &Card) -> (r: bool)
    ensures
        r == picks(p, card@),
{
    match p {
        Pick::Todo => is_todo_column(card.column.as_str()),
        Pick::Wip => !is_done_column(card.column.as_str()) && !is_todo_column(
            card.column.as_str(),
        ),
        Pick::Done => is_done_column(card.column.as_str()),
        Pick::DoneBy(d) => is_done_column(card.column.as_str()) && match utc_date(card.updated_at) {
            Some(day) => day.days <= d.days,
            None => false,
        },
        Pick::DoneSince(d) => is_done_column(card.column.as_str()) && match utc_date(
            card.updated_at,
        ) {
            Some(day) => day.days >= d.days,
            None => false,
        },
        Pick::DoneWithin(from, to) => is_done_column(card.column.as_str()) && match utc_date(
            card.updated_at,
        ) {
            Some(day) => from.days <= day.days && day.days < to.days,
            None => false,
        },
    }
}

/// How many of the cards are picked.
pub fn count(cards: &Vec<&Card>, p: Pick) -> (n: usize)
    ensures
        n == tally(ref_views(cards@), p),
        n <= cards.len(),
{
    let ghost keep = |c: CardView| picks(p, c);
    let ghost all = ref_views(cards@);
    let mut n: usize = 0;
    let mut i: usize = 0;
    proof {
        reveal(Seq::filter);
        assert(all.take(0).filter(keep) =~= Seq::<CardView>::empty());
    }
    while i < cards.len()
        invariant
            i <= cards.len(),
            n <= i,
            all == ref_views(cards@),
            keep == (|c: CardView| picks(p, c)),
            n == all.take(i as int).filter(keep).len(),
        decreases cards.len() - i,
    {
        proof {
            assert(all.take(i + 1) =~= all.take(i as int).push(cards[i as int]@));
            all.take(i as int).lemma_filter_push(cards[i as int]@, keep);
        }
        if is_picked(p, cards[i]) {
            n += 1;
        }
        i += 1;
    }
    assert(all.take(i as int) =~= all);
    n
}

// ---------------------------------------------------------------------------
// Statistics of a board
// ---------------------------------------------------------------------------

/// The counts of one board.
#[derive(Debug, Clone, PartialEq)]
pub struct StatsCounts {
    pub board_name: String,
    pub total_cards: usize,
    pub active_cards: usize,
    pub archived_cards: usize,
    /// The cards in progress.
    pub wip_count: usize,
    /// The limit of the first column of work in progress that has one.
    pub wip_limit: Option<u32>,
    /// There are more cards in progress than the limit allows.
    pub wip_violation: bool,
    /// The cards finished within the last seven days.
    pub done_7d: usize,
    /// The cards finished within the last thirty days.
    pub done_30d: usize,
    /// The position on the board of the card in progress that was created
    /// first.
    pub oldest_wip: Option<usize>,
}

/// The column is one of work in progress and has a limit.
pub open spec fn limits_wip(column: ColumnView) -> bool {
    !done_name(column.name) && !todo_name(column.name) && column.wip_limit is Some
}

/// `i` is the place of the first column of work in progress with a limit.
pub open spec fn is_first_limit(columns: Seq<ColumnView>, i: int) -> bool {
    &&& 0 <= i < columns.len()
    &&& limits_wip(columns[i])
    &&& forall|j: int| 0 <= j < i ==> !limits_wip(#[trigger] columns[j])
}

/// The limit of the first column of work in progress that has one.
pub open spec fn wip_limit_of(columns: Seq<ColumnView>) -> Option<u32> {
    if exists|i: int| is_first_limit(columns, i) {
        columns[choose|i: int| is_first_limit(columns, i)].wip_limit
    } else {
        None
    }
}

/// `a` is a point in time before `b`.
pub open spec fn before_time(a: Timestamp, b: Timestamp) -> bool {
    a.secs < b.secs || (a.secs == b.secs && a.nanos < b.nanos)
}

/// The card is in progress and not archived.
pub open spec fn in_progress(c: CardView) -> bool {
    !c.archived && !done_name(c.column) && !todo_name(c.column)
}

/// `i` is the position of the card in progress that was created first: no
/// card in progress was created before it, and none that stands before it
/// was created at the same time.
pub open spec fn is_oldest_wip(cards: Seq<CardView>, i: int) -> bool {
    &&& 0 <= i < cards.len()
    &&& in_progress(cards[i])
    &&& forall|j: int|
        0 <= j < cards.len() && in_progress(#[trigger] cards[j]) ==> !before_time(
            cards[j].created_at,
            cards[i].created_at,
        )
    &&& forall|j: int|
        0 <= j < i && in_progress(#[trigger] cards[j]) ==> cards[j].created_at
            != cards[i].created_at
}

/// The counts of a board on the day `today`.
pub open spec fn stats_of(b: BoardView, today: Date, r: StatsCounts) -> bool {
    let active = active_cards(b.cards);
    &&& r.board_name@ == b.name
    &&& r.total_cards == b.cards.len()
    &&& r.active_cards == active.len()
    &&& r.archived_cards == b.cards.len() - active.len()
    &&& r.wip_count == tally(active, Pick::Wip)
    &&& r.wip_limit == wip_limit_of(b.columns)
    &&& r.wip_violation == match r.wip_limit {
        Some(limit) => r.wip_count > limit,
        None => false,
    }
    &&& r.done_7d == tally(active, Pick::DoneSince(shifted(today, -7)))
    &&& r.done_30d == tally(active, Pick::DoneSince(shifted(today, -30)))
    &&& match r.oldest_wip {
        Some(i) => is_oldest_wip(b.cards, i as int),
        None => forall|j: int| 0 <= j < b.cards.len() ==> !in_progress(#[trigger] b.cards[j]),
    }
}

fn first_wip_limit(board: &Board) -> (r: Option<u32>)
    ensures
        r == wip_limit_of(board@.columns),
{
    let mut i: usize = 0;
    while i < board.columns.len()
        invariant
            i <= board.columns.len(),
            forall|j: int| 0 <= j < i ==> !limits_wip(#[trigger] board@.columns[j]),
        decreases board.columns.len() - i,
    {
        let column = &board.columns[i];
        assert(board@.columns[i as int] == column@);
        if !is_done_column(column.name.as_str()) && !is_todo_column(column.name.as_str())
            && column.wip_limit.is_some() {
            assert(is_first_limit(board@.columns, i as int));
            return column.wip_limit;
        }
        i += 1;
    }
    None
}

fn oldest_in_progress(board: &Board) -> (r: Option<usize>)
    ensures
        match r {
            Some(i) => is_oldest_wip(board@.cards, i as int),
            None => forall|j: int|
                0 <= j < board.cards.len() ==> !in_progress(#[trigger] board@.cards[j]),
        },
{
    let mut best: Option<usize> = None;
    let mut i: usize = 0;
    while i < board.cards.len()
        invariant
            i <= board.cards.len(),
            match best {
                Some(b) => b < i && is_oldest_wip(board@.cards.take(i as int), b as int),
                None => forall|j: int| 0 <= j < i ==> !in_progress(#[trigger] board@.cards[j]),
            },
        decreases board.cards.len() - i,
    {
        let card = &board.cards[i];
        let ghost seen = board@.cards.take(i as int);
        let ghost next = board@.cards.take(i + 1);
        assert(board@.cards[i as int] == card@);
        assert(forall|j: int| 0 <= j < i ==> next[j] == seen[j]);
        assert(next[i as int] == card@);
        let progress = !card.archived && !is_done_column(card.column.as_str())
            && !is_todo_column(card.column.as_str());
        if progress {
            let older = match best {
                Some(b) => {
                    let held = &board.cards[b];
                    assert(seen[b as int] == held@);
                    card.created_at.secs < held.created_at.secs || (card.created_at.secs
                        == held.created_at.secs && card.created_at.nanos < held.created_at.nanos)
                },
                None => true,
            };
            if older {
                best = Some(i);
                assert(is_oldest_wip(next, i as int));
            } else {
                assert(is_oldest_wip(next, best->0 as int));
            }
        } else {
            if let Some(b) = best {
                assert(is_oldest_wip(next, b as int));
            }
        }
        i += 1;
    }
    assert(board@.cards.take(i as int) =~= board@.cards);
    best
}

/// The counts of a board on the day `today`: how many cards it has, how
/// many of them are archived, how many are in progress and whether that is
/// more than the limit allows, how many were finished in the last seven
/// and the last thirty days, and which card in progress is the oldest.
pub fn calculate_stats(board: &Board, today: Date) -> (r: StatsCounts)
    ensures
        stats_of(board@, today, r),
{
    let mut active: Vec<&Card> = Vec::new();
    gather_board(board, &mut active);
    assert(ref_views(active@) =~= active_cards(board@.cards));
    proof {
        board@.cards.lemma_filter_len(|c: CardView| !c.archived);
    }
    let wip_count = count(&active, Pick::Wip);
    let wip_limit = first_wip_limit(board);
    let wip_violation = match wip_limit {
        Some(limit) => wip_count > limit as usize,
        None => false,
    };
    StatsCounts {
        board_name: board.name.clone(),
        total_cards: board.cards.len(),
        active_cards: active.len(),
        archived_cards: board.cards.len() - active.len(),
        wip_count,
        wip_limit,
        wip_violation,
        done_7d: count(&active, Pick::DoneSince(earlier(today, 7))),
        done_30d: count(&active, Pick::DoneSince(earlier(today, 30))),
        oldest_wip: oldest_in_progress(board),
    }
}

// ---------------------------------------------------------------------------
// Velocity
// ---------------------------------------------------------------------------

/// The cards finished in one week.
#[derive(Debug, Clone, Copy, PartialEq, Eq, Structural)]
pub struct WeekBucket {
    pub week_start: Date,
    pub count: usize,
}

/// Whether more gets done than before.
#[derive(Debug, Clone, Copy, PartialEq, Eq, Structural)]
pub enum Trend {
    Improving,
    Declining,
    Stable,
}

/// The cards finished week by week.
#[derive(Debug, Clone, PartialEq)]
pub struct VelocityCounts {
    pub weeks: Vec<WeekBucket>,
    /// The cards finished in all the weeks together.
    pub total: usize,
    pub trend: Trend,
}

/// The start of week `j` of `n` weeks that end with the week of `today`.
pub open spec fn past_week(today: Date, n: int, j: int) -> Date {
    shifted(week_start(today), -(7 * (n - 1 - j)))
}

/// The bucket of the week that starts on `start`.
pub open spec fn bucket(cards: Seq<CardView>, start: Date) -> WeekBucket {
    WeekBucket {
        week_start: start,
        count: tally(cards, Pick::DoneWithin(start, shifted(start, 7))) as usize,
    }
}

/// The buckets of the `n` weeks that end with the week of `today`.
pub open spec fn buckets(cards: Seq<CardView>, today: Date, n: int) -> Seq<WeekBucket> {
    Seq::new(n as nat, |j: int| bucket(cards, past_week(today, n, j)))
}

/// The counts of the buckets from `from` up to `to`, added up.
pub open spec fn sum(weeks: Seq<WeekBucket>, from: int, to: int) -> int
    decreases to - from,
{
    if from >= to {
        0
    } else {
        sum(weeks, from, to - 1) + weeks[to - 1].count
    }
}

/// The trend between two halves: more than one card more is an
/// improvement, more than one card less a decline.
pub open spec fn trend_of(first: int, second: int) -> Trend {
    if second > first + 1 {
        Trend::Improving
    } else if first > second + 1 {
        Trend::Declining
    } else {
        Trend::Stable
    }
}

/// The velocity over the weeks.
pub open spec fn velocity_of(weeks: Seq<WeekBucket>) -> (int, Trend) {
    let half = weeks.len() as int / 2;
    (
        sum(weeks, 0, weeks.len() as int),
        trend_of(sum(weeks, 0, half), sum(weeks, half, weeks.len() as int)),
    )
}

proof fn lemma_sum_bound(weeks: Seq<WeekBucket>, from: int, to: int, most: int)
    requires
        0 <= from <= to <= weeks.len(),
        0 <= most,
        forall|j: int| 0 <= j < weeks.len() ==> (#[trigger] weeks[j]).count <= most,
    ensures
        0 <= sum(weeks, from, to) <= (to - from) * most,
    decreases to - from,
{
    if from < to {
        lemma_sum_bound(weeks, from, to - 1, most);
        assert((to - from) * most == (to - 1 - from) * most + most) by (nonlinear_arith);
    }
}

fn add_up(weeks: &Vec<WeekBucket>, from: usize, to: usize, Ghost(most): Ghost<int>) -> (r: usize)
    requires
        from <= to <= weeks.len(),
        0 <= most,
        weeks.len() * most <= usize::MAX,
        forall|j: int| 0 <= j < weeks.len() ==> (#[trigger] weeks[j]).count <= most,
    ensures
        r == sum(weeks@, from as int, to as int),
{
    let mut total: usize = 0;
    let mut i: usize = from;
    while i < to
        invariant
            from <= i <= to <= weeks.len(),
            0 <= most,
            weeks.len() * most <= usize::MAX,
            forall|j: int| 0 <= j < weeks.len() ==> (#[trigger] weeks[j]).count <= most,
            total == sum(weeks@, from as int, i as int),
        decreases to - i,
    {
        proof {
            lemma_sum_bound(weeks@, from as int, i + 1, most);
            assert((i + 1 - from) * most <= weeks.len() * most) by (nonlinear_arith)
                requires
                    0 <= i + 1 - from <= weeks.len(),
                    0 <= most,
            ;
        }
        total = total + weeks[i].count;
        i += 1;
    }
    total
}

/// The cards of the boards finished in each of the `num_weeks` weeks that
/// end with the week of `today`, their number, and the trend from the
/// first half of the weeks to the second. `None` if there are so many
/// weeks and cards that the number might not fit.
pub fn calculate_velocity(boards: &[Board], num_weeks: u32, today: Date) -> (r: Option<
    VelocityCounts,
>)
    ensures
        ({
            let cards = all_active(board_views(boards@));
            match r {
                Some(v) => {
                    &&& num_weeks * cards.len() <= usize::MAX
                    &&& v.weeks@ == buckets(cards, today, num_weeks as int)
                    &&& (v.total as int, v.trend) == velocity_of(v.weeks@)
                },
                None => num_weeks * cards.len() > usize::MAX,
            }
        }),
{
    let cards = gather(boards);
    let ghost all = ref_views(cards@);
    let fits = match (num_weeks as usize).checked_mul(cards.len()) {
        Some(_) => true,
        None => false,
    };
    if !fits {
        return None;
    }
    let current = week_start_monday(today);
    let mut weeks: Vec<WeekBucket> = Vec::new();
    let mut j: u32 = 0;
    while j < num_weeks
        invariant
            j <= num_weeks,
            weeks.len() == j,
            all == ref_views(cards@),
            current == week_start(today),
            forall|k: int|
                0 <= k < j ==> #[trigger] weeks[k] == bucket(
                    all,
                    past_week(today, num_weeks as int, k),
                ),
        decreases num_weeks - j,
    {
        let back: u64 = 7 * ((num_weeks - 1 - j) as u64);
        let start = earlier(current, back);
        let found = count(&cards, Pick::DoneWithin(start, later(start, 7)));
        weeks.push(WeekBucket { week_start: start, count: found });
        j += 1;
    }
    assert(weeks@ =~= buckets(all, today, num_weeks as int));
    let ghost most = cards.len() as int;
    proof {
        assert forall|k: int| 0 <= k < weeks.len() implies (#[trigger] weeks[k]).count
            <= most by {
            all.lemma_filter_len(
                |c: CardView|
                    picks(
                        Pick::DoneWithin(
                            past_week(today, num_weeks as int, k),
                            shifted(past_week(today, num_weeks as int, k), 7),
                        ),
                        c,
                    ),
            );
        }
    }
    let half = weeks.len() / 2;
    let total = add_up(&weeks, 0, weeks.len(), Ghost(most));
    let first = add_up(&weeks, 0, half, Ghost(most));
    let second = add_up(&weeks, half, weeks.len(), Ghost(most));
    proof {
        lemma_sum_bound(weeks@, 0, half as int, most);
        lemma_sum_bound(weeks@, half as int, weeks.len() as int, most);
        assert(half * most <= weeks.len() * most) by (nonlinear_arith)
            requires
                0 <= half <= weeks.len(),
                0 <= most,
        ;
        assert((weeks.len() - half) * most <= weeks.len() * most) by (nonlinear_arith)
            requires
                0 <= half <= weeks.len(),
                0 <= most,
        ;
    }
    let trend = if second > first && second - first > 1 {
        Trend::Improving
    } else if first > second && first - second > 1 {
        Trend::Declining
    } else {
        Trend::Stable
    };
    Some(VelocityCounts { weeks, total, trend })
}

/// The name of a trend.
pub fn trend_name(trend: Trend) -> (r: &'static str)
    ensures
        r@ == match trend {
            Trend::Improving => "improving"@,
            Trend::Declining => "declining"@,
            Trend::Stable => "stable"@,
        },
{
    match trend {
        Trend::Improving => "improving",
        Trend::Declining => "declining",
        Trend::Stable => "stable",
    }
}

// ---------------------------------------------------------------------------
// Burndown
// ---------------------------------------------------------------------------

/// What is left of the scope on one day.
#[derive(Debug, Clone, Copy, PartialEq, Eq, Structural)]
pub struct BurndownPoint {
    pub date: Date,
    /// The cards not finished by that day.
    pub actual: usize,
}

/// How a sprint burns down.
#[derive(Debug, Clone, PartialEq)]
pub struct BurndownCounts {
    pub sprint_name: String,
    pub start: Date,
    pub end: Date,
    /// The scope: all cards that are not archived.
    pub total_cards: usize,
    pub points: Vec<BurndownPoint>,
}

/// The point of one day: the cards not finished by then.
pub open spec fn point(cards: Seq<CardView>, date: Date) -> BurndownPoint {
    BurndownPoint { date, actual: (cards.len() - tally(cards, Pick::DoneBy(date))) as usize }
}

/// How many points there are from `from` up to `until`, one every seventh
/// day.
pub open spec fn weeks_between(from: Date, until: Date) -> int {
    if from.days > until.days {
        0
    } else {
        (until.days - from.days) / 7 + 1
    }
}

/// The points of every seventh day from `from` up to `until`.
pub open spec fn weekly(cards: Seq<CardView>, from: Date, until: Date) -> Seq<BurndownPoint> {
    Seq::new(
        weeks_between(from, until) as nat,
        |k: int| point(cards, Date { days: (from.days + 7 * k) as i32 }),
    )
}

/// The earlier of two days.
pub open spec fn first_of(a: Date, b: Date) -> Date {
    if a.days <= b.days {
        a
    } else {
        b
    }
}

/// The points of a sprint from `start` to `end`, seen on the day `today`:
/// one for every seventh day of the sprint that has come, and, once the
/// sprint is over, one for its last day unless that was one of them. The
/// last one counts every finished card, whenever it was finished.
pub open spec fn burndown_points(cards: Seq<CardView>, start: Date, end: Date, today: Date) -> Seq<
    BurndownPoint,
> {
    let regular = weekly(cards, start, first_of(end, today));
    if regular.len() > 0 && regular.last().date.days < end.days && today.days >= end.days {
        regular.push(
            BurndownPoint {
                date: end,
                actual: (cards.len() - tally(cards, Pick::Done)) as usize,
            },
        )
    } else {
        regular
    }
}

/// How many of a sprint's points stand on its weekly days, seen on the day
/// `today`: one for the first day and one for every seventh day after it,
/// up to the last day or to today, whichever comes first; none before the
/// sprint begins.
pub fn weekly_points(sprint: &Sprint, today: Date) -> (n: usize)
    ensures
        n == weeks_between(sprint.start, first_of(sprint.end, today)),
{
    let until: i32 = if sprint.end.days <= today.days {
        sprint.end.days
    } else {
        today.days
    };
    if sprint.start.days > until {
        0
    } else {
        let span: i64 = until as i64 - sprint.start.days as i64;
        (span / 7 + 1) as usize
    }
}

/// How the sprint burns down, seen on the day `today`.
pub fn calculate_burndown(boards: &[Board], sprint: &Sprint, today: Date) -> (r: BurndownCounts)
    ensures
        r.sprint_name@ == sprint@.name,
        r.start == sprint.start,
        r.end == sprint.end,
        r.total_cards == all_active(board_views(boards@)).len(),
        r.points@ == burndown_points(
            all_active(board_views(boards@)),
            sprint.start,
            sprint.end,
            today,
        ),
{
    let start = sprint.start;
    let end = sprint.end;
    let cards = gather(boards);
    let ghost all = ref_views(cards@);
    let until = if end.days <= today.days {
        end
    } else {
        today
    };
    let mut points: Vec<BurndownPoint> = Vec::new();
    let times: usize = weekly_points(sprint, today);
    let mut k: usize = 0;
    while k < times
        invariant
            0 <= k <= times,
            times == weeks_between(start, until),
            all == ref_views(cards@),
            points.len() == k,
            forall|j: int|
                0 <= j < k ==> #[trigger] points[j] == point(
                    all,
                    Date { days: (start.days + 7 * j) as i32 },
                ),
        decreases times - k,
    {
        let date = Date { days: (start.days as i64 + 7 * (k as i64)) as i32 };
        let done = count(&cards, Pick::DoneBy(date));
        points.push(BurndownPoint { date, actual: cards.len() - done });
        k += 1;
    }
    assert(points@ =~= weekly(all, start, until));
    let n = points.len();
    if n > 0 && points[n - 1].date.days < end.days && today.days >= end.days {
        let done = count(&cards, Pick::Done);
        points.push(BurndownPoint { date: end, actual: cards.len() - done });
    }
    BurndownCounts { sprint_name: sprint.name.clone(), start, end, total_cards: cards.len(), points }
}

// ---------------------------------------------------------------------------
// Roadmap
// ---------------------------------------------------------------------------

/// One week of a roadmap: its Monday, and the sprints that end in it.
#[derive(Debug, Clone, PartialEq)]
pub struct RoadmapWeek {
    pub week_start: Date,
    pub milestones: Vec<String>,
}

/// What a roadmap starts from: the cards not begun, in progress and
/// finished, and the weeks to come.
#[derive(Debug, Clone, PartialEq)]
pub struct RoadmapCounts {
    pub todo: usize,
    pub wip: usize,
    pub done: usize,
    pub weeks: Vec<RoadmapWeek>,
}

#[verifier::ext_equal]
pub struct RoadmapWeekView {
    pub week_start: Date,
    pub milestones: Seq<Seq<char>>,
}

impl View for RoadmapWeek {
    type V = RoadmapWeekView;

    open spec fn view(&self) -> RoadmapWeekView {
        RoadmapWeekView { week_start: self.week_start, milestones: views(self.milestones@) }
    }
}

/// The sprint ends in the week that starts on `start`.
pub open spec fn ends_in(s: SprintView, start: Date) -> bool {
    start.days <= s.end.days < shifted(start, 7).days
}

/// The milestones of the week that starts on `start`: for each sprint that
/// ends in it, in the sequence of the sprints, that it ends.
pub open spec fn milestones(sprints: Seq<SprintView>, start: Date) -> Seq<Seq<char>> {
    sprints.filter(|s: SprintView| ends_in(s, start)).map_values(
        |s: SprintView| s.name + " ends"@,
    )
}

/// Week `i` from the week of `today` on.
pub open spec fn coming_week(sprints: Seq<SprintView>, today: Date, i: int) -> RoadmapWeekView {
    let start = shifted(week_start(today), 7 * i);
    RoadmapWeekView { week_start: start, milestones: milestones(sprints, start) }
}

fn week_milestones(sprints: &[Sprint], start: Date) -> (r: Vec<String>)
    ensures
        views(r@) == milestones(sprint_views(sprints@), start),
{
    let ghost keep = |s: SprintView| ends_in(s, start);
    let ghost say = |s: SprintView| s.name + " ends"@;
    let ghost all = sprint_views(sprints@);
    let end = later(start, 7);
    let mut out: Vec<String> = Vec::new();
    let mut i: usize = 0;
    proof {
        reveal(Seq::filter);
        assert(all.take(0).filter(keep) =~= Seq::<SprintView>::empty());
        assert(views(out@) =~= all.take(0).filter(keep).map_values(say));
    }
    while i < sprints.len()
        invariant
            i <= sprints.len(),
            all == sprint_views(sprints@),
            keep == (|s: SprintView| ends_in(s, start)),
            say == (|s: SprintView| s.name + " ends"@),
            end == shifted(start, 7),
            views(out@) == all.take(i as int).filter(keep).map_values(say),
        decreases sprints.len() - i,
    {
        let sprint = &sprints[i];
        proof {
            assert(all[i as int] == sprint@);
            assert(all.take(i + 1) =~= all.take(i as int).push(sprint@));
            all.take(i as int).lemma_filter_push(sprint@, keep);
        }
        if start.days <= sprint.end.days && sprint.end.days < end.days {
            let ghost before = views(out@);
            let ghost kept = all.take(i as int).filter(keep);
            out.push(concat(sprint.name.as_str(), " ends"));
            assert(views(out@) =~= before.push(sprint@.name + " ends"@));
            assert(kept.push(sprint@).map_values(say) =~= kept.map_values(say).push(
                say(sprint@),
            ));
        }
        i += 1;
    }
    assert(all.take(i as int) =~= all);
    out
}

/// What a roadmap over `num_weeks` weeks from the week of `today` on
/// starts from.
pub fn calculate_roadmap(boards: &[Board], sprints: &[Sprint], num_weeks: u32, today: Date) -> (r:
    RoadmapCounts)
    ensures
        r.todo == tally(all_active(board_views(boards@)), Pick::Todo),
        r.wip == tally(all_active(board_views(boards@)), Pick::Wip),
        r.done == tally(all_active(board_views(boards@)), Pick::Done),
        r.weeks@.map_values(|w: RoadmapWeek| w@) == Seq::new(
            num_weeks as nat,
            |i: int| coming_week(sprint_views(sprints@), today, i),
        ),
{
    let cards = gather(boards);
    let current = week_start_monday(today);
    let mut weeks: Vec<RoadmapWeek> = Vec::new();
    let mut i: u32 = 0;
    while i < num_weeks
        invariant
            i <= num_weeks,
            weeks.len() == i,
            current == week_start(today),
            forall|k: int|
                0 <= k < i ==> (#[trigger] weeks[k])@ == coming_week(
                    sprint_views(sprints@),
                    today,
                    k,
                ),
        decreases num_weeks - i,
    {
        let start = later(current, 7 * (i as u64));
        weeks.push(RoadmapWeek { week_start: start, milestones: week_milestones(sprints, start) });
        i += 1;
    }
    assert(weeks@.map_values(|w: RoadmapWeek| w@) =~= Seq::new(
        num_weeks as nat,
        |i: int| coming_week(sprint_views(sprints@), today, i),
    ));
    RoadmapCounts {
        todo: count(&cards, Pick::Todo),
        wip: count(&cards, Pick::Wip),
        done: count(&cards, Pick::Done),
        weeks,
    }
}

} // verus!
