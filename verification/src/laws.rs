//! What the shared parts do, told by what goes in and what comes out.
use crate::auth::{CurrentUser, Role};
use crate::calendar::{
    date_text, days_are_in_the_order_of_their_numbers, days_in_month, is_leap, lemma_next, Date,
    LAST_YEAR,
};
use crate::error::{number_of, DbFault, ErrorCode};
use crate::flow::{for_managers, Next};
use crate::mapping::missing_of;
use crate::paging::{clamped, page_limit, page_offset};
use crate::patch::{is_blank, text_change, trimmed_opt};
use crate::text::{
    decimal, decimal_is_read_back, digits, digits_value, is_digit, is_space, joined,
    like_pattern_of, list_text, non_blank, numeral_value, parsed_i64, trimmed,
};
use vstd::prelude::*;

verus! {

// ---------------------------------------------------------------------------
// Texts
// ---------------------------------------------------------------------------

/// The characters that count as space: those with the Unicode property
/// White_Space.
pub proof fn spaces_are_white_space(c: char)
    ensures
        is_space(c) <==> {
            ||| c == ' ' || c == '\t' || c == '\n' || c == '\r'
            ||| c as u32 == 0x0b || c as u32 == 0x0c
            ||| c as u32 == 0x85 || c as u32 == 0xa0 || c as u32 == 0x1680
            ||| 0x2000 <= c as u32 <= 0x200a
            ||| c as u32 == 0x2028 || c as u32 == 0x2029 || c as u32 == 0x202f || c as u32
                == 0x205f || c as u32 == 0x3000
        },
{
}

/// Trimming takes off all space at both ends, and nothing else.
pub proof fn trimming_takes_off_space_at_the_ends(s: Seq<char>) -> (r: (int, int))
    ensures
        0 <= r.0 <= r.1 <= s.len(),
        trimmed(s) == s.subrange(r.0, r.1),
        forall|i: int| 0 <= i < s.len() && (i < r.0 || r.1 <= i) ==> is_space(#[trigger] s[i]),
        r.0 < r.1 ==> !is_space(s[r.0]) && !is_space(s[r.1 - 1]),
    decreases s.len(),
{
    if s.len() == 0 {
        assert(s.subrange(0, 0) =~= s);
        (0, 0)
    } else if is_space(s.first()) {
        let rest = s.drop_first();
        let (lo, hi) = trimming_takes_off_space_at_the_ends(rest);
        assert(rest.subrange(lo, hi) =~= s.subrange(lo + 1, hi + 1));
        assert forall|i: int| 0 <= i < s.len() && (i < lo + 1 || hi + 1 <= i) implies is_space(
            #[trigger] s[i],
        ) by {
            if i > 0 {
                assert(s[i] == rest[i - 1]);
            }
        }
        (lo + 1, hi + 1)
    } else if is_space(s.last()) {
        let rest = s.drop_last();
        let (lo, hi) = trimming_takes_off_space_at_the_ends(rest);
        assert(rest.subrange(lo, hi) =~= s.subrange(lo, hi));
        assert forall|i: int| 0 <= i < s.len() && (i < lo || hi <= i) implies is_space(
            #[trigger] s[i],
        ) by {
            if i < rest.len() {
                assert(s[i] == rest[i]);
            }
        }
        (lo, hi)
    } else {
        assert(s.subrange(0, s.len() as int) =~= s);
        (0, s.len() as int)
    }
}

/// An optional text is kept where it holds more than space, without the space
/// around it; a search is for texts that hold it.
pub proof fn blank_texts_are_dropped(s: Option<Seq<char>>)
    ensures
        s is None ==> non_blank(s) is None && like_pattern_of(s) is None,
        s matches Some(t) ==> if forall|i: int| 0 <= i < t.len() ==> is_space(#[trigger] t[i]) {
            non_blank(s) is None && like_pattern_of(s) is None
        } else {
            non_blank(s) == Some(trimmed(t)) && like_pattern_of(s) == Some(
                "%"@ + trimmed(t) + "%"@,
            )
        },
{
    if let Some(t) = s {
        let (lo, hi) = trimming_takes_off_space_at_the_ends(t);
    }
}

/// What may be left out of a change: a text that is left out changes nothing, one
/// that is taken away is set to nothing, and another is set without the space
/// around it.
pub proof fn changes_of_texts(change: Option<Option<String>>, required: Option<String>)
    ensures
        text_change(change).0 <==> change is Some,
        change matches Some(Some(v)) ==> text_change(change).1 == Some(trimmed(v@)),
        !(change matches Some(Some(_))) ==> text_change(change).1 is None,
        is_blank(required) <==> (required is Some && forall|i: int|
            0 <= i < required->0@.len() ==> is_space(#[trigger] required->0@[i])),
        required is None ==> trimmed_opt(required) is None,
        required matches Some(v) ==> trimmed_opt(required) == Some(trimmed(v@)),
{
    if let Some(v) = required {
        let (lo, hi) = trimming_takes_off_space_at_the_ends(v@);
    }
}

/// A number is written with digits alone, after a sign or none; anything else is
/// no number, and nor is one that does not fit.
pub proof fn numbers_are_digits_after_a_sign(s: Seq<char>)
    ensures
        parsed_i64(s) is Some ==> {
            &&& s.len() > 0
            &&& '0' <= s.last() <= '9'
            &&& forall|i: int| 1 <= i < s.len() ==> '0' <= #[trigger] s[i] <= '9'
            &&& '0' <= s[0] <= '9' || ((s[0] == '-' || s[0] == '+') && s.len() > 1)
        },
        parsed_i64(s) matches Some(n) ==> numeral_value(s) == Some(n as int),
        numeral_value(s) matches Some(n) ==> (i64::MIN <= n <= i64::MAX <==> parsed_i64(s) is Some),
        numeral_value(s) is None ==> parsed_i64(s) is None,
{
    let signed = s.len() > 0 && (s[0] == '-' || s[0] == '+');
    let body = if signed {
        s.drop_first()
    } else {
        s
    };
    if parsed_i64(s) is Some {
        assert(is_digit(body[body.len() - 1]));
        assert forall|i: int| 1 <= i < s.len() implies '0' <= #[trigger] s[i] <= '9' by {
            if signed {
                assert(s[i] == body[i - 1]);
            } else {
                assert(s[i] == body[i]);
            }
        }
        if !signed {
            assert(is_digit(body[0]));
        }
    }
}

/// What a number comes to: one digit more makes it ten times as large and adds
/// the digit; a minus sign turns it round, a plus sign does nothing.
pub proof fn numbers_grow_by_their_digits(s: Seq<char>, c: char)
    requires
        forall|i: int| 0 <= i < s.len() ==> '0' <= #[trigger] s[i] <= '9',
        '0' <= c <= '9',
    ensures
        s.len() == 0 ==> numeral_value(s.push(c)) == Some(c as int - '0' as int),
        s.len() > 0 ==> numeral_value(s) is Some && numeral_value(s.push(c)) == Some(
            10 * numeral_value(s)->0 + (c as int - '0' as int),
        ),
        s.len() > 0 ==> numeral_value(seq!['-'] + s) == Some(-numeral_value(s)->0)
            && numeral_value(seq!['+'] + s) == numeral_value(s),
{
    reveal_with_fuel(digits_value, 2);
    let more = s.push(c);
    assert(more.drop_last() =~= s);
    assert forall|i: int| 0 <= i < more.len() implies is_digit(#[trigger] more[i]) by {
        if i < s.len() {
            assert('0' <= s[i] <= '9');
        }
    }
    assert('0' <= more[0] <= '9');
    if s.len() > 0 {
        assert('0' <= s[0] <= '9');
        assert((seq!['-'] + s).drop_first() =~= s);
        assert((seq!['+'] + s).drop_first() =~= s);
    }
}

/// An id is written with as few characters as there can be: no plus sign, and no
/// zero before other digits.
pub proof fn ids_are_written_without_padding(i: i64)
    ensures
        parsed_i64(decimal(i as int)) == Some(i),
        decimal(i as int).len() > 0,
        decimal(i as int)[0] == '-' <==> i < 0,
        decimal(i as int)[0] != '+',
        i > 0 ==> decimal(i as int)[0] != '0',
        i < 0 ==> decimal(i as int)[1] != '0',
        i == 0 ==> decimal(i as int) == seq!['0'],
{
    decimal_is_read_back(i);
    if i >= 0 {
        lemma_first_digit(i as nat);
    } else {
        lemma_first_digit((-i) as nat);
        assert(decimal(i as int)[1] == digits((-i) as nat)[0]);
    }
    if i == 0 {
        assert(decimal(0) =~= seq!['0']);
    }
}

proof fn lemma_first_digit(n: nat)
    ensures
        digits(n).len() > 0,
        '0' <= digits(n)[0] <= '9',
        n > 0 ==> digits(n)[0] != '0',
    decreases n,
{
    if n >= 10 {
        lemma_first_digit(n / 10);
        assert(digits(n)[0] == digits(n / 10)[0]);
    }
}

/// A list of ids is written in brackets, with a comma and a space between ids.
pub proof fn lists_are_written_with_commas(ids: Seq<i64>, id: i64)
    ensures
        list_text(ids) == seq!['['] + joined(ids) + seq![']'],
        joined(Seq::empty()).len() == 0,
        ids.len() == 0 ==> joined(ids.push(id)) == decimal(id as int),
        ids.len() > 0 ==> joined(ids.push(id)) == joined(ids) + seq![',', ' '] + decimal(id as int),
{
    assert(ids.push(id).drop_last() =~= ids);
}

// ---------------------------------------------------------------------------
// Pages and lists
// ---------------------------------------------------------------------------

/// A page has 50 entries where nothing is said, and between 1 and 500 in any
/// case; it begins at the first entry, or further on.
pub proof fn pages_have_bounds(limit: Option<i64>, offset: Option<i64>)
    ensures
        limit is None ==> page_limit(limit) == 50,
        limit matches Some(l) ==> (1 <= l <= 500 ==> page_limit(limit) == l) && (l < 1
            ==> page_limit(limit) == 1) && (l > 500 ==> page_limit(limit) == 500),
        offset is None ==> page_offset(offset) == 0,
        offset matches Some(o) ==> (o >= 0 ==> page_offset(offset) == o) && (o < 0 ==> page_offset(
            offset,
        ) == 0),
{
}

/// This is the page that was asked for: 50 entries from the first where nothing
/// is said, at least 1 and at most 500, and never before the first.
pub open spec fn is_page(
    asked_limit: Option<i64>,
    asked_offset: Option<i64>,
    limit: i64,
    offset: i64,
) -> bool {
    &&& asked_limit is None ==> limit == 50
    &&& asked_limit is Some ==> if asked_limit->0 < 1 {
        limit == 1
    } else if asked_limit->0 > 500 {
        limit == 500
    } else {
        limit == asked_limit->0
    }
    &&& asked_offset is None ==> offset == 0
    &&& asked_offset is Some ==> if asked_offset->0 < 0 {
        offset == 0
    } else {
        offset == asked_offset->0
    }
}

/// A value within bounds stays, another becomes the bound that it is beyond.
pub proof fn clamping_keeps_what_is_within(v: i64, lo: i64, hi: i64)
    requires
        lo <= hi,
    ensures
        lo <= clamped(v, lo, hi) <= hi,
        lo <= v <= hi ==> clamped(v, lo, hi) == v,
        v < lo ==> clamped(v, lo, hi) == lo,
        v > hi ==> clamped(v, lo, hi) == hi,
{
}

/// What is missing are the named ids that were not found, in their order.
pub proof fn missing_are_those_not_found(ids: Seq<i64>, existing: Seq<i64>)
    ensures
        missing_of(ids, existing) == ids.filter(|id: i64| !existing.contains(id)),
    decreases ids.len(),
{
    reveal(Seq::filter);
    if ids.len() > 0 {
        missing_are_those_not_found(ids.drop_last(), existing);
    }
}

// ---------------------------------------------------------------------------
// Callers and failures
// ---------------------------------------------------------------------------

/// A caller sees a shelf as a manager, as one bound to every shelf, or as one
/// bound to it; a caller without a role is not signed in.
pub proof fn callers_see_their_shelves(current: CurrentUser, shelf_id: i64, role: Role)
    ensures
        current.is(role) <==> exists|i: int|
            0 <= i < current.roles@.len() && #[trigger] current.roles@[i] == role,
        current.has_some_role() <==> exists|r: Role| #[trigger] current.roles@.contains(r),
        current.roles@.contains(Role::Manager) || current.shelf_wildcard ==> current.sees_shelf(
            shelf_id,
        ),
        current.shelf_ids@.contains(shelf_id) ==> current.sees_shelf(shelf_id),
        current.sees_shelf(shelf_id) && !current.roles@.contains(Role::Manager)
            && !current.shelf_wildcard ==> current.shelf_ids@.contains(shelf_id),
{
    if current.has_some_role() {
        assert(current.roles@.contains(current.roles@[0]));
    }
}

/// An endpoint for managers refuses everyone else, as not allowed, and nobody
/// for that reason alone who is one.
pub proof fn managers_only_means_managers<A, T>(current: CurrentUser, n: Next<A, T>, done: bool)
    requires
        for_managers(current, n, done),
    ensures
        !current.roles@.contains(Role::Manager) ==> n.is_refused(ErrorCode::Forbidden),
        current.roles@.contains(Role::Manager) ==> done,
{
}

/// What an answer can be: something is asked for, or it ends well, or with an
/// error that has a code and a message.
pub proof fn answers_are_told_apart<A, T>(n: Next<A, T>, code: ErrorCode, message: Seq<char>)
    ensures
        n.fails(code, message) <==> (n matches Next::Done(Err(e)) && e.code == code && e.message@
            == message),
        n.is_refused(code) <==> (n matches Next::Done(Err(e)) && e.code == code),
        n.is_ok() <==> (n matches Next::Done(Ok(_))),
{
}

/// A failed write is known by the state that the database gave with it.
pub proof fn faults_are_known_by_their_state(fault: DbFault, state: Seq<char>)
    ensures
        fault.has_state(state) <==> fault.sqlstate is Some && fault.sqlstate->0@ == state,
{
}

/// The numbers that clients know: those of a caller's own doing, and those of
/// workers, shelves, pools, processes, work types and uploads.
pub proof fn codes_have_their_numbers()
    ensures
        number_of(ErrorCode::Forbidden) == Some(40300i32),
        number_of(ErrorCode::ValidationError) == Some(40001i32),
        number_of(ErrorCode::NotFound) == Some(40400i32),
        number_of(ErrorCode::VersionConflict) == Some(40901i32),
        number_of(ErrorCode::BizInvalidValue) == Some(20104i32),
        number_of(ErrorCode::BizPartBatchNotHeldByWorker) == Some(20114i32),
        number_of(ErrorCode::BizWorkerNotFound) == Some(20201i32),
        number_of(ErrorCode::BizWorkerInactive) == Some(20202i32),
        number_of(ErrorCode::BizWorkerInUse) == Some(20203i32),
        number_of(ErrorCode::BizWorkerHoldLimitExceeded) == Some(20204i32),
        number_of(ErrorCode::BizWorkerNoWorkType) == Some(20206i32),
        number_of(ErrorCode::BizShelfNotFound) == Some(20501i32),
        number_of(ErrorCode::BizShelfDuplicateCode) == Some(20502i32),
        number_of(ErrorCode::BizShelfInUse) == Some(20503i32),
        number_of(ErrorCode::BizShelfProcessProcessNotFound) == Some(20505i32),
        number_of(ErrorCode::BizWorkTypeMaxHeldMinutesNotSet) == Some(20703i32),
        number_of(ErrorCode::BizAutoAllocateInvalidRatio) == Some(20704i32),
        number_of(ErrorCode::BizProcessNotFound) == Some(20801i32),
        number_of(ErrorCode::BizWorkTypeNotFound) == Some(20901i32),
        number_of(ErrorCode::BizWorkTypeInUse) == Some(20903i32),
        number_of(ErrorCode::BizWorkTypeMaxHeldNotSet) == Some(20904i32),
        number_of(ErrorCode::BizWorkTypeNoProcessMapping) == Some(20905i32),
        number_of(ErrorCode::BizUploadSessionSizeMismatch) == Some(21107i32),
        number_of(ErrorCode::BizUploadSessionStsForwardFailed) == Some(21608i32),
{
}

// ---------------------------------------------------------------------------
// Days
// ---------------------------------------------------------------------------

/// February has a 29th day every fourth year, but in the last year of a century
/// only every fourth time.
pub proof fn leap_years_come_every_fourth_year(year: int)
    ensures
        year % 4 != 0 ==> !is_leap(year),
        year % 4 == 0 && year % 100 != 0 ==> is_leap(year),
        year % 100 == 0 ==> (is_leap(year) <==> year % 400 == 0),
        days_in_month(year, 2) == if is_leap(year) {
            29int
        } else {
            28int
        },
        forall|m: int|
            1 <= m <= 12 && m != 2 ==> #[trigger] days_in_month(year, m) == if m == 4 || m == 6 || m
                == 9 || m == 11 {
                30int
            } else {
                31int
            },
{
}

/// The day after a day comes after it, and no day comes in between.
pub proof fn the_next_day_is_the_very_next(d: Date, e: Date)
    requires
        d.wf(),
        d != (Date { year: LAST_YEAR, month: 12, day: 31 }),
        e.wf(),
        e.is_after(d),
    ensures
        d.next().wf(),
        d.next().is_after(d),
        e == d.next() || e.is_after(d.next()),
{
    lemma_next(d);
    days_are_in_the_order_of_their_numbers(d.next(), d);
    days_are_in_the_order_of_their_numbers(e, d);
    days_are_in_the_order_of_their_numbers(e, d.next());
}

/// Of two days one comes after the other, unless they are the same: first the
/// year decides, then the month, then the day.
pub proof fn days_are_in_order(a: Date, b: Date)
    ensures
        a.year != b.year ==> (a.is_after(b) <==> a.year > b.year),
        a.year == b.year && a.month != b.month ==> (a.is_after(b) <==> a.month > b.month),
        a.year == b.year && a.month == b.month ==> (a.is_after(b) <==> a.day > b.day),
        a.wf() ==> 1 <= a.month <= 12 && 1 <= a.day <= 31,
{
}

/// The text of a day in a year of four digits: ten characters, of which the
/// numbers of year, month and day can be read.
pub proof fn days_are_read_off_their_texts(d: Date)
    requires
        d.wf(),
        0 <= d.year <= 9999,
    ensures
        date_text(d).len() == 10,
        date_text(d)[4] == '-' && date_text(d)[7] == '-',
        digits_value(date_text(d).subrange(0, 4)) == d.year,
        digits_value(date_text(d).subrange(5, 7)) == d.month,
        digits_value(date_text(d).subrange(8, 10)) == d.day,
{
    let t = date_text(d);
    let y = t.subrange(0, 4);
    let m = t.subrange(5, 7);
    let k = t.subrange(8, 10);
    reveal_with_fuel(digits_value, 5);
    assert(y.len() == 4 && m.len() == 2 && k.len() == 2);
    assert(y.drop_last().len() == 3 && y.drop_last().drop_last().len() == 2);
    assert(digits_value(m) == d.month);
    assert(digits_value(k) == d.day);
    assert(digits_value(y) == d.year);
}

} // verus!
