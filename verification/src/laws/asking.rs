//! Laws of what is asked for: dates and hours, passwords and keys, and what is
//! written when one comes or leaves.

use crate::calendar::time_pattern;
use crate::cli::{
    date_target, day_change, report_asked, today_write, ReportPlace, ReportRequest, TodayAction,
};
use crate::config::{
    base64_decoded, key_in, master_key_for, password_for, payslip_pattern, read_back_error,
    stored_in, stored_of, ConfigView, PasswordSource, StoredView,
};
use crate::date::{day_number, is_date, later_dates_have_greater_numbers, CalendarDate};
use crate::hr_core::{ErrorView, TargetView, WriteMode};
use crate::laws::texts::a_text_is_parted_at_the_first_mark;
use crate::provider::submit_of;
use crate::requests::{
    auto_fill_refusal, clock_in_view, clock_out_view, date_named, hours_asked, hours_range,
    mode_for, month_meant, month_named, only_target, or_default, range_asked, AutoFillParam,
};
use crate::use_cases::targets_on;
use vstd::prelude::*;

verus! {

// ---------------------------------------------------------------------------
// Coming and leaving
// ---------------------------------------------------------------------------

/// Who comes writes the time as the entry of a day of the usual kind, and
/// nothing else.
pub proof fn coming_writes_the_entry(date: CalendarDate, time: Seq<char>)
    ensures
        ({
            let change = clock_in_view(date, time);
            &&& change.date == date
            &&& change.entry_time == Some(time)
            &&& change.exit_time is None
            &&& change.use_default_attendance_type
            &&& change.attendance_type_code is None
            &&& change.comment is None
            &&& !change.clear_entry && !change.clear_exit && !change.clear_comment
        }),
{
}

/// Who leaves writes the time as the exit, and nothing else: the entry and the
/// kind of the day stay.
pub proof fn leaving_writes_the_exit(date: CalendarDate, time: Seq<char>)
    ensures
        ({
            let change = clock_out_view(date, time);
            &&& change.date == date
            &&& change.entry_time is None
            &&& change.exit_time == Some(time)
            &&& !change.use_default_attendance_type
            &&& change.attendance_type_code is None
            &&& change.comment is None
            &&& !change.clear_entry && !change.clear_exit && !change.clear_comment
        }),
{
}

/// The same is written of today from the command line; a kind can be named
/// where one comes, and takes the place of the usual one.
pub proof fn today_is_written_as_it_is_said(
    date: CalendarDate,
    time: Seq<char>,
    code: Option<Seq<char>>,
)
    ensures
        ({
            let comes = today_write(TodayAction::In, date, time, code);
            &&& comes.date == date && comes.entry_time == Some(time) && comes.exit_time is None
            &&& comes.attendance_type_code == code
            &&& comes.default_work_day <==> code is None
            &&& comes.comment is None
            &&& !comes.clear_entry && !comes.clear_exit && !comes.clear_comment
        }),
        ({
            let leaves = today_write(TodayAction::Out, date, time, code);
            &&& leaves.date == date && leaves.entry_time is None && leaves.exit_time == Some(time)
            &&& leaves.attendance_type_code is None && !leaves.default_work_day
            &&& leaves.comment is None
            &&& !leaves.clear_entry && !leaves.clear_exit && !leaves.clear_comment
        }),
        today_write(TodayAction::In, date, time, None) == submit_of(clock_in_view(date, time)),
        today_write(TodayAction::Out, date, time, code) == submit_of(clock_out_view(date, time)),
{
}

/// A day is reported with the kind and the hours that are given: the first
/// hour as the entry, the second as the exit; hours alone take the usual kind.
pub proof fn a_day_is_reported_as_given(
    date: CalendarDate,
    code: Option<Seq<char>>,
    hours: Option<(Seq<char>, Seq<char>)>,
)
    ensures
        ({
            let change = day_change(date, code, hours);
            &&& change.date == date
            &&& change.attendance_type_code == code
            &&& (hours matches Some(range) ==> change.entry_time == Some(range.0)
                && change.exit_time == Some(range.1))
            &&& (hours is None ==> change.entry_time is None && change.exit_time is None)
            &&& (change.use_default_attendance_type <==> code is None && hours is Some)
            &&& change.comment is None
            &&& !change.clear_entry && !change.clear_exit && !change.clear_comment
        }),
{
}

// ---------------------------------------------------------------------------
// Dates and hours
// ---------------------------------------------------------------------------

/// Hours are the two times on either side of the first dash, in their order;
/// without a dash, or where one side is no time, they are refused.
pub proof fn hours_are_two_times(text: Seq<char>)
    ensures
        hours_range(text) matches Some(range) ==> range.0 + seq!['-'] + range.1 == text
            && !range.0.contains('-') && time_pattern(range.0) && time_pattern(range.1),
        !text.contains('-') ==> hours_range(text) is None,
        hours_asked(None) == Ok::<Option<(Seq<char>, Seq<char>)>, ErrorView>(None),
        hours_asked(Some(text)) is Ok <==> hours_range(text) is Some,
        hours_asked(Some(text)) matches Ok(hours) ==> hours == hours_range(text),
        hours_asked(Some(text)) matches Err(error) ==> error.code == "invalid_hours"@
            && !error.retryable,
{
    a_text_is_parted_at_the_first_mark(text, '-');
    if let Some(parts) = crate::text::split_once(text, '-') {
        assert((parts.0 + seq!['-'] + parts.1)[parts.0.len() as int] == '-');
    }
}

/// Two times with a dash between them are hours, where no dash is in the first.
pub proof fn two_times_are_hours(from: Seq<char>, to: Seq<char>)
    requires
        time_pattern(from),
        time_pattern(to),
        !from.contains('-'),
    ensures
        hours_range(from + seq!['-'] + to) == Some((from, to)),
{
    let text = from + seq!['-'] + to;
    a_text_is_parted_at_the_first_mark(text, '-');
    assert(text[from.len() as int] == '-');
    match crate::text::split_once(text, '-') {
        Some(parts) => {
            let at = parts.0.len() as int;
            let back = parts.0 + seq!['-'] + parts.1;
            assert(back[at] == '-');
            if at < from.len() {
                assert(text[at] == from[at]);
                assert(from.contains('-'));
            }
            if at > from.len() {
                assert(back[from.len() as int] == parts.0[from.len() as int]);
                assert(parts.0.contains('-'));
            }
            assert(parts.0 == from) by {
                assert forall|i: int| 0 <= i < at implies parts.0[i] == from[i] by {
                    assert(back[i] == parts.0[i] && text[i] == from[i]);
                }
            }
            assert(parts.1 == to) by {
                assert forall|i: int| 0 <= i < to.len() implies parts.1[i] == to[i] by {
                    assert(back[at + 1 + i] == parts.1[i]);
                    assert(text[at + 1 + i] == to[i]);
                }
            }
        },
        None => {
            assert(text.contains('-'));
        },
    }
}

/// A month that is asked for is that of the text; without a text it is the one
/// that is meant otherwise.
pub proof fn a_month_is_the_one_named(value: Option<Seq<char>>, otherwise: CalendarDate)
    ensures
        value is None ==> month_meant(value, otherwise) == Ok::<CalendarDate, ErrorView>(otherwise),
        value matches Some(text) ==> match crate::date::parsed_date(text + "-01"@, "%Y-%m-%d"@) {
            Ok(month) => month_meant(value, otherwise) == Ok::<CalendarDate, ErrorView>(month),
            Err(_) => month_meant(value, otherwise) matches Err(error) && error.code
                == "invalid_month"@ && !error.retryable,
        },
{
}

/// A range of dates is asked for by its first and its last day, in this order,
/// and is refused where it ends before it starts.
pub proof fn a_range_is_asked_for_in_order(from: Seq<char>, to: Seq<char>)
    requires
        date_named(from) matches Ok(date) ==> is_date(date),
        date_named(to) matches Ok(date) ==> is_date(date),
    ensures
        range_asked(from, to) matches Ok(range) ==> date_named(from) == Ok::<
            CalendarDate,
            Seq<char>,
        >(range.0) && date_named(to) == Ok::<CalendarDate, Seq<char>>(range.1) && day_number(
            range.0,
        ) <= day_number(range.1),
        date_named(from) matches Ok(first) ==> (date_named(to) matches Ok(last) ==> (day_number(
            first,
        ) > day_number(last) ==> (range_asked(from, to) matches Err(error) && error.code
            == "invalid_fill_range"@))),
        date_named(from) matches Ok(first) ==> (date_named(to) matches Ok(last) ==> (day_number(
            first,
        ) <= day_number(last) ==> range_asked(from, to) is Ok)),
        date_named(from) is Err || date_named(to) is Err ==> (range_asked(from, to) matches Err(
            error,
        ) && error.code == "invalid_date"@),
{
    if let (Ok(first), Ok(last)) = (date_named(from), date_named(to)) {
        if first != last {
            later_dates_have_greater_numbers(first, last);
            later_dates_have_greater_numbers(last, first);
        }
    }
}

/// A write is carried out only where that is asked for.
pub proof fn a_write_is_shown_unless_asked_for(execute: bool)
    ensures
        mode_for(execute) == WriteMode::Execute <==> execute,
        mode_for(execute) == WriteMode::DryRun <==> !execute,
{
}

/// How many targets are of a date.
pub open spec fn count_on(targets: Seq<TargetView>, date: CalendarDate) -> nat {
    targets.filter(|target: TargetView| target.date == date).len()
}

proof fn found_are_those_of_the_date(targets: Seq<TargetView>, date: CalendarDate)
    ensures
        targets_on(targets, date) == targets.filter(|target: TargetView| target.date == date),
    decreases targets.len(),
{
    reveal(Seq::filter);
    if targets.len() > 0 {
        found_are_those_of_the_date(targets.drop_last(), date);
    }
}

/// A date gives a target only where it has exactly one, which is then one of
/// the list and of that date.
pub proof fn only_one_target_is_given(targets: Seq<TargetView>, date: CalendarDate)
    ensures
        only_target(targets, date) is Ok <==> count_on(targets, date) == 1,
        date_target(targets, date) is Ok <==> count_on(targets, date) == 1,
        only_target(targets, date) matches Ok(target) ==> targets.contains(target) && target.date
            == date,
        date_target(targets, date) matches Ok(target) ==> targets.contains(target) && target.date
            == date,
        count_on(targets, date) == 0 ==> (only_target(targets, date) matches Err(error)
            && error.code == "fix_target_not_found"@),
        count_on(targets, date) > 1 ==> (only_target(targets, date) matches Err(error)
            && error.code == "multiple_fix_targets"@),
{
    found_are_those_of_the_date(targets, date);
    let wanted = |target: TargetView| target.date == date;
    let found = targets.filter(wanted);
    if found.len() > 0 {
        assert(found.contains(found[0]));
        targets.lemma_filter_contains_rev(wanted, found[0]);
        assert(wanted(found[0])) by {
            broadcast use vstd::seq_lib::group_filter_ensures;
        }
    }
}

/// A report that is asked for by name is that of the name; the others stand
/// where they always do.
pub proof fn a_report_is_the_one_asked_for(request: ReportRequest)
    ensures
        request matches ReportRequest::Named(name) ==> report_asked(request) == (
            "named"@,
            name@,
            ReportPlace::Named(name@),
        ),
        request is Sheet ==> report_asked(request).2 == ReportPlace::Path(
            "/Hilannetv2/Attendance/HoursAnalysis.aspx"@,
        ),
        request is Corrections ==> report_asked(request).2 == ReportPlace::Path(
            "/Hilannetv2/Attendance/HoursReportLog.aspx"@,
        ),
{
}

// ---------------------------------------------------------------------------
// Passwords and keys
// ---------------------------------------------------------------------------

/// The password of the environment counts before that of the keychain, and
/// that before the one of the settings; an empty one of the environment does
/// not count, and a keychain that cannot be read is an error.
pub proof fn the_environment_counts_first(
    config: ConfigView,
    env: Option<Seq<char>>,
    stored: Result<Option<StoredView>, Seq<char>>,
)
    ensures
        ({
            let found = password_for(config, env, stored);
            let unset = env is None || env->Some_0.len() == 0;
            &&& (!unset ==> found == Ok::<(Seq<char>, PasswordSource), Seq<char>>(
                (env->Some_0, PasswordSource::Environment),
            ))
            &&& (unset ==> (stored matches Ok(Some(held)) ==> found == Ok::<
                (Seq<char>, PasswordSource),
                Seq<char>,
            >((held.password, PasswordSource::Keychain))))
            &&& (unset && stored == Ok::<Option<StoredView>, Seq<char>>(None) ==> (
            config.password matches Some(password) ==> found == Ok::<
                (Seq<char>, PasswordSource),
                Seq<char>,
            >((password, PasswordSource::Settings))))
            &&& (unset && stored == Ok::<Option<StoredView>, Seq<char>>(None)
                && config.password is None ==> found is Err)
            &&& (unset ==> (stored matches Err(message) ==> found == Err::<
                (Seq<char>, PasswordSource),
                Seq<char>,
            >(message)))
        }),
{
}

/// The key of the environment counts before that of the keychain.
pub proof fn the_key_of_the_environment_counts_first(
    env: Option<Seq<char>>,
    stored: Result<Option<StoredView>, Seq<char>>,
)
    ensures
        ({
            let found = master_key_for(env, stored);
            let unset = env is None || env->Some_0.len() == 0;
            &&& (!unset ==> found == key_in(env->Some_0))
            &&& (unset ==> (stored matches Ok(Some(held)) ==> (held.v == 1 ==> found == key_in(
                held.local_master_key,
            ))))
            &&& (unset ==> (stored matches Ok(Some(held)) ==> (held.v != 1 ==> found is Err)))
            &&& (unset && stored == Ok::<Option<StoredView>, Seq<char>>(None) ==> found is Err)
            &&& (unset && stored is Err ==> found is Err)
        }),
{
}

/// A key has 32 bytes, and is the one that its text stands for.
pub proof fn a_key_has_its_length(encoded: Seq<char>)
    ensures
        key_in(encoded) matches Ok(key) ==> key.len() == 32
            && base64_decoded(encoded) == Some(key),
        (base64_decoded(encoded) matches Some(bytes) && bytes.len() == 32)
            ==> key_in(encoded) is Ok,
{
}

/// What the keychain holds is taken only in the version that is known.
pub proof fn a_record_is_of_the_known_version(raw: Seq<char>)
    ensures
        stored_in(raw) matches Ok(held) ==> held.v == 1 && stored_of(raw) == Some(held),
        (stored_of(raw) matches Some(held) && held.v != 1) ==> stored_in(raw) is Err,
{
}

/// A record counts as written just where it is read back as it was written.
pub proof fn a_record_is_read_back_as_written(
    written: StoredView,
    read: Result<Option<StoredView>, Seq<char>>,
)
    ensures
        read_back_error(written, read) is None <==> read == Ok::<Option<StoredView>, Seq<char>>(
            Some(written),
        ),
{
}

/// A payslip is named after the pattern of the settings, or after its month.
pub proof fn a_payslip_is_named_after_the_pattern(config: ConfigView)
    ensures
        config.payslip_format matches Some(pattern) ==> payslip_pattern(config) == pattern,
        config.payslip_format is None ==> payslip_pattern(config) == "%Y-%m.pdf"@,
{
}

/// A value that is left out stands for what it stands for otherwise.
pub proof fn what_is_left_out_has_its_default(value: Option<u32>, otherwise: u32)
    ensures
        value matches Some(given) ==> or_default(value, otherwise) == given,
        value is None ==> or_default(value, otherwise) == otherwise,
{
}

/// A month is filled only where a kind or hours are asked for, the hours are
/// two times and the month is one.
pub proof fn a_month_is_filled_only_with_something(param: AutoFillParam, today: CalendarDate)
    ensures
        param.attendance_type is None && param.hours is None ==> auto_fill_refusal(param, today)
            is Some,
        (param.hours matches Some(hours) && hours_range(hours@) is None) ==> auto_fill_refusal(
            param,
            today,
        ) is Some,
        (param.month matches Some(month) && month_named(month@) is Err) ==> auto_fill_refusal(
            param,
            today,
        ) is Some,
        param.attendance_type is Some && param.hours is None && param.month is None
            ==> auto_fill_refusal(param, today) is None,
        (param.hours matches Some(hours) && hours_range(hours@) is Some) && param.month is None
            ==> auto_fill_refusal(param, today) is None,
{
}

} // verus!
