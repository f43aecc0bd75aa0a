//! The scheduler's decision logic and the summarization workflow:
//! read a day's staged events, obtain note text from the provider, write
//! the note, and only then clear the staging log.
use vstd::prelude::*;

pub mod daily;
pub mod provider;

use crate::clock::local_today_and_hour;
use crate::error::AmberError;
use crate::storage::{NoteStore, StagingLog};
use crate::strutil::str_eq;
use crate::summarizer::daily::DailySummarizer;
use crate::summarizer::provider::LlmProvider;

verus! {

/// Does a clock check fire the daily workflow? Only when the current hour
/// is the configured target and the day has not fired yet.
pub open spec fn spec_tick_fires(last: Seq<char>, today: Seq<char>, hour: u32, target: u32) -> bool {
    hour == target && last != today
}

/// The dedup state after a clock check: the date is recorded exactly when
/// the check fired.
pub open spec fn spec_tick_next(last: Seq<char>, today: Seq<char>, hour: u32, target: u32) -> Seq<
    char,
> {
    if spec_tick_fires(last, today, hour, target) {
        today
    } else {
        last
    }
}

/// How many of the clock checks `i..` fire, threading the dedup state
/// through the run; each check is a `(date, hour)` pair.
pub open spec fn count_clock_fires(
    last: Seq<char>,
    ticks: Seq<(Seq<char>, u32)>,
    target: u32,
    i: int,
) -> int
    decreases ticks.len() - i,
{
    if i < 0 || i >= ticks.len() {
        0
    } else {
        (if spec_tick_fires(last, ticks[i].0, ticks[i].1, target) {
            1int
        } else {
            0int
        }) + count_clock_fires(
            spec_tick_next(last, ticks[i].0, ticks[i].1, target),
            ticks,
            target,
            i + 1,
        )
    }
}

proof fn lemma_dedup_from(
    last: Seq<char>,
    ticks: Seq<(Seq<char>, u32)>,
    target: u32,
    d: Seq<char>,
    i: int,
)
    requires
        0 <= i <= ticks.len(),
        forall|j: int| 0 <= j < ticks.len() ==> (#[trigger] ticks[j]).0 == d,
    ensures
        last == d ==> count_clock_fires(last, ticks, target, i) == 0,
        last != d ==> count_clock_fires(last, ticks, target, i) == (if (exists|j: int|
            i <= j < ticks.len() && (#[trigger] ticks[j]).1 == target) {
            1int
        } else {
            0int
        }),
    decreases ticks.len() - i,
{
    if i < ticks.len() {
        let next = spec_tick_next(last, ticks[i].0, ticks[i].1, target);
        lemma_dedup_from(next, ticks, target, d, i + 1);
        if last != d && ticks[i].1 == target {
            assert(ticks[i].1 == target);
        }
    }
}

/// Daily dedup law: over any run of clock checks that all fall on one
/// date — for instance ninety consecutive minute ticks — starting from
/// dedup state not yet on that date, the workflow fires exactly once if
/// some check's hour matches the target, and otherwise not at all; it
/// never fires twice, however long the hour keeps matching.
pub proof fn lemma_daily_dedup(
    last: Seq<char>,
    ticks: Seq<(Seq<char>, u32)>,
    target: u32,
    d: Seq<char>,
)
    requires
        forall|j: int| 0 <= j < ticks.len() ==> (#[trigger] ticks[j]).0 == d,
        last != d,
    ensures
        count_clock_fires(last, ticks, target, 0) == (if (exists|j: int|
            0 <= j < ticks.len() && (#[trigger] ticks[j]).1 == target) {
            1int
        } else {
            0int
        }),
{
    lemma_dedup_from(last, ticks, target, d, 0);
}

/// Process-lifetime scheduler state: the last date for which the
/// clock-based trigger fired.
pub struct ScheduleState {
    pub last_daily_date: String,
}

impl ScheduleState {
    /// Fresh state: no date has fired yet.
    pub fn new() -> (r: Self)
        ensures
            r.last_daily_date@ == Seq::<char>::empty(),
    {
        ScheduleState { last_daily_date: String::new() }
    }

    /// One clock check against the local date and hour: reports whether
    /// the daily workflow must run now, and records the date first, so a
    /// slow or failing run cannot re-trigger within the same date.
    pub fn clock_tick(&mut self, today: &str, hour: u32, target_hour: u32) -> (fire: bool)
        ensures
            fire == spec_tick_fires(old(self).last_daily_date@, today@, hour, target_hour),
            final(self).last_daily_date@ == spec_tick_next(
                old(self).last_daily_date@,
                today@,
                hour,
                target_hour,
            ),
    {
        if hour == target_hour && !str_eq(self.last_daily_date.as_str(), today) {
            self.last_daily_date = today.to_owned();
            true
        } else {
            false
        }
    }

}

/// One clock check against the wall clock itself: reads the local date
/// and hour and applies the dedup rule. Whatever moment the clock
/// reports, a returned date is one the check fired for at some hour below
/// 24 matching the target, recorded in the state before returning; when
/// nothing fires the state is unchanged.
pub fn clock_check_now(state: &mut ScheduleState, target_hour: u32) -> (r: Option<String>)
    ensures
        match r {
            Some(today) => final(state).last_daily_date@ == today@ && (exists|h: u32|
                h < 24 && spec_tick_fires(old(state).last_daily_date@, today@, h, target_hour)),
            None => final(state).last_daily_date@ == old(state).last_daily_date@,
        },
{
    let (today, hour) = local_today_and_hour();
    if state.clock_tick(today.as_str(), hour, target_hour) {
        proof {
            assert(hour < 24 && spec_tick_fires(
                old(state).last_daily_date@,
                today@,
                hour,
                target_hour,
            ));
        }
        Some(today)
    } else {
        None
    }
}

/// The ingest-tick period in seconds: the configured minutes, floored at
/// one minute.
pub fn ingest_interval_secs(ingest_minutes: u32) -> (r: u64)
    ensures
        r == 60 * (if ingest_minutes < 1 {
            1u64
        } else {
            ingest_minutes as u64
        }),
{
    let m: u64 = if ingest_minutes < 1 {
        1
    } else {
        ingest_minutes as u64
    };
    m * 60
}

/// Persists a finished summary: writes the note text for the date, then —
/// and only then — clears the date's staging log. Every other date's
/// staging and notes stay untouched.
pub fn apply_summary(date: &str, text: &str, staging: &mut StagingLog, notes: &mut NoteStore)
    requires
        old(staging).wf(),
        old(notes).wf(),
    ensures
        final(staging).wf(),
        final(notes).wf(),
        final(notes).note_for(date@) == Some(text@),
        !final(staging).has_day(date@),
        final(staging).entries_for(date@) == Seq::<Seq<char>>::empty(),
        forall|d2: Seq<char>|
            d2 != date@ ==> final(staging).entries_for(d2) == old(staging).entries_for(d2)
                && final(staging).has_day(d2) == old(staging).has_day(d2)
                && final(notes).note_for(d2) == old(notes).note_for(d2),
{
    notes.write_note(date, text);
    staging.clear(date);
}

/// The summarization workflow for one date. With nothing staged it
/// succeeds and changes nothing (nothing to summarize is not an error).
/// Otherwise it renders the conversation, asks the provider, and on
/// success writes the note and clears the date's staging; on provider
/// failure everything is left exactly as it was, safe to retry.
pub fn summarize_day<P: LlmProvider>(
    date: &str,
    staging: &mut StagingLog,
    notes: &mut NoteStore,
    provider: &P,
) -> (r: Result<(), AmberError>)
    requires
        old(staging).wf(),
        old(notes).wf(),
    ensures
        final(staging).wf(),
        final(notes).wf(),
        old(staging).entries_for(date@).len() == 0 ==> r is Ok && *final(staging) == *old(staging)
            && *final(notes) == *old(notes),
        (old(staging).entries_for(date@).len() > 0 && r is Ok) ==> final(notes).note_for(date@)
            is Some && !final(staging).has_day(date@) && final(staging).entries_for(date@)
            == Seq::<Seq<char>>::empty(),
        r is Err ==> *final(staging) == *old(staging) && *final(notes) == *old(notes),
        forall|d2: Seq<char>|
            d2 != date@ ==> final(staging).entries_for(d2) == old(staging).entries_for(d2)
                && final(staging).has_day(d2) == old(staging).has_day(d2)
                && final(notes).note_for(d2) == old(notes).note_for(d2),
{
    let events = staging.read(date);
    if events.is_empty() {
        return Ok(());
    }
    match DailySummarizer::generate(date, events, provider) {
        Ok(text) => {
            apply_summary(date, text.as_str(), staging, notes);
            Ok(())
        },
        Err(e) => Err(e),
    }
}

} // verus!
