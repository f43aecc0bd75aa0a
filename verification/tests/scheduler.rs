use amber::clock::local_today_and_hour;
use amber::summarizer::{ingest_interval_secs, ScheduleState};

#[test]
fn ninety_minute_ticks_fire_exactly_once_per_date() {
    // Ninety consecutive minute ticks on one date, crossing hour 22 once;
    // the hour keeps matching for 45 further ticks yet only one fires.
    let mut st = ScheduleState::new();
    let mut fires: u32 = 0;
    for minute in 0..90u32 {
        let hour = if minute < 45 { 21 } else { 22 };
        if st.clock_tick("2024-05-01", hour, 22) {
            fires += 1;
        }
    }
    assert_eq!(fires, 1);
    assert_eq!(st.last_daily_date, "2024-05-01");
}

#[test]
fn clock_trigger_fires_again_on_the_next_date() {
    let mut st = ScheduleState::new();
    assert!(st.clock_tick("2024-05-01", 22, 22));
    assert!(!st.clock_tick("2024-05-01", 22, 22));
    assert!(st.clock_tick("2024-05-02", 22, 22));
    assert!(!st.clock_tick("2024-05-02", 22, 22));
}

#[test]
fn clock_trigger_needs_matching_hour() {
    let mut st = ScheduleState::new();
    assert!(!st.clock_tick("2024-05-01", 21, 22));
    assert!(!st.clock_tick("2024-05-01", 23, 22));
    assert_eq!(st.last_daily_date, "");
    assert!(st.clock_tick("2024-05-01", 22, 22));
}

#[test]
fn ingest_interval_floors_at_one_minute() {
    assert_eq!(ingest_interval_secs(0), 60);
    assert_eq!(ingest_interval_secs(1), 60);
    assert_eq!(ingest_interval_secs(15), 900);
    assert_eq!(ingest_interval_secs(u32::MAX), (u32::MAX as u64) * 60);
}

#[test]
fn wall_clock_reports_hour_of_day() {
    let (today, hour) = local_today_and_hour();
    assert!(hour < 24);
    // A calendar date in %Y-%m-%d form has two separators.
    assert_eq!(today.matches('-').count(), 2);
}
