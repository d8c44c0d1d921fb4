use lumina_engine::engine_core::temporal::scale_elapsed;
use lumina_engine::engine_core::temporal::AdvancedTime;
use lumina_engine::engine_core::temporal::MixedRadixTime;
use lumina_engine::engine_core::temporal::TemporalEvent;

fn time(frame_count: u64, ticks: u64, sub_ticks: u32, milliseconds: u32) -> MixedRadixTime {
    MixedRadixTime { frame_count, ticks, sub_ticks, milliseconds }
}

fn ids(fired: &Vec<TemporalEvent<&'static str>>) -> Vec<u64> {
    fired.iter().map(|event| event.id).collect()
}

/// A clock with radices 10 and 10 whose baseline is wall-clock reading 1000.
fn started() -> AdvancedTime<&'static str> {
    let mut clock = AdvancedTime::new(10, 10);
    assert!(clock.update(1_000).is_empty());
    clock
}

#[test]
fn a_new_clock_stands_at_zero() {
    let clock: AdvancedTime<&'static str> = AdvancedTime::new(10, 10);
    assert_eq!(clock.current_time(), time(0, 0, 0, 0));
    assert_eq!(clock.get_delta_time(), 0);
    assert_eq!(clock.time_scale(), 1_000_000);
    assert!(!clock.is_paused());
    assert_eq!(clock.pending_events(), 0);
}

#[test]
fn the_first_update_only_records_the_baseline() {
    let mut clock: AdvancedTime<&'static str> = AdvancedTime::new(10, 10);
    clock.schedule_event(time(0, 0, 0, 0), "now");
    let fired = clock.update(5_000_000);
    assert!(fired.is_empty());
    assert_eq!(clock.current_time(), time(0, 0, 0, 0));
    assert_eq!(clock.get_delta_time(), 0);
    assert_eq!(clock.pending_events(), 1);
    let fired = clock.update(5_025_000);
    assert_eq!(ids(&fired), vec![0]);
    assert_eq!(clock.current_time(), time(1, 0, 2, 5));
    assert_eq!(clock.get_delta_time(), 25);
}

#[test]
fn update_measures_from_the_last_update() {
    let mut clock = started();
    clock.update(26_000);
    assert_eq!(clock.get_delta_time(), 25);
    assert_eq!(clock.current_time(), time(1, 0, 2, 5));
    clock.update(126_000);
    assert_eq!(clock.get_delta_time(), 100);
    assert_eq!(clock.current_time(), time(2, 1, 2, 5));
}

#[test]
fn update_rounds_the_delta_down_to_whole_milliseconds() {
    let mut clock = started();
    clock.update(1_999);
    assert_eq!(clock.get_delta_time(), 0);
    assert_eq!(clock.current_time(), time(1, 0, 0, 0));
    clock.update(4_998);
    assert_eq!(clock.get_delta_time(), 2);
}

#[test]
fn a_reading_before_the_baseline_counts_as_no_time() {
    let mut clock = started();
    clock.update(500);
    assert_eq!(clock.get_delta_time(), 0);
    assert_eq!(clock.current_time(), time(1, 0, 0, 0));
    clock.update(3_500);
    assert_eq!(clock.get_delta_time(), 3);
}

#[test]
fn an_event_fires_on_the_update_that_reaches_its_time() {
    let mut clock = started();
    let id = clock.schedule_event(time(0, 0, 0, 5), "five");
    assert_eq!(id, 0);
    let fired = clock.update(6_000);
    assert_eq!(clock.get_delta_time(), 5);
    assert_eq!(fired.len(), 1);
    assert_eq!(fired[0].id, 0);
    assert_eq!(fired[0].payload, "five");
    assert_eq!(fired[0].time, time(0, 0, 0, 5));
    assert_eq!(clock.pending_events(), 0);
}

#[test]
fn an_event_does_not_fire_before_its_time() {
    let mut clock = started();
    clock.schedule_event(time(2, 0, 0, 5), "later");
    assert!(clock.update(2_000).is_empty());
    assert_eq!(clock.current_time(), time(1, 0, 0, 1));
    assert!(clock.update(5_000).is_empty());
    assert_eq!(clock.current_time(), time(2, 0, 0, 4));
    assert_eq!(clock.pending_events(), 1);
    let fired = clock.update(5_500);
    assert_eq!(clock.current_time(), time(3, 0, 0, 4));
    assert_eq!(ids(&fired), vec![0]);
}

#[test]
fn an_event_fires_when_the_frame_matches_and_the_time_is_reached() {
    let mut clock = started();
    clock.schedule_event(time(2, 0, 0, 5), "later");
    assert!(clock.update(2_000).is_empty());
    let fired = clock.update(6_000);
    assert_eq!(clock.current_time(), time(2, 0, 0, 5));
    assert_eq!(ids(&fired), vec![0]);
}

#[test]
fn an_event_fires_once() {
    let mut clock = started();
    clock.schedule_event(time(0, 0, 0, 5), "five");
    assert_eq!(clock.update(6_000).len(), 1);
    assert!(clock.update(7_000).is_empty());
    assert!(clock.update(1_000_000).is_empty());
    assert!(clock.process_events().is_empty());
}

#[test]
fn events_of_one_time_fire_in_the_order_of_scheduling() {
    let mut clock = started();
    let first = clock.schedule_event(time(1, 0, 0, 0), "a");
    let second = clock.schedule_event(time(1, 0, 0, 0), "b");
    let third = clock.schedule_event(time(1, 0, 0, 0), "c");
    assert_eq!((first, second, third), (0, 1, 2));
    let fired = clock.update(2_000);
    assert_eq!(ids(&fired), vec![0, 1, 2]);
    let payloads: Vec<&str> = fired.iter().map(|event| event.payload).collect();
    assert_eq!(payloads, vec!["a", "b", "c"]);
}

#[test]
fn events_fire_by_time_before_number() {
    let mut clock = started();
    clock.schedule_event(time(1, 0, 3, 0), "late");
    clock.schedule_event(time(1, 0, 1, 0), "early");
    clock.schedule_event(time(1, 0, 2, 0), "middle");
    clock.schedule_event(time(1, 0, 1, 0), "early too");
    let fired = clock.update(51_000);
    assert_eq!(ids(&fired), vec![1, 3, 2, 0]);
}

#[test]
fn only_the_due_events_leave_the_queue() {
    let mut clock = started();
    clock.schedule_event(time(1, 0, 3, 0), "late");
    clock.schedule_event(time(1, 0, 1, 0), "early");
    let fired = clock.update(11_000);
    assert_eq!(ids(&fired), vec![1]);
    assert_eq!(clock.pending_events(), 1);
    let fired = clock.update(12_000);
    assert_eq!(ids(&fired), vec![0]);
    assert_eq!(clock.pending_events(), 0);
}

#[test]
fn the_target_time_is_carried() {
    let mut clock = started();
    clock.update(88_000);
    assert_eq!(clock.current_time(), time(1, 0, 8, 7));
    clock.schedule_event(time(1, 0, 0, 5), "carried");
    let fired = clock.update(88_000);
    assert_eq!(clock.current_time(), time(2, 0, 8, 7));
    assert!(fired.is_empty());
    assert_eq!(clock.process_events().len(), 0);
    let fired = clock.update(93_000);
    assert_eq!(clock.current_time(), time(3, 0, 9, 2));
    assert_eq!(fired.len(), 1);
    assert_eq!(fired[0].time, time(2, 0, 9, 2));
}

#[test]
fn process_events_takes_what_is_due_now() {
    let mut clock: AdvancedTime<&'static str> = AdvancedTime::new(10, 10);
    clock.schedule_event(time(0, 0, 0, 0), "now");
    clock.schedule_event(time(0, 0, 0, 1), "soon");
    let fired = clock.process_events();
    assert_eq!(ids(&fired), vec![0]);
    assert_eq!(clock.pending_events(), 1);
}

#[test]
fn a_negative_time_scale_is_zero() {
    let mut negative = started();
    negative.set_time_scale(-3);
    let mut zero = started();
    zero.set_time_scale(0);
    assert_eq!(negative.time_scale(), 0);
    assert_eq!(zero.time_scale(), 0);
    negative.update(5_000_000);
    zero.update(5_000_000);
    assert_eq!(negative.get_delta_time(), 0);
    assert_eq!(zero.get_delta_time(), 0);
    assert_eq!(negative.current_time(), time(1, 0, 0, 0));
    assert_eq!(negative.current_time(), zero.current_time());
}

#[test]
fn the_time_scale_scales_the_delta() {
    let mut clock = started();
    clock.set_time_scale(2_000_000);
    clock.update(11_000);
    assert_eq!(clock.get_delta_time(), 20);
    clock.set_time_scale(500_000);
    clock.update(22_000);
    assert_eq!(clock.get_delta_time(), 5);
    clock.set_time_scale(1_000);
    clock.update(1_022_000);
    assert_eq!(clock.get_delta_time(), 1);
    clock.set_time_scale(1);
    clock.update(2_001_022_000);
    assert_eq!(clock.get_delta_time(), 2);
}

#[test]
fn scale_elapsed_is_the_scaled_time_in_whole_milliseconds() {
    assert_eq!(scale_elapsed(5_000, 1_000_000), 5);
    assert_eq!(scale_elapsed(5_999, 1_000_000), 5);
    assert_eq!(scale_elapsed(16_670, 1_500_000), 25);
    assert_eq!(scale_elapsed(16_000, 100), 0);
    assert_eq!(scale_elapsed(10_000_000, 100), 1);
    assert_eq!(scale_elapsed(0, 1_000_000), 0);
    assert_eq!(scale_elapsed(123_456, 0), 0);
}

#[test]
fn scale_elapsed_stops_at_the_largest_delta() {
    assert_eq!(scale_elapsed(4_294_967_295_000, 1_000_000), u32::MAX);
    assert_eq!(scale_elapsed(4_294_967_294_999, 1_000_000), u32::MAX - 1);
    assert_eq!(scale_elapsed(u64::MAX, u64::MAX), u32::MAX);
}

#[test]
fn a_paused_clock_keeps_its_time() {
    let mut clock = started();
    clock.update(26_000);
    clock.schedule_event(time(0, 0, 0, 0), "due");
    clock.pause();
    assert!(clock.is_paused());
    assert!(clock.update(9_000_000).is_empty());
    assert_eq!(clock.current_time(), time(1, 0, 2, 5));
    assert_eq!(clock.get_delta_time(), 25);
    assert_eq!(clock.pending_events(), 1);
}

#[test]
fn the_time_spent_paused_is_not_counted() {
    let mut clock = started();
    clock.update(11_000);
    clock.pause();
    clock.update(500_000);
    clock.resume(900_000);
    assert!(!clock.is_paused());
    clock.update(907_000);
    assert_eq!(clock.get_delta_time(), 7);
    assert_eq!(clock.current_time(), time(2, 0, 1, 7));
}

#[test]
fn resume_gives_a_fresh_clock_its_baseline() {
    let mut clock: AdvancedTime<&'static str> = AdvancedTime::new(10, 10);
    clock.resume(1_000);
    clock.update(4_000);
    assert_eq!(clock.get_delta_time(), 3);
    assert_eq!(clock.current_time(), time(1, 0, 0, 3));
}

#[test]
fn the_interpolation_factor_is_the_blended_fraction() {
    let mut clock = started();
    assert_eq!(clock.get_interpolation_factor(), (0, 100));
    clock.update(38_000);
    assert_eq!(clock.current_time(), time(1, 0, 3, 7));
    assert_eq!(clock.get_interpolation_factor(), (37, 100));
    let (numerator, denominator) = clock.get_interpolation_factor();
    let factor = numerator as f32 / denominator as f32;
    assert!((factor - (3.0 / 10.0 + 7.0 / 100.0)).abs() < 1e-6);
}

#[test]
fn can_update_and_can_schedule_tell_the_limits() {
    let mut clock = started();
    assert!(clock.can_update(2_000));
    assert!(clock.can_schedule(&time(5, 5, 5, 5)));
    assert!(clock.can_schedule(&time(u64::MAX, 0, 0, 0)));
    clock.update(2_000);
    assert!(!clock.can_schedule(&time(u64::MAX, 0, 0, 0)));
    assert!(clock.can_schedule(&time(u64::MAX - 1, 0, 0, 0)));
    assert!(!clock.can_schedule(&time(0, u64::MAX, 9, 9)));
}
