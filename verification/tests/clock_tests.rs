use massa_api::error::ApiError;
use massa_api::models::{ApiConfig, Slot};
use massa_api::timeslots::{
    first_slot_on_or_after, latest_slot_at_timestamp, next_slot, slot_cycle,
    time_range_to_slot_range,
};

fn cfg() -> ApiConfig {
    ApiConfig {
        thread_count: 2,
        t0: 1000,
        genesis_timestamp: 10_000,
        periods_per_cycle: 64,
        max_arguments: 128,
        draw_lookahead_period_count: 10,
    }
}

#[test]
fn latest_slot_before_genesis_is_none() {
    assert_eq!(latest_slot_at_timestamp(&cfg(), 9_999), None);
}

#[test]
fn latest_slot_at_genesis_is_zero() {
    assert_eq!(
        latest_slot_at_timestamp(&cfg(), 10_000),
        Some(Slot { period: 0, thread: 0 })
    );
}

#[test]
fn latest_slot_mid_period_picks_thread() {
    // one period lasts 1000 ms over 2 threads: thread steps every 500 ms
    assert_eq!(
        latest_slot_at_timestamp(&cfg(), 10_499),
        Some(Slot { period: 0, thread: 0 })
    );
    assert_eq!(
        latest_slot_at_timestamp(&cfg(), 10_500),
        Some(Slot { period: 0, thread: 1 })
    );
    assert_eq!(
        latest_slot_at_timestamp(&cfg(), 13_499),
        Some(Slot { period: 3, thread: 0 })
    );
}

#[test]
fn first_slot_rounds_up() {
    assert_eq!(
        first_slot_on_or_after(&cfg(), 9_000),
        Slot { period: 0, thread: 0 }
    );
    assert_eq!(
        first_slot_on_or_after(&cfg(), 10_000),
        Slot { period: 0, thread: 0 }
    );
    assert_eq!(
        first_slot_on_or_after(&cfg(), 10_001),
        Slot { period: 0, thread: 1 }
    );
    assert_eq!(
        first_slot_on_or_after(&cfg(), 10_500),
        Slot { period: 0, thread: 1 }
    );
    assert_eq!(
        first_slot_on_or_after(&cfg(), 10_501),
        Slot { period: 1, thread: 0 }
    );
}

#[test]
fn time_range_maps_both_bounds() {
    let (start, end) = time_range_to_slot_range(&cfg(), Some(10_000), Some(12_000));
    assert_eq!(start, Some(Slot { period: 0, thread: 0 }));
    assert_eq!(end, Some(Slot { period: 2, thread: 0 }));
    let (none_start, none_end) = time_range_to_slot_range(&cfg(), None, None);
    assert_eq!(none_start, None);
    assert_eq!(none_end, None);
}

#[test]
fn next_slot_steps_thread_then_period() {
    assert_eq!(
        next_slot(&cfg(), Slot { period: 0, thread: 0 }),
        Ok(Slot { period: 0, thread: 1 })
    );
    assert_eq!(
        next_slot(&cfg(), Slot { period: 0, thread: 1 }),
        Ok(Slot { period: 1, thread: 0 })
    );
}

#[test]
fn next_slot_overflows_at_period_limit() {
    let one_thread = ApiConfig {
        thread_count: 1,
        ..cfg()
    };
    assert_eq!(
        next_slot(
            &one_thread,
            Slot {
                period: u64::MAX,
                thread: 0
            }
        ),
        Err(ApiError::TimeOverflow)
    );
}

#[test]
fn cycle_is_period_over_cycle_length() {
    assert_eq!(slot_cycle(&cfg(), Slot { period: 130, thread: 1 }), 2);
    assert_eq!(slot_cycle(&cfg(), Slot { period: 63, thread: 0 }), 0);
}
