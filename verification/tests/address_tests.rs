use massa_api::addresses::{
    assemble_address_infos, collect_fanout, draw_window_end, union_operation_ids, AddressDraws,
    AddressParts, AddressState, LedgerInfo, ProductionStats, RollsInfo,
};
use massa_api::error::{ApiError, Subsystem};
use massa_api::models::{Address, ApiConfig, BlockId, OperationId, Slot};

fn cfg() -> ApiConfig {
    ApiConfig {
        thread_count: 2,
        t0: 1000,
        genesis_timestamp: 10_000,
        periods_per_cycle: 64,
        max_arguments: 128,
        draw_lookahead_period_count: 10,
    }
}

fn parts_for(a: Address) -> AddressParts {
    AddressParts {
        address: a,
        blocks_created: vec![BlockId(1)],
        involved_in_operations: vec![OperationId(2)],
        involved_in_endorsements: vec![],
        final_balance: Some(50),
        candidate_balance: None,
        final_datastore_keys: vec![vec![1, 2]],
        candidate_datastore_keys: vec![],
    }
}

fn state() -> AddressState {
    AddressState {
        ledger_info: LedgerInfo {
            final_balance: 50,
            candidate_balance: 60,
            locked_balance: 0,
        },
        rolls: RollsInfo {
            active_rolls: 3,
            final_rolls: 2,
            candidate_rolls: 4,
        },
        production_stats: ProductionStats {
            ok_count: 7,
            nok_count: 1,
        },
    }
}

fn draws() -> AddressDraws {
    AddressDraws {
        block_draws: vec![Slot { period: 5, thread: 1 }],
        endorsement_draws: vec![(Slot { period: 6, thread: 0 }, 2)],
    }
}

#[test]
fn any_failed_task_fails_the_whole_fanout() {
    let results = vec![
        Ok(parts_for(Address(1))),
        Err(ApiError::SubsystemFailure(Subsystem::Pool)),
        Ok(parts_for(Address(3))),
    ];
    assert!(matches!(
        collect_fanout(results),
        Err(ApiError::SubsystemFailure(Subsystem::Pool))
    ));
}

#[test]
fn all_successful_tasks_are_joined_in_order() {
    let results = vec![Ok(parts_for(Address(2))), Ok(parts_for(Address(1)))];
    let parts = collect_fanout(results).unwrap();
    assert_eq!(parts.len(), 2);
    assert_eq!(parts[0].address, Address(2));
    assert_eq!(parts[1].address, Address(1));
}

#[test]
fn involvement_union_deduplicates() {
    let a = vec![OperationId(1), OperationId(2)];
    let b = vec![OperationId(2), OperationId(3)];
    let u = union_operation_ids(&a, &b);
    assert_eq!(u.len(), 3);
    assert!(u.contains(&OperationId(1)));
    assert!(u.contains(&OperationId(2)));
    assert!(u.contains(&OperationId(3)));
}

#[test]
fn draw_window_end_advances_period_on_same_thread() {
    assert_eq!(
        draw_window_end(Slot { period: 4, thread: 1 }, 10),
        Ok(Slot {
            period: 14,
            thread: 1
        })
    );
    assert_eq!(
        draw_window_end(
            Slot {
                period: u64::MAX,
                thread: 0
            },
            1
        ),
        Err(ApiError::TimeOverflow)
    );
}

#[test]
fn missing_state_fails_the_whole_batch() {
    let addresses = vec![Address(1), Address(2)];
    let states = vec![(Address(1), state())];
    let parts = vec![parts_for(Address(1)), parts_for(Address(2))];
    let all_draws = vec![(Address(1), draws()), (Address(2), draws())];
    assert!(matches!(
        assemble_address_infos(&cfg(), &addresses, &states, &parts, &all_draws),
        Err(ApiError::NotFound)
    ));
}

#[test]
fn composite_record_joins_all_sources() {
    let addresses = vec![Address(5)];
    let states = vec![(Address(5), state())];
    let parts = vec![parts_for(Address(5))];
    let all_draws = vec![(Address(5), draws())];
    let res = assemble_address_infos(&cfg(), &addresses, &states, &parts, &all_draws).unwrap();
    assert_eq!(res.len(), 1);
    let info = &res[0];
    assert_eq!(info.address, Address(5));
    // thread is derived from the address and the thread count alone
    assert_eq!(info.thread, 1);
    assert_eq!(info.rolls.active_rolls, 3);
    assert_eq!(info.production_stats.ok_count, 7);
    assert_eq!(info.blocks_created, vec![BlockId(1)]);
    assert_eq!(info.involved_in_operations, vec![OperationId(2)]);
    assert_eq!(info.final_balance_info, Some(50));
    assert_eq!(info.candidate_balance_info, None);
    assert_eq!(info.final_datastore_keys, vec![vec![1, 2]]);
    assert_eq!(
        info.block_draws,
        vec![Slot { period: 5, thread: 1 }]
    );
}
