use massa_api::datastore::{datastore_outputs, datastore_query_pairs, DatastoreEntryInput};
use massa_api::error::ApiError;
use massa_api::guard::check_batch_size;
use massa_api::latch::Breakpoint;
use massa_api::models::{Address, NodeId};
use massa_api::stubs;

#[test]
fn guard_accepts_up_to_the_maximum() {
    assert!(check_batch_size(5, 5).is_ok());
    assert_eq!(check_batch_size(6, 5), Err(ApiError::TooManyArguments));
    assert!(check_batch_size(0, 0).is_ok());
}

#[test]
fn guard_fires_before_any_collaborator_call() {
    // an endpoint consults the guard on the raw input before contacting any
    // source; an oversized batch must leave the sources untouched
    let ids: Vec<u64> = vec![1, 2, 3];
    let mut source_calls = 0u32;
    let result = match check_batch_size(ids.len(), 2) {
        Err(e) => Err(e),
        Ok(()) => {
            source_calls += 1;
            Ok(())
        }
    };
    assert_eq!(result, Err(ApiError::TooManyArguments));
    assert_eq!(source_calls, 0);
}

#[test]
fn write_capability_endpoints_always_fail() {
    assert_eq!(stubs::stop_node(), Err(ApiError::WrongApiSurface));
    assert_eq!(
        stubs::node_sign_message(vec![1]),
        Err(ApiError::WrongApiSurface)
    );
    assert_eq!(
        stubs::add_staking_secret_keys(vec![vec![2]]),
        Err(ApiError::WrongApiSurface)
    );
    assert_eq!(
        stubs::remove_staking_addresses(vec![Address(1)]),
        Err(ApiError::WrongApiSurface)
    );
    assert_eq!(
        stubs::get_staking_addresses(),
        Err(ApiError::WrongApiSurface)
    );
    assert_eq!(stubs::node_ban_by_ip(vec![5]), Err(ApiError::WrongApiSurface));
    assert_eq!(
        stubs::node_ban_by_id(vec![NodeId(5)]),
        Err(ApiError::WrongApiSurface)
    );
    assert_eq!(
        stubs::node_unban_by_ip(vec![5]),
        Err(ApiError::WrongApiSurface)
    );
    assert_eq!(
        stubs::node_unban_by_id(vec![NodeId(5)]),
        Err(ApiError::WrongApiSurface)
    );
    assert_eq!(stubs::node_whitelist(vec![5]), Err(ApiError::WrongApiSurface));
    assert_eq!(
        stubs::node_remove_from_whitelist(vec![5]),
        Err(ApiError::WrongApiSurface)
    );
}

#[test]
fn datastore_round_trip_preserves_positions() {
    let entries = vec![
        DatastoreEntryInput {
            address: Address(1),
            key: vec![1],
        },
        DatastoreEntryInput {
            address: Address(2),
            key: vec![2, 2],
        },
    ];
    let pairs = datastore_query_pairs(&entries);
    assert_eq!(pairs, vec![(Address(1), vec![1]), (Address(2), vec![2, 2])]);
    let results = vec![(Some(vec![9]), None), (None, Some(vec![8]))];
    let outputs = datastore_outputs(&results);
    assert_eq!(outputs.len(), 2);
    assert_eq!(outputs[0].final_value, Some(vec![9]));
    assert_eq!(outputs[0].candidate_value, None);
    assert_eq!(outputs[1].final_value, None);
    assert_eq!(outputs[1].candidate_value, Some(vec![8]));
}

#[test]
fn triggered_latch_releases_its_waiter() {
    let waiter = Breakpoint::new();
    let trigger = waiter.get_trigger_handle();
    trigger.trigger();
    // the flag is already set, so the wait returns immediately
    waiter.wait();
}
