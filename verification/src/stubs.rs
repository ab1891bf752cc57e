use vstd::prelude::*;

use crate::error::ApiError;
use crate::models::{Address, NodeId, PubkeySig};

verus! {

// Write-capability endpoints.  They belong to the node-administration
// personality of the interface; on this read-facing surface each is
// structurally present but must immediately and deterministically fail with
// the wrong-API-surface error, contacting no subsystem and performing no
// side effect.

/// Node shutdown: invalid on the read-facing surface.
pub fn stop_node() -> (r: Result<(), ApiError>)
    ensures
        r == Err::<(), ApiError>(ApiError::WrongApiSurface),
{
    Err(ApiError::WrongApiSurface)
}

/// Node-key message signing: invalid on the read-facing surface.
pub fn node_sign_message(_message: Vec<u8>) -> (r: Result<PubkeySig, ApiError>)
    ensures
        r == Err::<PubkeySig, ApiError>(ApiError::WrongApiSurface),
{
    Err(ApiError::WrongApiSurface)
}

/// Staking-key installation: invalid on the read-facing surface.
pub fn add_staking_secret_keys(_keys: Vec<Vec<u8>>) -> (r: Result<(), ApiError>)
    ensures
        r == Err::<(), ApiError>(ApiError::WrongApiSurface),
{
    Err(ApiError::WrongApiSurface)
}

/// Staking-address removal: invalid on the read-facing surface.
pub fn remove_staking_addresses(_addresses: Vec<Address>) -> (r: Result<(), ApiError>)
    ensures
        r == Err::<(), ApiError>(ApiError::WrongApiSurface),
{
    Err(ApiError::WrongApiSurface)
}

/// Staking-address enumeration: invalid on the read-facing surface.
pub fn get_staking_addresses() -> (r: Result<Vec<Address>, ApiError>)
    ensures
        r == Err::<Vec<Address>, ApiError>(ApiError::WrongApiSurface),
{
    Err(ApiError::WrongApiSurface)
}

/// Peer ban by routable address: invalid on the read-facing surface.
pub fn node_ban_by_ip(_ips: Vec<u64>) -> (r: Result<(), ApiError>)
    ensures
        r == Err::<(), ApiError>(ApiError::WrongApiSurface),
{
    Err(ApiError::WrongApiSurface)
}

/// Peer ban by identity: invalid on the read-facing surface.
pub fn node_ban_by_id(_ids: Vec<NodeId>) -> (r: Result<(), ApiError>)
    ensures
        r == Err::<(), ApiError>(ApiError::WrongApiSurface),
{
    Err(ApiError::WrongApiSurface)
}

/// Peer unban by routable address: invalid on the read-facing surface.
pub fn node_unban_by_ip(_ips: Vec<u64>) -> (r: Result<(), ApiError>)
    ensures
        r == Err::<(), ApiError>(ApiError::WrongApiSurface),
{
    Err(ApiError::WrongApiSurface)
}

/// Peer unban by identity: invalid on the read-facing surface.
pub fn node_unban_by_id(_ids: Vec<NodeId>) -> (r: Result<(), ApiError>)
    ensures
        r == Err::<(), ApiError>(ApiError::WrongApiSurface),
{
    Err(ApiError::WrongApiSurface)
}

/// Peer whitelisting: invalid on the read-facing surface.
pub fn node_whitelist(_ips: Vec<u64>) -> (r: Result<(), ApiError>)
    ensures
        r == Err::<(), ApiError>(ApiError::WrongApiSurface),
{
    Err(ApiError::WrongApiSurface)
}

/// Peer whitelist removal: invalid on the read-facing surface.
pub fn node_remove_from_whitelist(_ips: Vec<u64>) -> (r: Result<(), ApiError>)
    ensures
        r == Err::<(), ApiError>(ApiError::WrongApiSurface),
{
    Err(ApiError::WrongApiSurface)
}

} // verus!
