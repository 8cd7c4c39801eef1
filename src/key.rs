//! Deterministic keys of the entities that a vault owns. Each key is a pure
//! function of the vault, the kind of entity and its round or user, so a
//! reference handed in can be checked by deriving its key again.
use vstd::prelude::*;

use crate::error::ErrorCode;

verus! {

/// The kind of entity that a key addresses.
#[derive(Clone, Copy, Debug, PartialEq, Eq, Structural)]
pub enum EntityTag {
    Vault,
    Round,
    PendingDeposit,
    PendingWithdrawal,
}

/// The address of one entity: its vault, its kind, and the round number or
/// user that it is for (0 for the vault itself).
#[derive(Clone, Copy, Debug, PartialEq, Eq, Structural)]
pub struct EntityKey {
    pub vault: u64,
    pub tag: EntityTag,
    pub index: u64,
}

/// The key of the entity of kind `tag` for `index` in `vault`.
pub open spec fn key_of(vault: u64, tag: EntityTag, index: u64) -> EntityKey {
    EntityKey { vault, tag, index }
}

/// Derives the key of the entity of kind `tag` for `index` in `vault`.
pub fn derive_key(vault: u64, tag: EntityTag, index: u64) -> (r: EntityKey)
    ensures
        r == key_of(vault, tag, index),
{
    EntityKey { vault, tag, index }
}

/// Accepts `key` only where it is the key derived for the entity expected.
pub fn check_key(key: &EntityKey, vault: u64, tag: EntityTag, index: u64) -> (r: Result<
    (),
    ErrorCode,
>)
    ensures
        r == (if *key == key_of(vault, tag, index) {
            Ok(())
        } else {
            Err(ErrorCode::InvalidEntityKey)
        }),
{
    let expected = derive_key(vault, tag, index);
    if *key == expected {
        Ok(())
    } else {
        Err(ErrorCode::InvalidEntityKey)
    }
}

/// Keys derived for different entities differ.
pub proof fn lemma_keys_distinct(v1: u64, t1: EntityTag, i1: u64, v2: u64, t2: EntityTag, i2: u64)
    requires
        v1 != v2 || t1 != t2 || i1 != i2,
    ensures
        key_of(v1, t1, i1) != key_of(v2, t2, i2),
{
}

} // verus!
