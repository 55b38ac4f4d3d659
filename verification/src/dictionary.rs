//! Key namespacing for the per-guild dictionary command.
//!
//! Dictionary entries live in a shared key/value store, so each guild's
//! entries are kept apart by prefixing the user-visible key with a fixed
//! namespace and the guild's numeric id.

use crate::text::{dec_str, u64_to_string};
use vstd::prelude::*;

verus! {

/// The store key for dictionary entry `key` of the guild `guild_id`.
pub fn namespaced_dictionary_key(key: &String, guild_id: u64) -> (r: String)
    ensures
        r@ == "technobot::dictionary::"@ + dec_str(guild_id as nat) + "::"@ + key@,
{
    let mut r = String::from_str("technobot::dictionary::");
    let id = u64_to_string(guild_id);
    r.append(id.as_str());
    r.append("::");
    r.append(key.as_str());
    r
}

} // verus!
