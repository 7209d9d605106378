//! Caches of rows, budgets and accounts by type, date and key, and the
//! bookkeeping that fills them before the formulas are calculated.
pub mod any_map;
pub mod cache_build;
pub mod calculated;
pub mod calculated_cache;
pub mod callback;
pub mod entry_laws;
pub mod formula_input;
pub mod formula_result;
pub mod laws;
pub mod list_growth;
pub mod record_cache;
pub mod str_map;
pub mod summary_cache;
pub mod text;
pub mod value;

use vstd::prelude::*;

verus! {

/// The key under which `key` is cached: the key itself.
pub fn cache_key(key: &String) -> (r: String)
    ensures
        r@ == key@,
{
    key.clone()
}

} // verus!
