use vstd::prelude::*;
use std::time::{SystemTime, UNIX_EPOCH};

verus! {

/// `SystemTime::now` as whole seconds since the start of 1970, and zero where
/// the clock stands before that. Nothing is known of the value: it is the
/// machine's time.
#[verifier::external_body]
pub fn get_current_timestamp() -> (r: i64) {
    match SystemTime::now().duration_since(UNIX_EPOCH) {
        Ok(elapsed) => elapsed.as_secs() as i64,
        Err(_) => 0,
    }
}

} // verus!
