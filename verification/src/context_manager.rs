//! Usage statistics kept for each loaded model context.
use vstd::prelude::*;

use crate::time::Instant;

verus! {

/// How much a model context has been used.
#[derive(Debug, Clone)]
pub struct UsageStats {
    /// Requests served
    pub total_requests: u64,
    /// Tokens generated
    pub total_tokens_generated: u64,
    /// Time spent, in milliseconds
    pub total_time_ms: u128,
    /// When the context was last used
    pub last_used: Option<Instant>,
}

impl Default for UsageStats {
    fn default() -> (r: Self)
        ensures
            r.total_requests == 0,
            r.total_tokens_generated == 0,
            r.total_time_ms == 0,
            r.last_used is None,
    {
        UsageStats { total_requests: 0, total_tokens_generated: 0, total_time_ms: 0, last_used: None }
    }
}

} // verus!
