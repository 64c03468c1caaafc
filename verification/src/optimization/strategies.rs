//! Guidelines for choosing a state strategy.

use vstd::prelude::*;

verus! {

/// Use the standard state (with clone) when:
/// - nodes are few and state updates are frequent
/// - JSON payloads are small (< 1MB)
/// - execution is sequential (no parallelism needed)
/// - the default behaviour, always safe, is wanted
pub struct StandardStateStrategy;

/// Use `SharedState` when:
/// - the state is very large (multiple MB of JSON)
/// - many nodes read without modifying
/// - checkpointing or resumability is critical
/// - the slight overhead of mutex locks is acceptable
pub struct SharedStateStrategy;

/// Use `OptimizedState` when:
/// - reads and writes are mixed
/// - cloning should happen only on mutation
/// - the application is performance-sensitive
pub struct OptimizedStateStrategy;

} // verus!
