//! State optimization utilities: a copy-on-write handle to a state, and
//! statistics on how often state is cloned.

pub mod strategies;

use vstd::prelude::*;
use vstd::string::StringExecFns;
use std::sync::Arc;
use crate::state::shared::{arc_clone, arc_strong_count, State};
use crate::text::{decimal, push_decimal};

verus! {

/// `Arc::make_mut`: a mutable reference to the value. When `a` is the only
/// `Arc` to its allocation the reference is to that value (moved to a new
/// allocation if weak pointers exist); otherwise `make_mut` first replaces
/// `a` by a new allocation holding `T::clone` of the value. The contract
/// states just that: the value reached is the old value or a clone of it by
/// `State`'s `Clone` (vstd's `cloned`), and what is written through the
/// reference is what `a` then holds.
#[verifier::external_body]
fn arc_make_mut(a: &mut Arc<State>) -> (r: &mut State)
    ensures
        cloned(**old(a), *r),
        **final(a) == *final(r),
{
    Arc::make_mut(a)
}

/// `Arc::try_unwrap`: the value when `a` is its only pointer, and `a` back
/// otherwise.
#[verifier::external_body]
fn arc_try_unwrap(a: Arc<State>) -> (r: Result<State, Arc<State>>)
    ensures
        match r {
            Ok(s) => s == *a,
            Err(b) => b == a,
        },
{
    Arc::try_unwrap(a)
}

/// A copy-on-write handle to a state: reading shares it, and mutable access
/// first takes a copy when the handle is shared.
pub struct OptimizedState {
    inner: Arc<State>,
    is_owned: bool,
}

impl OptimizedState {
    /// The state this handle gives access to.
    pub closed spec fn state_of(self) -> State {
        *self.inner
    }

    /// The handle's own record that it owns its state.
    pub closed spec fn owned_flag(self) -> bool {
        self.is_owned
    }

    /// A handle to `state`.
    pub fn new(state: State) -> (r: Self)
        ensures
            r.state_of() == state,
            r.owned_flag(),
    {
        OptimizedState { inner: Arc::new(state), is_owned: true }
    }

    /// The state, for reading.
    pub fn as_ref(&self) -> (r: &State)
        ensures
            *r == self.state_of(),
    {
        &*self.inner
    }

    /// The state, for writing; the handle first takes its own copy when it
    /// does not own the state alone.
    pub fn as_mut(&mut self) -> (r: &mut State)
        ensures
            *r == old(self).state_of(),
            final(self).state_of() == *final(r),
            final(self).owned_flag(),
    {
        if !self.is_owned || arc_strong_count(&self.inner) > 1 {
            let state = (*self.inner).clone();
            self.inner = Arc::new(state);
            self.is_owned = true;
        }
        arc_make_mut(&mut self.inner)
    }

    /// The state, taken out of the handle (a copy when other handles share
    /// it).
    pub fn into_owned(self) -> (r: State)
        ensures
            r == self.state_of(),
    {
        match arc_try_unwrap(self.inner) {
            Ok(state) => state,
            Err(shared) => (*shared).clone(),
        }
    }

    /// Whether this handle owns its state alone: its owned flag is set and
    /// it is the only pointer to the state, as `owned_given` decides from
    /// the flag and the pointer count.
    pub fn is_owned(&self) -> (r: bool)
        ensures
            r ==> self.owned_flag(),
    {
        Self::owned_given(self.is_owned, arc_strong_count(&self.inner))
    }

    /// What `is_owned` returns for a handle with the owned flag `flag` whose
    /// state has `count` pointers to it.
    pub fn owned_given(flag: bool, count: usize) -> (r: bool)
        ensures
            r == (flag && count == 1),
    {
        flag && count == 1
    }

    /// The number of handles sharing the state.
    pub fn strong_count(&self) -> (r: usize)
        ensures
            r >= 1,
    {
        arc_strong_count(&self.inner)
    }
}

impl Clone for OptimizedState {
    /// Another handle sharing this one's allocation.
    fn clone(&self) -> (r: Self)
        ensures
            r.state_of() == self.state_of(),
            r.owned_flag() == self.owned_flag(),
    {
        OptimizedState { inner: arc_clone(&self.inner), is_owned: self.is_owned }
    }
}

/// Statistics for tracking cloning efficiency.
#[derive(Debug)]
pub struct CloneStats {
    /// Number of state clones performed.
    pub clone_count: u64,
    /// Number of state mutations.
    pub mutation_count: u64,
    /// Estimated bytes cloned (rough estimation).
    pub estimated_bytes_cloned: u64,
}

/// The summary line of clone statistics, given the efficiency percentage
/// as it is printed.
pub open spec fn summary_text(stats: CloneStats, efficiency_percent: Seq<char>) -> Seq<char> {
    "Clones: "@ + decimal(stats.clone_count as nat) + ", Mutations: "@ + decimal(
        stats.mutation_count as nat,
    ) + ", Efficiency: "@ + efficiency_percent + "%, Est. Data: "@ + decimal(
        stats.estimated_bytes_cloned as nat,
    ) + " bytes"@
}

impl CloneStats {
    /// A summary line of the statistics; `efficiency_percent` is the
    /// efficiency ratio (mutations per clone) times 100, printed with two
    /// decimals.
    pub fn summary(&self, efficiency_percent: &str) -> (r: String)
        ensures
            r@ == summary_text(*self, efficiency_percent@),
    {
        let mut r = String::new();
        r.append("Clones: ");
        push_decimal(&mut r, self.clone_count);
        r.append(", Mutations: ");
        push_decimal(&mut r, self.mutation_count);
        r.append(", Efficiency: ");
        r.append(efficiency_percent);
        r.append("%, Est. Data: ");
        push_decimal(&mut r, self.estimated_bytes_cloned);
        r.append(" bytes");
        assert(r@ =~= summary_text(*self, efficiency_percent@));
        r
    }
}

impl Clone for CloneStats {
    fn clone(&self) -> (r: Self)
        ensures
            r == *self,
    {
        CloneStats {
            clone_count: self.clone_count,
            mutation_count: self.mutation_count,
            estimated_bytes_cloned: self.estimated_bytes_cloned,
        }
    }
}

impl Default for CloneStats {
    /// No clones, no mutations, no bytes.
    fn default() -> (r: Self)
        ensures
            r.clone_count == 0,
            r.mutation_count == 0,
            r.estimated_bytes_cloned == 0,
    {
        CloneStats { clone_count: 0, mutation_count: 0, estimated_bytes_cloned: 0 }
    }
}

} // verus!
