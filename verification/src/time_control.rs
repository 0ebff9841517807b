//! Time control: turns external clock, node and depth limits into a
//! cooperative stop signal that the search polls.

use vstd::prelude::*;

verus! {

/// Relies on std::time::SystemTime::now for the wall clock, read as
/// milliseconds since the Unix epoch. The value depends on the clock, so
/// nothing is promised of it.
#[verifier::external_body]
fn now_millis() -> u64 {
    match std::time::SystemTime::now().duration_since(std::time::UNIX_EPOCH) {
        Ok(d) => d.as_millis() as u64,
        Err(_) => 0,
    }
}

/// The limits a search runs under.
#[derive(Clone, Copy, Debug)]
pub struct SearchRestrictions {
    pub depth: Option<u8>,
    pub nodes: Option<u64>,
    pub movetime_ms: Option<u64>,
    pub infinite: bool,
}

impl SearchRestrictions {
    /// No limits: search until the depth ceiling.
    #[verifier::allow_in_spec]
    pub fn unlimited() -> SearchRestrictions
        returns
            (SearchRestrictions { depth: None, nodes: None, movetime_ms: None, infinite: true }),
    {
        SearchRestrictions { depth: None, nodes: None, movetime_ms: None, infinite: true }
    }

    /// A fixed-depth search.
    #[verifier::allow_in_spec]
    pub fn depth_limit(d: u8) -> SearchRestrictions
        returns
            (SearchRestrictions {
                depth: Some(d),
                nodes: None,
                movetime_ms: None,
                infinite: false,
            }),
    {
        SearchRestrictions { depth: Some(d), nodes: None, movetime_ms: None, infinite: false }
    }
}

/// The budget for one move from the clock state: a twentieth of the
/// remaining time (or an even share of the moves to go), plus half the
/// increment, never more than half the remaining time.
pub open spec fn spec_time_budget(remaining: u64, increment: u64, movestogo: Option<u64>) -> int {
    let share = match movestogo {
        Some(m) => if m == 0 {
            remaining as int / 20
        } else {
            remaining as int / (m as int)
        },
        None => remaining as int / 20,
    };
    let with_inc = share + increment as int / 2;
    if with_inc > remaining as int / 2 {
        remaining as int / 2
    } else {
        with_inc
    }
}

/// The time to spend on this move, from the clock, increment and moves to
/// go.
pub fn time_budget_ms(remaining: u64, increment: u64, movestogo: Option<u64>) -> (r: u64)
    ensures
        r as int == spec_time_budget(remaining, increment, movestogo),
{
    let share = match movestogo {
        Some(m) => if m == 0 {
            remaining / 20
        } else {
            remaining / m
        },
        None => remaining / 20,
    };
    let with_inc = if share <= u64::MAX - increment / 2 {
        share + increment / 2
    } else {
        u64::MAX
    };
    proof {
        assert(remaining as int / 20 <= remaining as int);
        assert(increment as int / 2 <= increment as int);
    }
    if with_inc > remaining / 2 {
        remaining / 2
    } else {
        with_inc
    }
}

/// A running clock for one search.
pub struct TimeStrategy {
    pub start_ms: u64,
    pub movetime_ms: Option<u64>,
    pub node_limit: Option<u64>,
    pub infinite: bool,
}

impl TimeStrategy {
    /// Start the clock for a search under the given restrictions.
    pub fn new(restrictions: &SearchRestrictions) -> (r: TimeStrategy)
        ensures
            r.node_limit == restrictions.nodes,
            r.movetime_ms == restrictions.movetime_ms,
            r.infinite == restrictions.infinite,
    {
        TimeStrategy {
            start_ms: now_millis(),
            movetime_ms: restrictions.movetime_ms,
            node_limit: restrictions.nodes,
            infinite: restrictions.infinite,
        }
    }

    /// Milliseconds since the search started, as far as the clock tells.
    pub fn elapsed_ms(&self) -> u64 {
        let now = now_millis();
        if now >= self.start_ms {
            now - self.start_ms
        } else {
            0
        }
    }

    /// Should the search stop? Certainly once a node limit is exceeded;
    /// also once the clock has run past a move-time limit.
    pub fn should_stop(&self, nodes_visited: u64) -> (r: bool)
        ensures
            (self.node_limit matches Some(n) && nodes_visited >= n) ==> r,
            self.node_limit is None && self.movetime_ms is None ==> !r,
            (self.node_limit matches Some(n) && nodes_visited < n && self.movetime_ms is None)
                ==> !r,
    {
        match self.node_limit {
            Some(n) => {
                if nodes_visited >= n {
                    return true;
                }
            },
            None => {},
        }
        match self.movetime_ms {
            Some(t) => {
                // poll the clock only now and then: the answer may change
                // only from false to true as time passes
                if nodes_visited % 1024 == 0 {
                    self.elapsed_ms() >= t
                } else {
                    false
                }
            },
            None => false,
        }
    }
}

} // verus!
