//! The ring of plate ids round which the selection moves.

use vstd::arithmetic::div_mod::{
    lemma_fundamental_div_mod, lemma_fundamental_div_mod_converse, lemma_mod_add_multiples_vanish,
    lemma_mod_bound, lemma_mod_sub_multiples_vanish, lemma_small_mod,
};
use vstd::prelude::*;

verus! {

/// Id of the plate before `id` among `count` plates; the first wraps to the
/// last.
pub open spec fn previous_id(id: int, count: int) -> int {
    ((id - 2) % count) + 1
}

/// Id of the plate after `id` among `count` plates; the last wraps to the
/// first.
pub open spec fn next_id(id: int, count: int) -> int {
    (id % count) + 1
}

/// Selected id after the keys of one tick: `left` steps back first, then
/// `right` steps forward.
pub open spec fn selection_after_keys(id: int, count: int, left: bool, right: bool) -> int {
    let stepped_back = if left {
        previous_id(id, count)
    } else {
        id
    };
    if right {
        next_id(stepped_back, count)
    } else {
        stepped_back
    }
}

/// Selected id after `times` presses of the right key.
pub open spec fn id_after_rights(id: int, count: int, times: nat) -> int
    decreases times,
{
    if times == 0 {
        id
    } else {
        next_id(id_after_rights(id, count, (times - 1) as nat), count)
    }
}

/// Selected id after `times` presses of the left key.
pub open spec fn id_after_lefts(id: int, count: int, times: nat) -> int
    decreases times,
{
    if times == 0 {
        id
    } else {
        previous_id(id_after_lefts(id, count, (times - 1) as nat), count)
    }
}

/// Stepping back from an id in range stays in range: the first id wraps to the
/// last, every other id goes down by one.
pub proof fn lemma_previous_id(id: int, count: int)
    requires
        1 <= id <= count,
    ensures
        previous_id(id, count) == if id == 1 {
            count
        } else {
            id - 1
        },
        1 <= previous_id(id, count) <= count,
{
    if id == 1 {
        assert((id - 2) % count == count - 1) by (nonlinear_arith)
            requires
                id == 1,
                count >= 1,
        ;
    } else {
        assert((id - 2) % count == id - 2) by (nonlinear_arith)
            requires
                2 <= id <= count,
        ;
    }
}

/// Stepping forward from an id in range stays in range: the last id wraps to
/// the first, every other id goes up by one.
pub proof fn lemma_next_id(id: int, count: int)
    requires
        1 <= id <= count,
    ensures
        next_id(id, count) == if id == count {
            1
        } else {
            id + 1
        },
        1 <= next_id(id, count) <= count,
{
    if id == count {
        assert(id % count == 0) by (nonlinear_arith)
            requires
                id == count,
                count >= 1,
        ;
    } else {
        assert(id % count == id) by (nonlinear_arith)
            requires
                1 <= id < count,
        ;
    }
}

/// Closed form of repeated steps forward: `times` presses of the right key
/// move the selection `times` places round the ring of ids.
pub proof fn lemma_id_after_rights(id: int, count: int, times: nat)
    requires
        1 <= id <= count,
    ensures
        id_after_rights(id, count, times) == ((id - 1 + times) % count) + 1,
    decreases times,
{
    if times == 0 {
        lemma_small_mod((id - 1) as nat, count as nat);
    } else {
        lemma_id_after_rights(id, count, (times - 1) as nat);
        let a = id - 1 + times - 1;
        let m = a % count;
        lemma_fundamental_div_mod(a, count);
        lemma_mod_bound(a, count);
        lemma_next_id(m + 1, count);
        let q = a / count;
        if m + 1 == count {
            assert(a + 1 == (q + 1) * count + 0) by (nonlinear_arith)
                requires
                    a == count * q + m,
                    m + 1 == count,
            ;
            lemma_fundamental_div_mod_converse(a + 1, count, q + 1, 0);
        } else {
            assert(a + 1 == q * count + (m + 1)) by (nonlinear_arith)
                requires
                    a == count * q + m,
            ;
            lemma_fundamental_div_mod_converse(a + 1, count, q, m + 1);
        }
    }
}

/// Closed form of repeated steps back: `times` presses of the left key move
/// the selection `times` places round the ring of ids, the other way.
pub proof fn lemma_id_after_lefts(id: int, count: int, times: nat)
    requires
        1 <= id <= count,
    ensures
        id_after_lefts(id, count, times) == ((id - 1 - times) % count) + 1,
    decreases times,
{
    if times == 0 {
        lemma_small_mod((id - 1) as nat, count as nat);
    } else {
        lemma_id_after_lefts(id, count, (times - 1) as nat);
        let a = id - 1 - (times - 1);
        let m = a % count;
        lemma_fundamental_div_mod(a, count);
        lemma_mod_bound(a, count);
        lemma_previous_id(m + 1, count);
        let q = a / count;
        if m == 0 {
            assert(a - 1 == (q - 1) * count + (count - 1)) by (nonlinear_arith)
                requires
                    a == count * q + m,
                    m == 0,
            ;
            lemma_fundamental_div_mod_converse(a - 1, count, q - 1, count - 1);
        } else {
            assert(a - 1 == q * count + (m - 1)) by (nonlinear_arith)
                requires
                    a == count * q + m,
            ;
            lemma_fundamental_div_mod_converse(a - 1, count, q, m - 1);
        }
    }
}

/// Among `count` plates, `count` presses of the right key bring the selection
/// back to the id it started from, and so do `count` presses of the left key.
pub proof fn lemma_full_round_returns(id: int, count: int)
    requires
        1 <= id <= count,
    ensures
        id_after_rights(id, count, count as nat) == id,
        id_after_lefts(id, count, count as nat) == id,
{
    lemma_id_after_rights(id, count, count as nat);
    lemma_id_after_lefts(id, count, count as nat);
    lemma_mod_add_multiples_vanish(id - 1, count);
    lemma_mod_sub_multiples_vanish(id - 1, count);
    lemma_small_mod((id - 1) as nat, count as nat);
}

/// The selected id after the selection keys of one tick.
pub(crate) fn selection_after(id: usize, count: usize, left: bool, right: bool) -> (chosen: usize)
    requires
        1 <= id <= count,
    ensures
        chosen == selection_after_keys(id as int, count as int, left, right),
        1 <= chosen <= count,
{
    let mut plate_selected = id;
    proof {
        lemma_previous_id(plate_selected as int, count as int);
    }
    if left {
        plate_selected = if plate_selected == 1 {
            count
        } else {
            plate_selected - 1
        };
    }
    proof {
        lemma_next_id(plate_selected as int, count as int);
    }
    if right {
        plate_selected = if plate_selected == count {
            1
        } else {
            plate_selected + 1
        };
    }
    plate_selected
}

} // verus!
