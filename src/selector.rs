use vstd::prelude::*;

verus! {

/// Direction of one step of a circular selector.
#[derive(Clone, Copy, Debug, PartialEq, Eq, Structural)]
pub enum Direction {
    Forward,
    Backward,
}

/// Why a selector could not move.
#[derive(Clone, Copy, Debug, PartialEq, Eq, Structural)]
pub enum SelectorError {
    /// The collection has no element to select.
    EmptyCollection,
    /// The collection is not empty, but nothing is selected.
    NoSelection,
}

/// The index reached from `current` by one step in `direction` over `len` elements.
pub open spec fn next_index(current: int, len: int, direction: Direction) -> int {
    match direction {
        Direction::Forward => (current + 1) % len,
        Direction::Backward => (current - 1 + len) % len,
    }
}

/// One circular step of an index over a collection of `length` elements.
pub fn advance(current: usize, length: usize, direction: Direction) -> (r: Result<usize, SelectorError>)
    ensures
        length == 0 <==> r is Err,
        length == 0 ==> r == Err::<usize, SelectorError>(SelectorError::EmptyCollection),
        length > 0 ==> r is Ok && r->Ok_0 as int == next_index(current as int, length as int, direction),
        r is Ok ==> r->Ok_0 < length,
{
    if length == 0 {
        return Err(SelectorError::EmptyCollection);
    }
    let c: usize = current % length;
    proof {
        let (ci, li) = (current as int, length as int);
        assert(c as int == ci % li);
        vstd::arithmetic::div_mod::lemma_fundamental_div_mod(ci, li);
        vstd::arithmetic::div_mod::lemma_mod_bound(ci, li);
    }
    match direction {
        Direction::Forward => {
            let r: usize = if c + 1 == length { 0 } else { c + 1 };
            proof {
                let (ci, li) = (current as int, length as int);
                vstd::arithmetic::div_mod::lemma_add_mod_noop(ci, 1, li);
                if li == 1 {
                    vstd::arithmetic::div_mod::lemma_mod_self_0(1);
                    vstd::arithmetic::div_mod::lemma_mod_bound(ci + 1, 1);
                } else {
                    vstd::arithmetic::div_mod::lemma_small_mod(1, length as nat);
                    if c + 1 == length {
                        vstd::arithmetic::div_mod::lemma_mod_self_0(li);
                    } else {
                        vstd::arithmetic::div_mod::lemma_small_mod((c + 1) as nat, length as nat);
                    }
                }
            }
            Ok(r)
        },
        Direction::Backward => {
            let r: usize = if c == 0 { length - 1 } else { c - 1 };
            proof {
                let (ci, li) = (current as int, length as int);
                vstd::arithmetic::div_mod::lemma_add_mod_noop(ci, li - 1, li);
                vstd::arithmetic::div_mod::lemma_small_mod((li - 1) as nat, length as nat);
                vstd::arithmetic::div_mod::lemma_small_mod(r as nat, length as nat);
                if c > 0 {
                    vstd::arithmetic::div_mod::lemma_mod_add_multiples_vanish(c - 1, li);
                    vstd::arithmetic::div_mod::lemma_small_mod((c - 1) as nat, length as nat);
                }
            }
            Ok(r)
        },
    }
}

/// The index reached from `current` by `n` steps in `direction` over `len` elements.
pub open spec fn advance_times(current: int, len: int, direction: Direction, n: nat) -> int
    decreases n,
{
    if n == 0 {
        current
    } else {
        next_index(advance_times(current, len, direction, (n - 1) as nat), len, direction)
    }
}

/// A step backward undoes a step forward.
pub proof fn lemma_forward_then_backward(i: int, len: int)
    requires
        0 <= i < len,
    ensures
        next_index(next_index(i, len, Direction::Forward), len, Direction::Backward) == i,
{
    vstd::arithmetic::div_mod::lemma_add_mod_noop_right(len - 1, i + 1, len);
    vstd::arithmetic::div_mod::lemma_mod_add_multiples_vanish(i, len);
    vstd::arithmetic::div_mod::lemma_small_mod(i as nat, len as nat);
}

proof fn lemma_advance_times(i: int, len: int, direction: Direction, n: nat)
    requires
        0 <= i < len,
    ensures
        advance_times(i, len, direction, n) == match direction {
            Direction::Forward => (i + n) % len,
            Direction::Backward => (i - n) % len,
        },
    decreases n,
{
    if n == 0 {
        vstd::arithmetic::div_mod::lemma_small_mod(i as nat, len as nat);
    } else {
        lemma_advance_times(i, len, direction, (n - 1) as nat);
        match direction {
            Direction::Forward => {
                vstd::arithmetic::div_mod::lemma_add_mod_noop_right(1, i + n - 1, len);
            },
            Direction::Backward => {
                vstd::arithmetic::div_mod::lemma_add_mod_noop_right(len - 1, i - n + 1, len);
                vstd::arithmetic::div_mod::lemma_mod_add_multiples_vanish(i - n, len);
            },
        }
    }
}

/// `len` steps in one direction over `len` elements come back to the start.
pub proof fn lemma_full_cycle(i: int, len: int, direction: Direction)
    requires
        0 <= i < len,
    ensures
        advance_times(i, len, direction, len as nat) == i,
{
    lemma_advance_times(i, len, direction, len as nat);
    vstd::arithmetic::div_mod::lemma_small_mod(i as nat, len as nat);
    vstd::arithmetic::div_mod::lemma_mod_add_multiples_vanish(i, len);
    vstd::arithmetic::div_mod::lemma_mod_sub_multiples_vanish(i, len);
}

} // verus!
