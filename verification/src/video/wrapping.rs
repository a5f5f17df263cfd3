//! Stepping a coordinate round an axis of fixed size.

use vstd::prelude::*;

verus! {

/// The coordinate after `x` on an axis of `n` cells; of the last one, 0.
pub open spec fn wrap_inc(x: int, n: int) -> int {
    if x < n - 1 {
        x + 1
    } else {
        0
    }
}

/// The coordinate before `x` on an axis of `n` cells; of 0, the last one.
pub open spec fn wrap_dec(x: int, n: int) -> int {
    if x > 0 {
        x - 1
    } else {
        n - 1
    }
}

/// `steps` times `wrap_inc`.
pub open spec fn wrap_inc_by(x: int, n: int, steps: nat) -> int
    decreases steps,
{
    if steps == 0 {
        x
    } else {
        wrap_inc_by(wrap_inc(x, n), n, (steps - 1) as nat)
    }
}

/// `steps` times `wrap_dec`.
pub open spec fn wrap_dec_by(x: int, n: int, steps: nat) -> int
    decreases steps,
{
    if steps == 0 {
        x
    } else {
        wrap_dec_by(wrap_dec(x, n), n, (steps - 1) as nat)
    }
}

/// On the axis, one step forward is addition modulo its size, and the
/// result is on the axis again.
pub proof fn lemma_wrap_inc_mod(x: int, n: int)
    requires
        0 <= x < n,
    ensures
        wrap_inc(x, n) == (x + 1) % n,
        0 <= wrap_inc(x, n) < n,
{
    if x < n - 1 {
        vstd::arithmetic::div_mod::lemma_small_mod((x + 1) as nat, n as nat);
    } else {
        vstd::arithmetic::div_mod::lemma_mod_self_0(n);
    }
}

/// On the axis, one step back is subtraction modulo its size, and the
/// result is on the axis again.
pub proof fn lemma_wrap_dec_mod(x: int, n: int)
    requires
        0 <= x < n,
    ensures
        wrap_dec(x, n) == (x - 1) % n,
        0 <= wrap_dec(x, n) < n,
{
    if x > 0 {
        vstd::arithmetic::div_mod::lemma_small_mod((x - 1) as nat, n as nat);
    } else {
        vstd::arithmetic::div_mod::lemma_mod_add_multiples_vanish(-1, n);
        vstd::arithmetic::div_mod::lemma_small_mod((n - 1) as nat, n as nat);
    }
}

/// A step forward and a step back cancel, in either order.
pub proof fn lemma_wrap_inverse(x: int, n: int)
    requires
        0 <= x < n,
    ensures
        wrap_dec(wrap_inc(x, n), n) == x,
        wrap_inc(wrap_dec(x, n), n) == x,
{
}

/// On the axis, `steps` steps forward are addition modulo its size.
pub proof fn lemma_wrap_inc_by_mod(x: int, n: int, steps: nat)
    requires
        0 <= x < n,
    ensures
        wrap_inc_by(x, n, steps) == (x + steps) % n,
        0 <= wrap_inc_by(x, n, steps) < n,
    decreases steps,
{
    if steps == 0 {
        vstd::arithmetic::div_mod::lemma_small_mod(x as nat, n as nat);
    } else {
        lemma_wrap_inc_mod(x, n);
        lemma_wrap_inc_by_mod(wrap_inc(x, n), n, (steps - 1) as nat);
        vstd::arithmetic::div_mod::lemma_add_mod_noop(x + 1, steps - 1, n);
        vstd::arithmetic::div_mod::lemma_add_mod_noop((x + 1) % n, steps - 1, n);
        vstd::arithmetic::div_mod::lemma_mod_twice(x + 1, n);
    }
}

/// On the axis, `steps` steps back are subtraction modulo its size.
pub proof fn lemma_wrap_dec_by_mod(x: int, n: int, steps: nat)
    requires
        0 <= x < n,
    ensures
        wrap_dec_by(x, n, steps) == (x - steps) % n,
        0 <= wrap_dec_by(x, n, steps) < n,
    decreases steps,
{
    if steps == 0 {
        vstd::arithmetic::div_mod::lemma_small_mod(x as nat, n as nat);
    } else {
        lemma_wrap_dec_mod(x, n);
        lemma_wrap_dec_by_mod(wrap_dec(x, n), n, (steps - 1) as nat);
        vstd::arithmetic::div_mod::lemma_sub_mod_noop(x - 1, steps - 1, n);
        vstd::arithmetic::div_mod::lemma_sub_mod_noop((x - 1) % n, steps - 1, n);
        vstd::arithmetic::div_mod::lemma_mod_twice(x - 1, n);
    }
}

/// One more step forward after `steps` steps is `steps + 1` steps.
pub proof fn lemma_wrap_inc_by_step(x: int, n: int, steps: nat)
    ensures
        wrap_inc_by(x, n, steps + 1) == wrap_inc(wrap_inc_by(x, n, steps), n),
    decreases steps,
{
    if steps > 0 {
        lemma_wrap_inc_by_step(wrap_inc(x, n), n, (steps - 1) as nat);
    } else {
        assert(wrap_inc_by(x, n, 1) == wrap_inc_by(wrap_inc(x, n), n, 0));
    }
}

/// One more step back after `steps` steps is `steps + 1` steps.
pub proof fn lemma_wrap_dec_by_step(x: int, n: int, steps: nat)
    ensures
        wrap_dec_by(x, n, steps + 1) == wrap_dec(wrap_dec_by(x, n, steps), n),
    decreases steps,
{
    if steps > 0 {
        lemma_wrap_dec_by_step(wrap_dec(x, n), n, (steps - 1) as nat);
    } else {
        assert(wrap_dec_by(x, n, 1) == wrap_dec_by(wrap_dec(x, n), n, 0));
    }
}

/// Wrap-around successor and predecessor of a coordinate.
pub trait SizeWrapping<T>: Sized {
    /// Whether `size` can be the size of an axis.
    spec fn axis(size: T) -> bool;

    /// What `inc` returns.
    spec fn inc_value(self, size: T) -> Self;

    /// What `dec` returns.
    spec fn dec_value(self, size: T) -> Self;

    /// The next coordinate on an axis of `size` cells, wrapping to 0.
    fn inc(self, size: T) -> (next: Self)
        requires
            Self::axis(size),
        ensures
            next == self.inc_value(size),
    ;

    /// The previous coordinate on an axis of `size` cells, wrapping to the
    /// last one.
    fn dec(self, size: T) -> (previous: Self)
        requires
            Self::axis(size),
        ensures
            previous == self.dec_value(size),
    ;
}

impl SizeWrapping<u16> for u16 {
    open spec fn axis(size: u16) -> bool {
        size > 0
    }

    open spec fn inc_value(self, size: u16) -> u16 {
        wrap_inc(self as int, size as int) as u16
    }

    open spec fn dec_value(self, size: u16) -> u16 {
        wrap_dec(self as int, size as int) as u16
    }

    fn inc(self, size: u16) -> (next: u16) {
        if self < size - 1 {
            self + 1
        } else {
            0
        }
    }

    fn dec(self, size: u16) -> (previous: u16) {
        if self > 0 {
            self - 1
        } else {
            size - 1
        }
    }
}

} // verus!
