//! The backend pool: an ordered, immutable list of backend addresses
//! together with a rotating dispatch cursor.

use vstd::prelude::*;

verus! {

/// Index selected by the round-robin policy for a given cursor value
/// against a pool of `size` backends.
pub open spec fn rr_index(counter: nat, size: nat) -> nat
    recommends
        size > 0,
{
    counter % size
}

/// Ordered pool of backend addresses plus a monotonically advancing
/// dispatch cursor.  The address list never changes after
/// construction; only the cursor moves.
pub struct BackendPool {
    addresses: Vec<String>,
    cursor: u64,
}

impl BackendPool {
    /// The ordered backend addresses.
    pub closed spec fn spec_addresses(&self) -> Seq<Seq<char>> {
        self.addresses.deep_view()
    }

    /// The current cursor value: the number of dispatches performed so
    /// far, modulo the cursor's machine width.
    pub closed spec fn spec_cursor(&self) -> nat {
        self.cursor as nat
    }

    /// A pool is serviceable once it holds at least one backend; an
    /// empty pool is a startup error and never constructed.
    pub open spec fn well_formed(&self) -> bool {
        self.spec_addresses().len() > 0
    }

    /// Builds a pool over the configured backend addresses, starting
    /// at cursor zero.  An empty address list is rejected: serving
    /// must never start without a backend.
    pub fn new(addresses: Vec<String>) -> (r: Option<BackendPool>)
        ensures
            r is Some <==> addresses@.len() > 0,
            r matches Some(p) ==> {
                &&& p.well_formed()
                &&& p.spec_addresses() == addresses.deep_view()
                &&& p.spec_cursor() == 0
            },
    {
        if addresses.len() == 0 {
            None
        } else {
            Some(BackendPool { addresses, cursor: 0 })
        }
    }

    /// Number of backends in the pool.
    pub fn len(&self) -> (n: usize)
        ensures
            n == self.spec_addresses().len(),
    {
        self.addresses.len()
    }

    /// The address at a given index.
    pub fn address(&self, i: usize) -> (a: &String)
        requires
            i < self.spec_addresses().len(),
        ensures
            a@ == self.spec_addresses()[i as int],
    {
        &self.addresses[i]
    }

    /// Selects the backend for the next dispatch: the cursor value
    /// modulo the pool size, after which the cursor advances by one
    /// (wrapping at its machine width).  Always succeeds on a
    /// non-empty pool.
    pub fn select_backend(&mut self) -> (r: usize)
        requires
            old(self).well_formed(),
        ensures
            final(self).well_formed(),
            final(self).spec_addresses() == old(self).spec_addresses(),
            r < old(self).spec_addresses().len(),
            r as nat == rr_index(old(self).spec_cursor(), old(self).spec_addresses().len() as nat),
            final(self).spec_cursor() == (old(self).spec_cursor() + 1) % (u64::MAX + 1) as nat,
    {
        let size = self.addresses.len();
        let r = (self.cursor % (size as u64)) as usize;
        proof {
            let c = old(self).cursor as nat;
            assert(c % (size as nat) < (size as nat)) by (nonlinear_arith)
                requires
                    size > 0,
            ;
        }
        self.cursor = if self.cursor == u64::MAX {
            0
        } else {
            self.cursor + 1
        };
        proof {
            let m = (u64::MAX + 1) as nat;
            if old(self).cursor == u64::MAX {
                vstd::arithmetic::div_mod::lemma_mod_self_0(m as int);
            } else {
                vstd::arithmetic::div_mod::lemma_small_mod((old(self).cursor + 1) as nat, m);
            }
        }
        r
    }
}

/// Number of times backend `target` is selected over `n` consecutive
/// dispatches whose first one sees cursor value `start`.
pub open spec fn selection_count(start: nat, n: nat, size: nat, target: nat) -> nat
    decreases n,
{
    if n == 0 {
        0
    } else {
        selection_count(start, (n - 1) as nat, size, target) + if rr_index(
            ((start + n) - 1) as nat,
            size,
        ) == target {
            1nat
        } else {
            0nat
        }
    }
}

/// Strict rotation: two dispatches less than a full cycle apart never
/// select the same backend, so no backend repeats until the whole
/// pool has been walked once.
pub proof fn lemma_no_repeat_within_cycle(start: nat, size: nat, i: nat, j: nat)
    requires
        size > 0,
        i < j,
        j - i < size,
    ensures
        rr_index(start + i, size) != rr_index(start + j, size),
{
    let a = (start + i) as int;
    let b = (start + j) as int;
    let s = size as int;
    vstd::arithmetic::div_mod::lemma_fundamental_div_mod(a, s);
    vstd::arithmetic::div_mod::lemma_fundamental_div_mod(b, s);
    if rr_index(start + i, size) == rr_index(start + j, size) {
        let qa = a / s;
        let qb = b / s;
        let ra = a % s;
        let rb = b % s;
        assert(ra == rb);
        assert(b - a == s * (qb - qa)) by (nonlinear_arith)
            requires
                a == s * qa + ra,
                b == s * qb + rb,
                ra == rb,
        ;
        assert(false) by (nonlinear_arith)
            requires
                b - a == s * (qb - qa),
                0 < b - a < s,
        ;
    }
}

/// The cursor hands out tickets: two dispatches less than a full
/// counter wrap apart never observe the same cursor value, so no two
/// of them are ever handed the same pre-increment counter.
pub proof fn lemma_distinct_cursor_values(start: nat, i: nat, j: nat)
    requires
        i < j,
        j - i < 0x1_0000_0000_0000_0000,
    ensures
        rr_index(start + i, 0x1_0000_0000_0000_0000) != rr_index(
            start + j,
            0x1_0000_0000_0000_0000,
        ),
{
    lemma_no_repeat_within_cycle(start, 0x1_0000_0000_0000_0000, i, j);
}

/// The indices a run of `n` dispatches selects, beginning at cursor
/// value `start`: each dispatch takes the next counter value modulo
/// the pool size.
pub open spec fn dispatch_sequence(start: nat, n: nat, size: nat) -> Seq<nat> {
    Seq::new(n, |i: int| rr_index((start + i) as nat, size))
}

/// Strict round-robin: a run of `n` dispatches beginning at cursor
/// value `start` selects the indices `start, start + 1, …,
/// start + n − 1`, each taken modulo the pool size, and within any
/// window shorter than one full cycle no index repeats.
pub proof fn lemma_round_robin_sequence(start: nat, n: nat, size: nat, i: int, j: int)
    requires
        size > 0,
        0 <= i < n,
        0 <= j < n,
    ensures
        dispatch_sequence(start, n, size)[i] == (start + i) % (size as int),
        i < j && j - i < size ==> dispatch_sequence(start, n, size)[i] != dispatch_sequence(
            start,
            n,
            size,
        )[j],
{
    if i < j && j - i < size {
        lemma_no_repeat_within_cycle(start, size, i as nat, j as nat);
    }
}

/// Offset, within one full cycle beginning at cursor value `start`,
/// of the dispatch that selects backend `target`.
pub open spec fn first_hit(start: nat, size: nat, target: nat) -> int
    recommends
        size > 0,
{
    ((target + size) - (start % size)) % (size as int)
}

/// Within one full cycle, backend `target` is selected exactly at its
/// `first_hit` offset.
pub proof fn lemma_hit_characterization(start: nat, size: nat, target: nat, i: nat)
    requires
        size > 0,
        target < size,
        i < size,
    ensures
        rr_index(start + i, size) == target <==> i == first_hit(start, size, target),
{
    let s = size as int;
    let r = (start % size) as int;
    let f = first_hit(start, size, target);
    let q = (start as int) / s;
    vstd::arithmetic::div_mod::lemma_fundamental_div_mod(start as int, s);
    vstd::arithmetic::div_mod::lemma_mod_bound(start as int, s);
    if r <= target {
        assert(f == target - r) by {
            vstd::arithmetic::div_mod::lemma_mod_add_multiples_vanish(target - r, s);
            vstd::arithmetic::div_mod::lemma_small_mod((target - r) as nat, size);
        };
        assert((q + 1) * s == q * s + s) by (nonlinear_arith);
        vstd::arithmetic::div_mod::lemma_fundamental_div_mod_converse_mod(
            (start + f) as int,
            s,
            q,
            target as int,
        );
    } else {
        assert(f == (target + s) - r) by {
            vstd::arithmetic::div_mod::lemma_small_mod(((target + s) - r) as nat, size);
        };
        assert((q + 1) * s == q * s + s) by (nonlinear_arith);
        vstd::arithmetic::div_mod::lemma_fundamental_div_mod_converse_mod(
            (start + f) as int,
            s,
            q + 1,
            target as int,
        );
    }
    assert(rr_index((start + f) as nat, size) == target);
    assert(0 <= f < s);
    if i != f {
        if i < f {
            lemma_no_repeat_within_cycle(start, size, i, f as nat);
        } else {
            lemma_no_repeat_within_cycle(start, size, f as nat, i);
        }
    }
}

/// Over a window of at most one cycle, a backend is selected at most
/// once: exactly once when its offset falls inside the window.
proof fn lemma_window_count(start: nat, n: nat, size: nat, target: nat)
    requires
        size > 0,
        target < size,
        n <= size,
    ensures
        selection_count(start, n, size, target) == if first_hit(start, size, target) < n {
            1int
        } else {
            0int
        },
    decreases n,
{
    if n > 0 {
        lemma_window_count(start, (n - 1) as nat, size, target);
        lemma_hit_characterization(start, size, target, (n - 1) as nat);
    }
}

/// One full cycle of dispatches selects every backend exactly once.
pub proof fn lemma_full_cycle(start: nat, size: nat, target: nat)
    requires
        size > 0,
        target < size,
    ensures
        selection_count(start, size, size, target) == 1,
{
    lemma_window_count(start, size, size, target);
}

/// Consecutive dispatches split into two runs, and their selection
/// counts add up.
proof fn lemma_count_split(start: nat, a: nat, b: nat, size: nat, target: nat)
    ensures
        selection_count(start, a + b, size, target) == selection_count(start, a, size, target)
            + selection_count(start + a, b, size, target),
    decreases b,
{
    if b > 0 {
        lemma_count_split(start, a, (b - 1) as nat, size, target);
        assert(((start + (a + b)) - 1) as nat == (((start + a) + b) - 1) as nat);
    }
}

/// Even distribution: over any `n` consecutive dispatches, each
/// backend is selected between ⌊n / size⌋ and ⌊n / size⌋ + 1 times,
/// so no two backends' counts ever drift more than one apart.
pub proof fn lemma_balanced_selection(start: nat, n: nat, size: nat, target: nat)
    requires
        size > 0,
        target < size,
    ensures
        n / size <= selection_count(start, n, size, target) <= n / size + 1,
    decreases n,
{
    if n < size {
        lemma_window_count(start, n, size, target);
        vstd::arithmetic::div_mod::lemma_basic_div(n as int, size as int);
    } else {
        let m = (n - size) as nat;
        lemma_count_split(start, size, m, size, target);
        lemma_full_cycle(start, size, target);
        lemma_balanced_selection(start + size, m, size, target);
        let s = size as int;
        let q = m as int / s;
        let r = m as int % s;
        vstd::arithmetic::div_mod::lemma_fundamental_div_mod(m as int, s);
        vstd::arithmetic::div_mod::lemma_mod_bound(m as int, s);
        assert((q + 1) * s == q * s + s) by (nonlinear_arith);
        vstd::arithmetic::div_mod::lemma_fundamental_div_mod_converse_div(n as int, s, q + 1, r);
        assert(n / size == q + 1);
    }
}

} // verus!
