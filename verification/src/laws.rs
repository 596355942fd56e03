//! The session laws: creating a buffer twice is the same as creating
//! it once, and buffer cycling is cyclic, with backward stepping the
//! exact inverse of forward stepping.

use vstd::prelude::*;
use crate::state::StateModel;

verus! {

/// Creating a buffer under a name it already has changes nothing, so a
/// second creation under the same name is a no-op: after it there is
/// still exactly one buffer with that name.
pub proof fn lemma_create_buffer_idempotent(m: StateModel, name: Seq<char>)
    ensures
        m.create_buffer(name).create_buffer(name) == m.create_buffer(name),
{
    let m1 = m.create_buffer(name);
    if !m.has_buffer(name) {
        assert(m1.buffers[m1.buffers.len() - 1].name == name);
    }
    assert(m1.has_buffer(name));
}

/// A position holding the current buffer's name pins the current
/// index: with unique names it is the position every lookup resolves
/// to.
proof fn lemma_current_index_at(m: StateModel, w: int)
    requires
        m.wf(),
        0 <= w < m.buffers.len(),
        m.buffers[w].name == m.current_buffer,
    ensures
        m.current_index() == w,
{
    let c = m.current_index();
    assert(0 <= c < m.buffers.len() && m.buffers[c].name == m.current_buffer);
    if c < w {
        assert(m.buffers[c].name != m.buffers[w].name);
    }
    if w < c {
        assert(m.buffers[w].name != m.buffers[c].name);
    }
}

/// What one forward step does to the current index, and that it
/// touches nothing else.
proof fn lemma_next_buffer_index(m: StateModel)
    requires
        m.wf(),
    ensures
        m.next_buffer().wf(),
        m.next_buffer().buffers == m.buffers,
        m.next_buffer().current_index() == (m.current_index() + 1) % (m.buffers.len() as int),
{
    let n = m.buffers.len() as int;
    let i = m.current_index();
    assert(0 <= i < n && m.buffers[i].name == m.current_buffer);
    let j = (i + 1) % n;
    vstd::arithmetic::div_mod::lemma_mod_bound(i + 1, n);
    let m1 = m.next_buffer();
    assert(m1.buffers == m.buffers);
    assert(m1.current_buffer == m.buffers[j].name);
    assert(m1.buffers[j].name == m1.current_buffer);
    assert(m1.has_buffer(m1.current_buffer));
    lemma_current_index_at(m1, j);
}

/// What one backward step does to the current index.
proof fn lemma_previous_buffer_index(m: StateModel)
    requires
        m.wf(),
    ensures
        m.previous_buffer().wf(),
        m.previous_buffer().buffers == m.buffers,
        m.previous_buffer().current_index() == (m.current_index() + m.buffers.len() - 1) % (
        m.buffers.len() as int),
{
    let n = m.buffers.len() as int;
    let i = m.current_index();
    assert(0 <= i < n && m.buffers[i].name == m.current_buffer);
    let j = (i + n - 1) % n;
    vstd::arithmetic::div_mod::lemma_mod_bound(i + n - 1, n);
    let m1 = m.previous_buffer();
    assert(m1.current_buffer == m.buffers[j].name);
    assert(m1.buffers[j].name == m1.current_buffer);
    assert(m1.has_buffer(m1.current_buffer));
    lemma_current_index_at(m1, j);
}

/// Congruence of addition under the modulus.
proof fn lemma_mod_add_one(a: int, n: int)
    requires
        n >= 1,
        a >= 0,
    ensures
        (a % n + 1) % n == (a + 1) % n,
{
    vstd::arithmetic::div_mod::lemma_mod_bound(a, n);
    if n == 1 {
        vstd::arithmetic::div_mod::lemma_mod_bound(a % n + 1, n);
        vstd::arithmetic::div_mod::lemma_mod_bound(a + 1, n);
    } else {
        vstd::arithmetic::div_mod::lemma_add_mod_noop(a, 1, n);
        vstd::arithmetic::div_mod::lemma_small_mod(1nat, n as nat);
    }
}

/// Stepping backward right after stepping forward restores the session
/// exactly; so does stepping forward right after stepping backward.
pub proof fn lemma_previous_inverts_next(m: StateModel)
    requires
        m.wf(),
    ensures
        m.next_buffer().previous_buffer() == m,
        m.previous_buffer().next_buffer() == m,
{
    let n = m.buffers.len() as int;
    let i = m.current_index();
    assert(0 <= i < n && m.buffers[i].name == m.current_buffer);

    lemma_next_buffer_index(m);
    let m1 = m.next_buffer();
    let m2 = m1.previous_buffer();
    assert(m2.current_buffer == m.buffers[((i + 1) % n + n - 1) % n].name);
    assert(((i + 1) % n + n - 1) % n == i) by {
        lemma_mod_add_steps(i + 1, n - 1, n);
        vstd::arithmetic::div_mod::lemma_mod_multiples_vanish(1, i, n);
        vstd::arithmetic::div_mod::lemma_small_mod(i as nat, n as nat);
    }
    assert(m2 =~= m);

    lemma_previous_buffer_index(m);
    let b1 = m.previous_buffer();
    let b2 = b1.next_buffer();
    assert(b2.current_buffer == m.buffers[((i + n - 1) % n + 1) % n].name);
    assert(((i + n - 1) % n + 1) % n == i) by {
        lemma_mod_add_one(i + n - 1, n);
        vstd::arithmetic::div_mod::lemma_mod_multiples_vanish(1, i, n);
        vstd::arithmetic::div_mod::lemma_small_mod(i as nat, n as nat);
    }
    assert(b2 =~= m);
}

/// Congruence of addition under the modulus, for several steps.
proof fn lemma_mod_add_steps(a: int, k: int, n: int)
    requires
        n >= 1,
        a >= 0,
        k >= 0,
    ensures
        (a % n + k) % n == (a + k) % n,
{
    vstd::arithmetic::div_mod::lemma_mod_bound(a, n);
    vstd::arithmetic::div_mod::lemma_small_mod((a % n) as nat, n as nat);
    vstd::arithmetic::div_mod::lemma_add_mod_noop(a, k, n);
    vstd::arithmetic::div_mod::lemma_add_mod_noop(a % n, k, n);
}

/// `k` forward steps from a session state.
pub open spec fn spec_next_k(m: StateModel, k: nat) -> StateModel
    decreases k,
{
    if k == 0 {
        m
    } else {
        spec_next_k(m, (k - 1) as nat).next_buffer()
    }
}

/// Where `k` forward steps land: `k` further along, cyclically.
proof fn lemma_next_k_index(m: StateModel, k: nat)
    requires
        m.wf(),
    ensures
        spec_next_k(m, k).wf(),
        spec_next_k(m, k).buffers == m.buffers,
        spec_next_k(m, k).current_index() == (m.current_index() + k) % (m.buffers.len() as int),
    decreases k,
{
    let n = m.buffers.len() as int;
    let i = m.current_index();
    assert(0 <= i < n && m.buffers[i].name == m.current_buffer);
    if k == 0 {
        vstd::arithmetic::div_mod::lemma_small_mod(i as nat, n as nat);
    } else {
        lemma_next_k_index(m, (k - 1) as nat);
        let mk = spec_next_k(m, (k - 1) as nat);
        lemma_next_buffer_index(mk);
        lemma_mod_add_one(i + k - 1, n);
    }
}

/// Buffer cycling is cyclic: with `N` buffers, `N` forward steps
/// return to the buffer the session started on.
pub proof fn lemma_next_buffer_cycles(m: StateModel)
    requires
        m.wf(),
    ensures
        spec_next_k(m, m.buffers.len()).current_buffer == m.current_buffer,
{
    let n = m.buffers.len() as int;
    let i = m.current_index();
    assert(0 <= i < n && m.buffers[i].name == m.current_buffer);
    lemma_next_k_index(m, m.buffers.len());
    assert((i + n) % n == i) by {
        vstd::arithmetic::div_mod::lemma_mod_multiples_vanish(1, i, n);
        vstd::arithmetic::div_mod::lemma_small_mod(i as nat, n as nat);
    }
    let mk = spec_next_k(m, m.buffers.len());
    assert(mk.buffers[mk.current_index()].name == mk.current_buffer);
}

} // verus!
