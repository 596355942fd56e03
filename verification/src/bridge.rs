//! The scripting bridge's handler registry: named events, each with an
//! ordered list of registered handlers. Registration appends; emission
//! dispatches to the first registered handler only — deliberate
//! single-dispatch semantics, not a broadcast.
//!
//! Handlers are opaque tokens here; the host keeps the callable values
//! they stand for and invokes the one this registry picks.

use vstd::prelude::*;

verus! {

/// The registry: one entry per event name, in first-registration
/// order, each holding the handlers registered under that name.
pub struct HandlerRegistry {
    pub entries: Vec<(String, Vec<u64>)>,
}

impl View for HandlerRegistry {
    type V = Seq<(Seq<char>, Seq<u64>)>;

    open spec fn view(&self) -> Seq<(Seq<char>, Seq<u64>)> {
        self.entries@.map(|i: int, e: (String, Vec<u64>)| (e.0@, e.1@))
    }
}

/// Event names are registered at most once each.
pub open spec fn spec_registry_wf(m: Seq<(Seq<char>, Seq<u64>)>) -> bool {
    forall|i: int, j: int| 0 <= i < j < m.len() ==> (#[trigger] m[i]).0 != (#[trigger] m[j]).0
}

/// The handlers registered under a name, in registration order.
pub open spec fn spec_handlers_of(m: Seq<(Seq<char>, Seq<u64>)>, name: Seq<char>) -> Seq<u64> {
    if exists|i: int| 0 <= i < m.len() && (#[trigger] m[i]).0 == name {
        m[choose|i: int| 0 <= i < m.len() && (#[trigger] m[i]).0 == name].1
    } else {
        Seq::empty()
    }
}

/// Registration: append to the name's handler list, creating the entry
/// on first registration.
pub open spec fn spec_on(m: Seq<(Seq<char>, Seq<u64>)>, name: Seq<char>, handler: u64) -> Seq<
    (Seq<char>, Seq<u64>),
> {
    if exists|i: int| 0 <= i < m.len() && (#[trigger] m[i]).0 == name {
        let k = choose|i: int| 0 <= i < m.len() && (#[trigger] m[i]).0 == name;
        m.update(k, (name, m[k].1.push(handler)))
    } else {
        m.push((name, seq![handler]))
    }
}

/// Emission dispatches to the first handler registered under the name,
/// or to none at all.
pub open spec fn spec_emit(m: Seq<(Seq<char>, Seq<u64>)>, name: Seq<char>) -> Option<u64> {
    let hs = spec_handlers_of(m, name);
    if hs.len() > 0 {
        Some(hs[0])
    } else {
        None
    }
}

impl HandlerRegistry {
    pub fn new() -> (r: HandlerRegistry)
        ensures
            r@ == Seq::<(Seq<char>, Seq<u64>)>::empty(),
            spec_registry_wf(r@),
    {
        let r = HandlerRegistry { entries: Vec::new() };
        proof {
            assert(r@ =~= Seq::<(Seq<char>, Seq<u64>)>::empty());
        }
        r
    }

    /// The position of the entry for this name, if one exists.
    fn find_entry(&self, name: &str) -> (r: Option<usize>)
        ensures
            match r {
                Some(i) => 0 <= i < self@.len() && self@[i as int].0 == name@,
                None => !exists|i: int| 0 <= i < self@.len() && (#[trigger] self@[i]).0 == name@,
            },
    {
        let n = self.entries.len();
        let mut i: usize = 0;
        while i < n
            invariant
                n == self.entries@.len(),
                self@.len() == n,
                0 <= i <= n,
                forall|j: int| 0 <= j < i ==> (#[trigger] self@[j]).0 != name@,
            decreases n - i,
        {
            if crate::text::str_eq(self.entries[i].0.as_str(), name) {
                return Some(i);
            }
            i = i + 1;
        }
        None
    }

    /// Registers a handler under an event name; handlers under one name
    /// keep their registration order.
    pub fn on(&mut self, name: &str, handler: u64)
        requires
            spec_registry_wf(old(self)@),
        ensures
            final(self)@ == spec_on(old(self)@, name@, handler),
            spec_registry_wf(final(self)@),
            spec_handlers_of(final(self)@, name@) == spec_handlers_of(old(self)@, name@).push(
                handler,
            ),
            forall|other: Seq<char>|
                other != name@ ==> #[trigger] spec_handlers_of(final(self)@, other)
                    == spec_handlers_of(old(self)@, other),
    {
        let entry = self.find_entry(name);
        match entry {
            Some(i) => {
                proof {
                    let c = choose|j: int|
                        0 <= j < old(self)@.len() && (#[trigger] old(self)@[j]).0 == name@;
                    if c < (i as int) {
                        assert(old(self)@[c].0 != old(self)@[i as int].0);
                    }
                    if (i as int) < c {
                        assert(old(self)@[i as int].0 != old(self)@[c].0);
                    }
                }
                let e = &mut self.entries[i];
                e.1.push(handler);
            },
            None => {
                let mut handlers: Vec<u64> = Vec::new();
                handlers.push(handler);
                self.entries.push((name.to_owned(), handlers));
            },
        }
        proof {
            assert(final(self)@ =~= spec_on(old(self)@, name@, handler));
            lemma_on_effect(old(self)@, name@, handler);
        }
    }

    /// The handler an emission under this name dispatches to: the first
    /// registered one, or none. The others stay dormant.
    pub fn emit_target(&self, name: &str) -> (r: Option<u64>)
        requires
            spec_registry_wf(self@),
        ensures
            r == spec_emit(self@, name@),
    {
        let entry = self.find_entry(name);
        match entry {
            Some(i) => {
                proof {
                    let c = choose|j: int|
                        0 <= j < self@.len() && (#[trigger] self@[j]).0 == name@;
                    if c < (i as int) {
                        assert(self@[c].0 != self@[i as int].0);
                    }
                    if (i as int) < c {
                        assert(self@[i as int].0 != self@[c].0);
                    }
                }
                if self.entries[i].1.len() > 0 {
                    Some(self.entries[i].1[0])
                } else {
                    None
                }
            },
            None => None,
        }
    }
}

/// Whether the registry has an entry under this name.
pub open spec fn spec_has_entry(m: Seq<(Seq<char>, Seq<u64>)>, name: Seq<char>) -> bool {
    exists|i: int| 0 <= i < m.len() && (#[trigger] m[i]).0 == name
}

/// A position holding this name pins down the entry: with unique names
/// it is the position every lookup resolves to.
pub proof fn lemma_entry_at(m: Seq<(Seq<char>, Seq<u64>)>, name: Seq<char>, w: int)
    requires
        spec_registry_wf(m),
        0 <= w < m.len(),
        m[w].0 == name,
    ensures
        spec_has_entry(m, name),
        spec_handlers_of(m, name) == m[w].1,
{
    assert(spec_has_entry(m, name));
    let c = choose|i: int| 0 <= i < m.len() && (#[trigger] m[i]).0 == name;
    if c < w {
        assert(m[c].0 != m[w].0);
    }
    if w < c {
        assert(m[w].0 != m[c].0);
    }
    assert(c == w);
}

/// A name nowhere in the registry has no handlers.
pub proof fn lemma_no_entry(m: Seq<(Seq<char>, Seq<u64>)>, name: Seq<char>)
    requires
        !spec_has_entry(m, name),
    ensures
        spec_handlers_of(m, name) == Seq::<u64>::empty(),
{
}

/// What one registration does to the lists: the name's own list grows
/// at the end, every other list stays as it was, and uniqueness of
/// names is preserved.
pub proof fn lemma_on_effect(m: Seq<(Seq<char>, Seq<u64>)>, name: Seq<char>, handler: u64)
    requires
        spec_registry_wf(m),
    ensures
        spec_registry_wf(spec_on(m, name, handler)),
        spec_handlers_of(spec_on(m, name, handler), name) == spec_handlers_of(m, name).push(
            handler,
        ),
        forall|other: Seq<char>|
            other != name ==> #[trigger] spec_handlers_of(spec_on(m, name, handler), other)
                == spec_handlers_of(m, other),
{
    let m1 = spec_on(m, name, handler);
    if spec_has_entry(m, name) {
        let k = choose|i: int| 0 <= i < m.len() && (#[trigger] m[i]).0 == name;
        lemma_entry_at(m, name, k);
        assert(m1 == m.update(k, (name, m[k].1.push(handler))));
        assert forall|i: int, j: int| 0 <= i < j < m1.len() implies (#[trigger] m1[i]).0 != (
        #[trigger] m1[j]).0 by {
            assert(m1[i].0 == m[i].0);
            assert(m1[j].0 == m[j].0);
        }
        assert(m1[k].0 == name);
        lemma_entry_at(m1, name, k);
        assert(spec_handlers_of(m1, name) == m[k].1.push(handler));
        assert forall|other: Seq<char>| other != name implies #[trigger] spec_handlers_of(
            m1,
            other,
        ) == spec_handlers_of(m, other) by {
            if spec_has_entry(m, other) {
                let w = choose|i: int| 0 <= i < m.len() && (#[trigger] m[i]).0 == other;
                lemma_entry_at(m, other, w);
                assert(w != k);
                assert(m1[w] == m[w]);
                lemma_entry_at(m1, other, w);
            } else {
                assert forall|i: int| 0 <= i < m1.len() implies (#[trigger] m1[i]).0
                    != other by {
                    assert(m1[i].0 == m[i].0);
                }
                assert(!spec_has_entry(m1, other));
                lemma_no_entry(m, other);
                lemma_no_entry(m1, other);
            }
        }
    } else {
        assert(m1 == m.push((name, seq![handler])));
        let last = m.len() as int;
        assert forall|i: int, j: int| 0 <= i < j < m1.len() implies (#[trigger] m1[i]).0 != (
        #[trigger] m1[j]).0 by {
            if j == last {
                assert(m1[i] == m[i]);
                assert(m[i].0 != name);
            } else {
                assert(m1[i] == m[i]);
                assert(m1[j] == m[j]);
            }
        }
        assert(m1[last].0 == name);
        lemma_entry_at(m1, name, last);
        assert(spec_handlers_of(m1, name) == seq![handler]);
        lemma_no_entry(m, name);
        assert(spec_handlers_of(m1, name) =~= spec_handlers_of(m, name).push(handler));
        assert forall|other: Seq<char>| other != name implies #[trigger] spec_handlers_of(
            m1,
            other,
        ) == spec_handlers_of(m, other) by {
            if spec_has_entry(m, other) {
                let w = choose|i: int| 0 <= i < m.len() && (#[trigger] m[i]).0 == other;
                lemma_entry_at(m, other, w);
                assert(m1[w] == m[w]);
                lemma_entry_at(m1, other, w);
            } else {
                assert forall|i: int| 0 <= i < m1.len() implies (#[trigger] m1[i]).0
                    != other by {
                    if i < last {
                        assert(m1[i] == m[i]);
                    }
                }
                assert(!spec_has_entry(m1, other));
                lemma_no_entry(m, other);
                lemma_no_entry(m1, other);
            }
        }
    }
}

/// The single-dispatch law: once a name has a handler, registering
/// another under the same name never changes which handler an emission
/// invokes; and a first registration makes emission invoke exactly the
/// handler just registered.
pub proof fn lemma_single_dispatch(m: Seq<(Seq<char>, Seq<u64>)>, name: Seq<char>, handler: u64)
    requires
        spec_registry_wf(m),
    ensures
        spec_handlers_of(m, name).len() > 0 ==> spec_emit(spec_on(m, name, handler), name)
            == spec_emit(m, name),
        spec_handlers_of(m, name).len() == 0 ==> spec_emit(spec_on(m, name, handler), name)
            == Some(handler),
        forall|other: Seq<char>|
            other != name ==> #[trigger] spec_emit(spec_on(m, name, handler), other) == spec_emit(
                m,
                other,
            ),
{
    lemma_on_effect(m, name, handler);
    let hs0 = spec_handlers_of(m, name);
    let hs1 = spec_handlers_of(spec_on(m, name, handler), name);
    assert(hs1 == hs0.push(handler));
    if hs0.len() > 0 {
        assert(hs1[0] == hs0[0]);
    } else {
        assert(hs1[0] == handler);
    }
}

} // verus!
