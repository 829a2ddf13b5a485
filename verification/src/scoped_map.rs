//! The scoped symbol table: an ordered stack of lexical frames mapping a
//! symbol to the [`Name`] its binding occurrence received.
//!
//! A table always holds at least one frame, the base (module-level) frame.
//! `enter_scope` pushes an empty frame, `exit_scope` pops the innermost
//! pushed frame, and `insert` writes into the innermost frame only, so an
//! inner binding shadows an outer one of the same symbol for exactly the
//! lifetime of its frame. Lookup scans frames innermost to outermost.

use vstd::prelude::*;

use crate::ast::Name;
use crate::ast::Symbol;

verus! {

broadcast use {vstd::seq::group_seq_axioms, vstd::std_specs::vec::group_vec_axioms};

/// The mapping that a single frame's entry list denotes: later entries win.
pub open spec fn frame_map(entries: Seq<(Symbol, Name)>) -> Map<Symbol, Name>
    decreases entries.len(),
{
    if entries.len() == 0 {
        Map::empty()
    } else {
        frame_map(entries.drop_last()).insert(entries.last().0, entries.last().1)
    }
}

/// Lookup over a stack of frames: the entry of the innermost frame that
/// contains the symbol, or `None` when no frame does.
pub open spec fn stack_lookup(frames: Seq<Map<Symbol, Name>>, s: Symbol) -> Option<Name>
    decreases frames.len(),
{
    if frames.len() == 0 {
        None
    } else if frames.last().dom().contains(s) {
        Some(frames.last()[s])
    } else {
        stack_lookup(frames.drop_last(), s)
    }
}

/// Backward scan of one frame's entry list: the most recent entry wins.
pub open spec fn scan_entries(entries: Seq<(Symbol, Name)>, s: Symbol) -> Option<Name>
    decreases entries.len(),
{
    if entries.len() == 0 {
        None
    } else if entries.last().0 == s {
        Some(entries.last().1)
    } else {
        scan_entries(entries.drop_last(), s)
    }
}

/// A backward scan of an entry list agrees with the mapping it denotes.
pub proof fn lemma_scan_is_frame_map(entries: Seq<(Symbol, Name)>, s: Symbol)
    ensures
        scan_entries(entries, s) == (if frame_map(entries).dom().contains(s) {
            Some(frame_map(entries)[s])
        } else {
            None::<Name>
        }),
    decreases entries.len(),
{
    if entries.len() > 0 {
        lemma_scan_is_frame_map(entries.drop_last(), s);
    }
}

/// The scoped symbol table. Its model is the stack of frame mappings,
/// outermost first; it is never empty.
pub struct ScopedMap {
    frames: Vec<Vec<(Symbol, Name)>>,
}

impl View for ScopedMap {
    type V = Seq<Map<Symbol, Name>>;

    closed spec fn view(&self) -> Seq<Map<Symbol, Name>> {
        self.frames@.map_values(|f: Vec<(Symbol, Name)>| frame_map(f@))
    }
}

impl ScopedMap {
    /// A fresh table: one empty base frame.
    pub fn new() -> (r: ScopedMap)
        ensures
            r@ =~= seq![Map::<Symbol, Name>::empty()],
    {
        let mut frames: Vec<Vec<(Symbol, Name)>> = Vec::new();
        frames.push(Vec::new());
        let r = ScopedMap { frames };
        proof {
            assert(r@ =~= seq![Map::<Symbol, Name>::empty()]);
        }
        r
    }

    /// Push an empty frame; bindings inserted from now on shadow older ones
    /// until the matching `exit_scope`.
    pub fn enter_scope(&mut self)
        ensures
            final(self)@ =~= old(self)@.push(Map::empty()),
    {
        self.frames.push(Vec::new());
        proof {
            assert(self@ =~= old(self)@.push(Map::empty()));
        }
    }

    /// Pop the innermost pushed frame, discarding its entries. The base
    /// frame cannot be popped: every `exit_scope` must pair with an
    /// `enter_scope`.
    pub fn exit_scope(&mut self)
        requires
            old(self)@.len() >= 2,
        ensures
            final(self)@ =~= old(self)@.drop_last(),
    {
        self.frames.pop();
        proof {
            assert(self@ =~= old(self)@.drop_last());
        }
    }

    /// Add or overwrite an entry in the innermost frame only.
    pub fn insert(&mut self, s: Symbol, n: Name)
        requires
            old(self)@.len() >= 1,
        ensures
            final(self)@ =~= old(self)@.update(
                old(self)@.len() - 1,
                old(self)@.last().insert(s, n),
            ),
    {
        let ghost pre = self@;
        let mut top = match self.frames.pop() {
            Some(t) => t,
            None => Vec::new(),
        };
        top.push((s, n));
        self.frames.push(top);
        proof {
            assert(frame_map(top@) == frame_map(top@.drop_last()).insert(s, n));
            assert(top@.drop_last() =~= old(self).frames@.last()@);
            assert(self@ =~= pre.update(pre.len() - 1, pre.last().insert(s, n)));
        }
    }

    /// Scan frames innermost to outermost and return the first entry for
    /// the symbol, or `None` when no frame binds it.
    pub fn find(&self, s: Symbol) -> (r: Option<Name>)
        ensures
            r == stack_lookup(self@, s),
    {
        proof {
            assert(self@.take(self@.len() as int) =~= self@);
        }
        let mut i: usize = self.frames.len();
        while i > 0
            invariant
                i <= self.frames.len(),
                stack_lookup(self@, s) == stack_lookup(self@.take(i as int), s),
            decreases i,
        {
            i = i - 1;
            let frame = &self.frames[i];
            proof {
                assert(frame@.take(frame@.len() as int) =~= frame@);
            }
            let mut j: usize = frame.len();
            while j > 0
                invariant
                    j <= frame@.len(),
                    frame@ == self.frames@[i as int]@,
                    i < self.frames.len(),
                    stack_lookup(self@, s) == stack_lookup(self@.take(i as int + 1), s),
                    scan_entries(frame@, s) == scan_entries(frame@.take(j as int), s),
                decreases j,
            {
                j = j - 1;
                let entry = frame[j];
                if entry.0 == s {
                    proof {
                        assert(frame@.take(j as int + 1).last() == frame@[j as int]);
                        assert(scan_entries(frame@.take(j as int + 1), s)
                            == Some(frame@[j as int].1));
                        assert(scan_entries(frame@, s) == Some(frame@[j as int].1));
                        lemma_scan_is_frame_map(frame@, s);
                        assert(frame_map(frame@).dom().contains(s));
                        assert(frame_map(frame@)[s] == entry.1);
                        assert(self@[i as int] == frame_map(frame@));
                        assert(self@.take(i as int + 1).last() == self@[i as int]);
                        assert(stack_lookup(self@.take(i as int + 1), s) == Some(entry.1));
                        assert(stack_lookup(self@, s) == Some(entry.1));
                    }
                    return Some(entry.1);
                }
                proof {
                    assert(frame@.take(j as int + 1).drop_last() =~= frame@.take(j as int));
                    assert(frame@.take(j as int + 1).last() == frame@[j as int]);
                }
            }
            proof {
                assert(frame@.take(0) =~= Seq::<(Symbol, Name)>::empty());
                lemma_scan_is_frame_map(frame@, s);
                assert(!frame_map(frame@).dom().contains(s));
                assert(self@[i as int] == frame_map(frame@));
                assert(self@.take(i as int + 1).drop_last() =~= self@.take(i as int));
                assert(self@.take(i as int + 1).last() == self@[i as int]);
            }
        }
        proof {
            assert(self@.take(0) =~= Seq::<Map<Symbol, Name>>::empty());
        }
        None
    }
}

} // verus!
