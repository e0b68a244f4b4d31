//! The command registry: a name-to-handler table.  Command registrations
//! queue up as (name, handler) pairs; one startup drain moves them, names
//! upper-cased at enqueue time, into the live table, which is read-only
//! afterwards.  A duplicate name silently overwrites: the last drained wins.

use vstd::prelude::*;

use crate::ascii::{ascii_upper, bytes_eq, to_upper};

verus! {

/// A reference to one of the built-in command implementations.
#[derive(Debug, PartialEq, Eq, Structural, Clone, Copy)]
pub enum CommandHandler {
    Ping,
    Get,
    SetCmd,
    GetSet,
    GetRange,
}

/// The name-to-handler map that an entry list denotes: a later entry
/// overrides an earlier one with the same name.
pub open spec fn assoc_map(s: Seq<(Seq<u8>, CommandHandler)>) -> Map<Seq<u8>, CommandHandler>
    decreases s.len(),
{
    if s.len() == 0 {
        Map::empty()
    } else {
        assoc_map(s.drop_last()).insert(s.last().0, s.last().1)
    }
}

proof fn lemma_assoc_none(s: Seq<(Seq<u8>, CommandHandler)>, k: Seq<u8>)
    requires
        forall|j: int| 0 <= j < s.len() ==> (#[trigger] s[j]).0 != k,
    ensures
        !assoc_map(s).dom().contains(k),
    decreases s.len(),
{
    if s.len() > 0 {
        assert(forall|j: int| 0 <= j < s.len() - 1 ==> (#[trigger] s.drop_last()[j]).0 == s[j].0);
        lemma_assoc_none(s.drop_last(), k);
        assert(s.last().0 != k);
    }
}

proof fn lemma_assoc_at(s: Seq<(Seq<u8>, CommandHandler)>, k: Seq<u8>, i: int)
    requires
        0 <= i < s.len(),
        s[i].0 == k,
        forall|j: int| i < j < s.len() ==> (#[trigger] s[j]).0 != k,
    ensures
        assoc_map(s).dom().contains(k),
        assoc_map(s)[k] == s[i].1,
    decreases s.len(),
{
    if i == s.len() - 1 {
        assert(s.last() == s[i]);
    } else {
        assert(forall|j: int| 0 <= j < s.len() - 1 ==> #[trigger] s.drop_last()[j] == s[j]);
        lemma_assoc_at(s.drop_last(), k, i);
        assert(s.last().0 != k);
    }
}

/// The mathematical shape of an entry list.
pub open spec fn entries_view(s: Seq<(Vec<u8>, CommandHandler)>) -> Seq<(Seq<u8>, CommandHandler)> {
    s.map_values(|e: (Vec<u8>, CommandHandler)| (e.0@, e.1))
}

/// The registry: the pending-registration queue and the live table.
pub struct Registry {
    pending: Vec<(Vec<u8>, CommandHandler)>,
    table: Vec<(Vec<u8>, CommandHandler)>,
}

impl Registry {
    /// The queued registrations, in enqueue order, names upper-cased.
    pub closed spec fn spec_pending(self) -> Seq<(Seq<u8>, CommandHandler)> {
        entries_view(self.pending@)
    }

    /// The drained entries, in drain order.
    pub closed spec fn spec_entries(self) -> Seq<(Seq<u8>, CommandHandler)> {
        entries_view(self.table@)
    }

    /// The live name-to-handler table.
    pub open spec fn spec_table(self) -> Map<Seq<u8>, CommandHandler> {
        assoc_map(self.spec_entries())
    }

    /// An empty registry: nothing queued, nothing live.
    pub fn new() -> (r: Registry)
        ensures
            (r.spec_pending() == Seq::<(Seq<u8>, CommandHandler)>::empty()),
            (r.spec_entries() == Seq::<(Seq<u8>, CommandHandler)>::empty()),
    {
        let r = Registry { pending: Vec::new(), table: Vec::new() };
        proof {
            assert(r.spec_pending() =~= Seq::<(Seq<u8>, CommandHandler)>::empty());
            assert(r.spec_entries() =~= Seq::<(Seq<u8>, CommandHandler)>::empty());
        }
        r
    }

    /// Queues one registration; the name is upper-cased here, at enqueue
    /// time.  The live table is untouched.
    pub fn en_register_queue(&mut self, cmd: &Vec<u8>, handler: CommandHandler)
        ensures
            final(self).spec_pending() == old(self).spec_pending().push(
                (ascii_upper(cmd@), handler),
            ),
            final(self).spec_entries() == old(self).spec_entries(),
    {
        let up = to_upper(cmd);
        self.pending.push((up, handler));
        proof {
            assert(self.spec_pending() =~= old(self).spec_pending().push(
                (ascii_upper(cmd@), handler),
            ));
        }
    }

    /// Drains the queue, in order, into the live table; after the drain the
    /// queue is empty and the table is meant to be read-only.
    pub fn do_register(&mut self)
        ensures
            final(self).spec_entries() == old(self).spec_entries() + old(self).spec_pending(),
            (final(self).spec_pending() == Seq::<(Seq<u8>, CommandHandler)>::empty()),
    {
        let ghost pend0 = self.spec_pending();
        let ghost ent0 = self.spec_entries();
        while self.pending.len() > 0
            invariant
                entries_view(self.pending@) == pend0.skip(
                    pend0.len() - self.pending@.len() as int,
                ),
                self.pending@.len() <= pend0.len(),
                entries_view(self.table@) == ent0 + pend0.take(
                    pend0.len() - self.pending@.len() as int,
                ),
            decreases self.pending@.len(),
        {
            let ghost j = pend0.len() - self.pending@.len() as int;
            let ghost pen_before = self.pending@;
            let ghost tab_before = self.table@;
            let e = self.pending.remove(0);
            self.table.push(e);
            proof {
                assert(self.pending@ =~= pen_before.drop_first());
                assert(self.table@ =~= tab_before.push(e));
                assert(entries_view(pen_before)[0] == pend0.skip(j)[0]);
                assert(pend0.skip(j)[0] == pend0[j]);
                assert(entries_view(self.pending@) =~= pend0.skip(j + 1)) by {
                    assert(forall|m: int| 0 <= m < pen_before.len() - 1 ==> #[trigger] entries_view(
                        self.pending@,
                    )[m] == entries_view(pen_before)[m + 1]);
                }
                assert(entries_view(self.table@) =~= ent0 + pend0.take(j + 1)) by {
                    assert(entries_view(self.table@).len() == self.table@.len());
                    assert(entries_view(tab_before).len() == tab_before.len());
                    assert(entries_view(tab_before) == ent0 + pend0.take(j));
                    assert(forall|m: int| 0 <= m < tab_before.len() ==> #[trigger] entries_view(
                        self.table@,
                    )[m] == entries_view(tab_before)[m]);
                    assert(entries_view(self.table@)[tab_before.len() as int] == (e.0@, e.1));
                    assert((e.0@, e.1) == entries_view(pen_before)[0]);
                    assert(entries_view(pen_before)[0] == pend0[j]);
                    assert(forall|m: int| 0 <= m < j + 1 ==> #[trigger] pend0.take(j + 1)[m]
                        == pend0[m]);
                    assert(forall|m: int| 0 <= m < j ==> #[trigger] pend0.take(j)[m] == pend0[m]);
                }
            }
        }
        proof {
            assert(entries_view(self.pending@) =~= Seq::<(Seq<u8>, CommandHandler)>::empty());
            assert(pend0.take(pend0.len() as int) =~= pend0);
        }
    }

    /// Looks the (upper-cased) name up in the live table.
    pub fn lookup(&self, name: &Vec<u8>) -> (r: Option<CommandHandler>)
        ensures
            r == if self.spec_table().dom().contains(name@) {
                Some(self.spec_table()[name@])
            } else {
                None::<CommandHandler>
            },
    {
        let ghost ents = self.spec_entries();
        let mut i: usize = self.table.len();
        while i > 0
            invariant
                i <= self.table@.len(),
                ents == self.spec_entries(),
                forall|j: int| i <= j < ents.len() ==> (#[trigger] ents[j]).0 != name@,
            decreases i,
        {
            i = i - 1;
            if bytes_eq(&self.table[i].0, name) {
                proof {
                    assert(ents[i as int].0 == name@);
                    lemma_assoc_at(ents, name@, i as int);
                }
                return Some(self.table[i].1);
            }
            proof {
                assert(ents[i as int].0 != name@);
            }
        }
        proof {
            lemma_assoc_none(ents, name@);
        }
        None
    }
}

} // verus!
