//! A bounded, order-preserving log of past inputs with a browse cursor.

use vstd::prelude::*;

verus! {

/// Past command lines, oldest first, plus an optional cursor used while the
/// user steps back through them. The log never grows past `capacity`:
/// adding beyond it evicts the oldest entry. An entry equal to the most
/// recent one is suppressed, as is an empty entry.
pub struct CommandHistory {
    /// The retained entries, oldest first.
    pub entries: Vec<String>,
    /// The browse position; `None` means not browsing.
    pub cursor: Option<usize>,
    /// The largest number of entries kept.
    pub capacity: usize,
}

/// What the entry list becomes when `entry` is added: unchanged for an empty
/// entry or an immediate duplicate; otherwise appended, evicting the oldest
/// entry when the capacity is exceeded.
pub open spec fn history_add(entries: Seq<Seq<char>>, capacity: int, entry: Seq<char>) -> Seq<
    Seq<char>,
> {
    if entry.len() == 0 || (entries.len() > 0 && entries.last() == entry) {
        entries
    } else {
        let grown = entries.push(entry);
        if grown.len() > capacity {
            grown.drop_first()
        } else {
            grown
        }
    }
}

impl CommandHistory {
    /// The entries as character sequences.
    pub open spec fn view_entries(&self) -> Seq<Seq<char>> {
        self.entries.deep_view()
    }

    /// The cursor, when set, points at an entry.
    pub open spec fn wf(&self) -> bool {
        self.cursor matches Some(p) ==> p < self.entries@.len()
    }

    /// An empty history with the given capacity, not browsing.
    pub fn new(capacity: usize) -> (r: CommandHistory)
        ensures
            r.entries@.len() == 0,
            r.cursor is None,
            r.capacity == capacity,
            r.wf(),
    {
        CommandHistory { entries: Vec::new(), cursor: None, capacity }
    }

    /// Record one submitted line and stop browsing. An empty line and an
    /// immediate duplicate are suppressed; past the capacity, the oldest
    /// entry is evicted.
    pub fn add(&mut self, entry: String)
        ensures
            final(self).view_entries() == history_add(
                old(self).view_entries(),
                old(self).capacity as int,
                entry@,
            ),
            final(self).cursor is None,
            final(self).capacity == old(self).capacity,
            final(self).wf(),
    {
        proof {
            assert(old(self).view_entries().len() == old(self).entries@.len());
        }
        if entry.as_str().is_empty() {
            self.cursor = None;
            return ;
        }
        let n = self.entries.len();
        if n > 0 && self.entries[n - 1] == entry {
            proof {
                assert(old(self).view_entries().last() == old(self).entries@.last()@);
            }
            self.cursor = None;
            return ;
        }
        self.entries.push(entry);
        proof {
            assert(self.entries.deep_view() =~= old(self).view_entries().push(entry@));
        }
        if self.entries.len() > self.capacity {
            let ghost before = self.entries.deep_view();
            self.entries.remove(0);
            proof {
                assert(self.entries.deep_view() =~= before.drop_first());
            }
        }
        self.cursor = None;
    }

    /// Whether the user is browsing the history.
    pub fn is_browsing(&self) -> (r: bool)
        ensures
            r == (self.cursor is Some),
    {
        match self.cursor {
            Some(_) => true,
            None => false,
        }
    }

    /// Step to an older entry and return it. Browsing starts at the newest
    /// entry; at the oldest, the cursor stays put and the same entry is
    /// returned again. With no entries, nothing happens.
    pub fn up(&mut self) -> (r: Option<String>)
        requires
            old(self).wf(),
        ensures
            final(self).entries == old(self).entries,
            final(self).capacity == old(self).capacity,
            final(self).wf(),
            match old(self).cursor {
                None => {
                    if old(self).entries@.len() == 0 {
                        final(self).cursor is None && r is None
                    } else {
                        &&& final(self).cursor == Some((old(self).entries@.len() - 1) as usize)
                        &&& r == Some(old(self).entries@.last())
                    }
                },
                Some(p) => {
                    let q = if p > 0 {
                        (p - 1) as usize
                    } else {
                        0
                    };
                    final(self).cursor == Some(q) && r == Some(old(self).entries@[q as int])
                },
            },
    {
        match self.cursor {
            None => {
                if self.entries.len() == 0 {
                    return None;
                }
                let p = self.entries.len() - 1;
                self.cursor = Some(p);
                Some(self.entries[p].clone())
            },
            Some(p) => {
                let q = if p > 0 {
                    p - 1
                } else {
                    0
                };
                self.cursor = Some(q);
                Some(self.entries[q].clone())
            },
        }
    }

    /// Step to a newer entry and return it. At the newest entry, browsing
    /// ends and nothing is returned — the caller should clear its input.
    /// When not browsing, nothing happens.
    pub fn down(&mut self) -> (r: Option<String>)
        requires
            old(self).wf(),
        ensures
            final(self).entries == old(self).entries,
            final(self).capacity == old(self).capacity,
            final(self).wf(),
            match old(self).cursor {
                None => final(self).cursor is None && r is None,
                Some(p) => {
                    if p + 1 < old(self).entries@.len() {
                        &&& final(self).cursor == Some((p + 1) as usize)
                        &&& r == Some(old(self).entries@[p + 1])
                    } else {
                        final(self).cursor is None && r is None
                    }
                },
            },
    {
        match self.cursor {
            None => None,
            Some(p) => {
                let n = self.entries.len();
                proof {
                    assert(p < n);
                }
                if p + 1 < n {
                    self.cursor = Some(p + 1);
                    Some(self.entries[p + 1].clone())
                } else {
                    self.cursor = None;
                    None
                }
            },
        }
    }

    /// Stop browsing, leaving the entries alone.
    pub fn exit_browsing(&mut self)
        ensures
            final(self).entries == old(self).entries,
            final(self).capacity == old(self).capacity,
            final(self).cursor is None,
            final(self).wf(),
    {
        self.cursor = None;
    }
}

/// Law: the history never grows past its capacity, an immediate duplicate
/// leaves it unchanged, and adding at capacity evicts exactly the oldest
/// entry.
pub proof fn lemma_history_add_bounded(entries: Seq<Seq<char>>, capacity: int, entry: Seq<char>)
    requires
        entries.len() <= capacity,
    ensures
        history_add(entries, capacity, entry).len() <= capacity,
        entries.len() > 0 && entries.last() == entry ==> history_add(entries, capacity, entry)
            == entries,
        entry.len() > 0 && entries.len() == capacity && entries.len() > 0 && entries.last()
            != entry ==> history_add(entries, capacity, entry) == entries.drop_first().push(entry),
{
    if entry.len() == 0 || (entries.len() > 0 && entries.last() == entry) {
    } else {
        let grown = entries.push(entry);
        if grown.len() > capacity && entries.len() > 0 {
            assert(grown.drop_first() =~= entries.drop_first().push(entry));
        }
    }
}

} // verus!
