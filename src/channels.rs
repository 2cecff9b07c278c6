//! The table of live connections and their outbound handles.

use vstd::prelude::*;

verus! {

/// The table of live connections: each connection's address with the
/// handle that pushes frames to it. An address occurs at most once.
pub struct Channels<T> {
    pub list: Vec<(String, T)>,
}

/// No two entries carry the same address.
pub open spec fn addrs_unique<T>(s: Seq<(String, T)>) -> bool {
    forall|i: int, j: int|
        0 <= i < s.len() && 0 <= j < s.len() && i != j ==> #[trigger] s[i].0@ != #[trigger] s[j].0@
}

/// Some entry carries the address `a`.
pub open spec fn has_channel<T>(s: Seq<(String, T)>, a: Seq<char>) -> bool {
    exists|i: int| 0 <= i < s.len() && #[trigger] s[i].0@ == a
}

/// The position of the entry for address `a`, where there is one.
pub open spec fn index_of_channel<T>(s: Seq<(String, T)>, a: Seq<char>) -> int {
    choose|i: int| 0 <= i < s.len() && #[trigger] s[i].0@ == a
}

/// The table after a connection from `a` opens: an entry of that address is
/// replaced in place, otherwise the entry is appended.
pub open spec fn open_spec<T>(s: Seq<(String, T)>, a: String, tx: T) -> Seq<(String, T)> {
    if has_channel(s, a@) {
        s.update(index_of_channel(s, a@), (a, tx))
    } else {
        s.push((a, tx))
    }
}

/// The table without the entry for address `a`.
pub open spec fn close_spec<T>(s: Seq<(String, T)>, a: Seq<char>) -> Seq<(String, T)> {
    if has_channel(s, a) {
        s.remove(index_of_channel(s, a))
    } else {
        s
    }
}

impl<T> Channels<T> {
    /// The table's invariant: addresses are unique.
    pub open spec fn wf(&self) -> bool {
        addrs_unique(self.list@)
    }

    pub fn new() -> (r: Self)
        ensures
            r.list@ == Seq::<(String, T)>::empty(),
            r.wf(),
    {
        Channels { list: Vec::new() }
    }

    /// The position of the entry for `addr`.
    pub fn position(&self, addr: &String) -> (r: Option<usize>)
        ensures
            match r {
                Some(i) => i < self.list@.len() && self.list@[i as int].0@ == addr@,
                None => !has_channel(self.list@, addr@),
            },
    {
        let mut i: usize = 0;
        while i < self.list.len()
            invariant
                i <= self.list@.len(),
                forall|j: int| 0 <= j < i ==> #[trigger] self.list@[j].0@ != addr@,
            decreases self.list@.len() - i,
        {
            if self.list[i].0 == *addr {
                return Some(i);
            }
            i += 1;
        }
        None
    }

    /// Whether a connection from `addr` is live.
    pub fn contains(&self, addr: &String) -> (r: bool)
        ensures
            r == has_channel(self.list@, addr@),
    {
        self.position(addr).is_some()
    }

    /// The handle of the connection from `addr`.
    pub fn get(&self, addr: &String) -> (r: Option<&T>)
        requires
            self.wf(),
        ensures
            match r {
                Some(tx) => has_channel(self.list@, addr@) && *tx == self.list@[index_of_channel(
                    self.list@,
                    addr@,
                )].1,
                None => !has_channel(self.list@, addr@),
            },
    {
        match self.position(addr) {
            Some(i) => {
                proof {
                    assert(self.list@[index_of_channel(self.list@, addr@)].0@ == addr@);
                }
                Some(&self.list[i].1)
            },
            None => None,
        }
    }

    /// Records the handle of a newly opened connection from `addr`.
    pub fn insert(&mut self, addr: String, tx: T)
        requires
            old(self).wf(),
        ensures
            final(self).wf(),
            final(self).list@ == open_spec(old(self).list@, addr, tx),
    {
        match self.position(&addr) {
            Some(i) => {
                proof {
                    assert(self.list@[index_of_channel(self.list@, addr@)].0@ == addr@);
                }
                self.list.set(i, (addr, tx));
            },
            None => {
                self.list.push((addr, tx));
            },
        }
    }

    /// Forgets the connection from `addr`, handing back its handle.
    pub fn remove(&mut self, addr: &String) -> (r: Option<T>)
        requires
            old(self).wf(),
        ensures
            final(self).wf(),
            final(self).list@ == close_spec(old(self).list@, addr@),
            r == if has_channel(old(self).list@, addr@) {
                Some(old(self).list@[index_of_channel(old(self).list@, addr@)].1)
            } else {
                None
            },
    {
        match self.position(addr) {
            Some(i) => {
                proof {
                    assert(self.list@[index_of_channel(self.list@, addr@)].0@ == addr@);
                }
                let (_, tx) = self.list.remove(i);
                proof {
                    let s = old(self).list@;
                    let r = self.list@;
                    assert forall|a: int, b: int|
                        0 <= a < r.len() && 0 <= b < r.len() && a != b implies #[trigger] r[a].0@
                        != #[trigger] r[b].0@ by {
                        let a2 = if a < i { a } else { a + 1 };
                        let b2 = if b < i { b } else { b + 1 };
                        assert(r[a] == s[a2] && r[b] == s[b2]);
                    }
                }
                Some(tx)
            },
            None => None,
        }
    }
}

} // verus!
