//! The registry of named peers and its presence report.

use vstd::prelude::*;
use crate::sdp::SessionDescription;

verus! {

/// What the server keeps of one registered peer: the address of its
/// connection and the last offer and answer addressed to it.
#[derive(Debug)]
pub struct Device {
    pub addr: String,
    pub offer: Option<SessionDescription>,
    pub answer: Option<SessionDescription>,
}

/// One registry entry: a peer's display name and its state.
pub type Entry = (String, Device);

/// The registry of named peers, in the order the names were first
/// registered. A name occurs at most once (see `wf`).
#[derive(Debug)]
pub struct Devices {
    pub list: Vec<Entry>,
}

/// A freshly registered peer: bound to `addr`, with no offer and no answer.
pub open spec fn fresh_device(addr: String) -> Device {
    Device { addr, offer: None, answer: None }
}

/// No two entries carry the same name.
pub open spec fn names_unique(s: Seq<Entry>) -> bool {
    forall|i: int, j: int|
        0 <= i < s.len() && 0 <= j < s.len() && i != j ==> #[trigger] s[i].0@ != #[trigger] s[j].0@
}

/// Some entry carries the name `n`.
pub open spec fn has_name(s: Seq<Entry>, n: Seq<char>) -> bool {
    exists|i: int| 0 <= i < s.len() && #[trigger] s[i].0@ == n
}

/// The position of the entry named `n`, where there is one.
pub open spec fn index_of_name(s: Seq<Entry>, n: Seq<char>) -> int {
    choose|i: int| 0 <= i < s.len() && #[trigger] s[i].0@ == n
}

/// The registry after `name` registers from `addr`: an entry of that name is
/// replaced in place by a fresh one, otherwise a fresh entry is appended.
pub open spec fn register_spec(s: Seq<Entry>, name: String, addr: String) -> Seq<Entry> {
    if has_name(s, name@) {
        s.update(index_of_name(s, name@), (name, fresh_device(addr)))
    } else {
        s.push((name, fresh_device(addr)))
    }
}

/// The registry without the entry named `n`.
pub open spec fn remove_spec(s: Seq<Entry>, n: Seq<char>) -> Seq<Entry> {
    if has_name(s, n) {
        s.remove(index_of_name(s, n))
    } else {
        s
    }
}

/// The registry without every entry bound to address `a`, order kept.
pub open spec fn without_addr(s: Seq<Entry>, a: Seq<char>) -> Seq<Entry>
    decreases s.len(),
{
    if s.len() == 0 {
        s
    } else {
        let rest = without_addr(s.drop_last(), a);
        if s.last().1.addr@ == a {
            rest
        } else {
            rest.push(s.last())
        }
    }
}

/// Some entry is bound to address `a`.
pub open spec fn has_addr(s: Seq<Entry>, a: Seq<char>) -> bool {
    exists|i: int| 0 <= i < s.len() && #[trigger] s[i].1.addr@ == a
}

/// The position of the first entry bound to address `a`, where there is one.
pub open spec fn first_with_addr(s: Seq<Entry>, a: Seq<char>) -> int {
    choose|i: int|
        0 <= i < s.len() && #[trigger] s[i].1.addr@ == a && forall|j: int|
            0 <= j < i ==> #[trigger] s[j].1.addr@ != a
}

/// Whatever `without_addr` keeps comes from `s` and is not bound to `a`.
pub proof fn lemma_without_addr_from(s: Seq<Entry>, a: Seq<char>)
    ensures
        forall|k: int|
            0 <= k < without_addr(s, a).len() ==> s.contains(#[trigger] without_addr(s, a)[k])
                && without_addr(s, a)[k].1.addr@ != a,
        names_unique(s) ==> names_unique(without_addr(s, a)),
        without_addr(s, a).len() <= s.len(),
    decreases s.len(),
{
    if s.len() > 0 {
        let rest = without_addr(s.drop_last(), a);
        lemma_without_addr_from(s.drop_last(), a);
        assert forall|k: int| 0 <= k < rest.len() implies s.contains(#[trigger] rest[k]) by {
            let j = choose|j: int| 0 <= j < s.drop_last().len() && s.drop_last()[j] == rest[k];
            assert(s[j] == rest[k]);
        }
        if s.last().1.addr@ != a && names_unique(s) {
            let r = rest.push(s.last());
            assert forall|i: int, j: int|
                0 <= i < r.len() && 0 <= j < r.len() && i != j implies #[trigger] r[i].0@
                != #[trigger] r[j].0@ by {
                if i < rest.len() && j < rest.len() {
                } else if i < rest.len() {
                    let m = choose|m: int|
                        0 <= m < s.drop_last().len() && s.drop_last()[m] == rest[i];
                    assert(s[m] == r[i]);
                    assert(s[s.len() - 1] == r[j]);
                } else {
                    let m = choose|m: int|
                        0 <= m < s.drop_last().len() && s.drop_last()[m] == rest[j];
                    assert(s[m] == r[j]);
                    assert(s[s.len() - 1] == r[i]);
                }
            }
        }
    }
}

/// The upper-case form of `s`, as Unicode case mapping gives it.
pub uninterp spec fn upper_of(s: Seq<char>) -> Seq<char>;

/// Relies on `str::to_uppercase`: the result depends on the characters alone.
#[verifier::external_body]
fn uppercase(s: &str) -> (r: String)
    ensures
        r@ == upper_of(s@),
{
    s.to_uppercase()
}

/// The offer column of a report line.
pub open spec fn offer_text(d: Option<SessionDescription>) -> Seq<char> {
    match d {
        None => "offer: --"@,
        Some(x) => "offer: "@ + x.description@,
    }
}

/// The answer column of a report line.
pub open spec fn answer_text(d: Option<SessionDescription>) -> Seq<char> {
    match d {
        None => "answer: --"@,
        Some(x) => "answer: "@ + x.description@,
    }
}

/// A report line for a peer shown as `shown`: `<shown>: offer: <..> | answer: <..>`.
pub open spec fn entry_line(shown: Seq<char>, d: Device) -> Seq<char> {
    shown + ": "@ + offer_text(d.offer) + " | "@ + answer_text(d.answer) + "\n"@
}

/// One line of the presence report: the name in upper case, then the
/// payloads of the last offer and answer.
pub open spec fn report_line(e: Entry) -> Seq<char> {
    entry_line(upper_of(e.0@), e.1)
}

/// The presence report: one line per entry, in registry order.
pub open spec fn report_spec(s: Seq<Entry>) -> Seq<char>
    decreases s.len(),
{
    if s.len() == 0 {
        Seq::empty()
    } else {
        report_spec(s.drop_last()) + report_line(s.last())
    }
}

/// The entry at `i` with `offer` stored as its last offer.
pub open spec fn with_offer(s: Seq<Entry>, i: int, offer: SessionDescription) -> Seq<Entry> {
    s.update(i, (s[i].0, Device { addr: s[i].1.addr, offer: Some(offer), answer: s[i].1.answer }))
}

/// The entry at `i` with `answer` stored as its last answer.
pub open spec fn with_answer(s: Seq<Entry>, i: int, answer: SessionDescription) -> Seq<Entry> {
    s.update(i, (s[i].0, Device { addr: s[i].1.addr, offer: s[i].1.offer, answer: Some(answer) }))
}

/// The report line of `device`, shown under the name `shown`.
pub fn format_entry(shown: &str, device: &Device) -> (r: String)
    ensures
        r@ == entry_line(shown@, *device),
{
    let mut r = String::from_str(shown);
    r.append(": ");
    match &device.offer {
        None => r.append("offer: --"),
        Some(o) => {
            r.append("offer: ");
            r.append(o.description.as_str());
        },
    }
    r.append(" | ");
    match &device.answer {
        None => r.append("answer: --"),
        Some(a) => {
            r.append("answer: ");
            r.append(a.description.as_str());
        },
    }
    r.append("\n");
    r
}

impl Device {
    pub fn new(addr: String) -> (r: Self)
        ensures
            r == fresh_device(addr),
    {
        Device { addr, offer: None, answer: None }
    }

    pub fn recv_offer(&mut self, offer: SessionDescription)
        ensures
            final(self).addr == old(self).addr,
            final(self).offer == Some(offer),
            final(self).answer == old(self).answer,
    {
        self.offer = Some(offer);
    }

    pub fn recv_answer(&mut self, answer: SessionDescription)
        ensures
            final(self).addr == old(self).addr,
            final(self).offer == old(self).offer,
            final(self).answer == Some(answer),
    {
        self.answer = Some(answer);
    }

    pub fn address(&self) -> (r: String)
        ensures
            r == self.addr,
    {
        self.addr.clone()
    }
}

impl Devices {
    /// The registry's invariant: names are unique.
    pub open spec fn wf(&self) -> bool {
        names_unique(self.list@)
    }

    pub fn new() -> (r: Self)
        ensures
            r.list@ == Seq::<Entry>::empty(),
            r.wf(),
    {
        Devices { list: Vec::new() }
    }

    /// The position of the entry named `name`.
    pub fn position(&self, name: &String) -> (r: Option<usize>)
        ensures
            match r {
                Some(i) => i < self.list@.len() && self.list@[i as int].0@ == name@,
                None => !has_name(self.list@, name@),
            },
    {
        let mut i: usize = 0;
        while i < self.list.len()
            invariant
                i <= self.list@.len(),
                forall|j: int| 0 <= j < i ==> #[trigger] self.list@[j].0@ != name@,
            decreases self.list@.len() - i,
        {
            if self.list[i].0 == *name {
                return Some(i);
            }
            i += 1;
        }
        None
    }

    /// Binds `device_id` to `addr` with no offer and no answer; the last
    /// registration of a name wins.
    pub fn add_device(&mut self, device_id: String, addr: String)
        requires
            old(self).wf(),
        ensures
            final(self).wf(),
            final(self).list@ == register_spec(old(self).list@, device_id, addr),
    {
        let device = Device::new(addr);
        match self.position(&device_id) {
            Some(i) => {
                proof {
                    assert(self.list@[index_of_name(self.list@, device_id@)].0@ == device_id@);
                }
                self.list.set(i, (device_id, device));
            },
            None => {
                self.list.push((device_id, device));
            },
        }
    }

    pub fn remove_device(&mut self, device_id: &String)
        requires
            old(self).wf(),
        ensures
            final(self).wf(),
            final(self).list@ == remove_spec(old(self).list@, device_id@),
    {
        match self.position(device_id) {
            Some(i) => {
                proof {
                    assert(self.list@[index_of_name(self.list@, device_id@)].0@ == device_id@);
                }
                let _ = self.list.remove(i);
                proof {
                    let s = old(self).list@;
                    let r = self.list@;
                    assert forall|a: int, b: int|
                        0 <= a < r.len() && 0 <= b < r.len() && a != b implies #[trigger] r[a].0@
                        != #[trigger] r[b].0@ by {
                        let a2 = if a < i { a } else { a + 1 };
                        let b2 = if b < i { b } else { b + 1 };
                        assert(r[a] == s[a2] && r[b] == s[b2]);
                    }
                }
            },
            None => {},
        }
    }

    /// The name of the first entry bound to `addr`.
    pub fn get_name(&self, addr: &String) -> (r: Option<String>)
        ensures
            match r {
                Some(n) => has_addr(self.list@, addr@) && n == self.list@[first_with_addr(
                    self.list@,
                    addr@,
                )].0,
                None => !has_addr(self.list@, addr@),
            },
    {
        let mut i: usize = 0;
        while i < self.list.len()
            invariant
                i <= self.list@.len(),
                forall|j: int| 0 <= j < i ==> #[trigger] self.list@[j].1.addr@ != addr@,
            decreases self.list@.len() - i,
        {
            if self.list[i].1.addr == *addr {
                proof {
                    let s = self.list@;
                    let k = first_with_addr(s, addr@);
                    assert(s[i as int].1.addr@ == addr@);
                    assert(0 <= k < s.len() && s[k].1.addr@ == addr@);
                    if k < i {
                    } else if k > i {
                        assert(s[i as int].1.addr@ != addr@);
                    }
                }
                return Some(self.list[i].0.clone());
            }
            i += 1;
        }
        None
    }
    /// Removes every entry bound to `addr`, keeping the order of the rest.
    pub fn remove_address(&mut self, addr: &String)
        requires
            old(self).wf(),
        ensures
            final(self).wf(),
            final(self).list@ == without_addr(old(self).list@, addr@),
    {
        let ghost s = self.list@;
        let mut i: usize = 0;
        let ghost mut j: int = 0;
        while i < self.list.len()
            invariant
                0 <= j <= s.len(),
                i <= self.list@.len(),
                self.list@.take(i as int) == without_addr(s.take(j), addr@),
                self.list@.skip(i as int) == s.skip(j),
            decreases self.list@.len() - i,
        {
            let ghost before = self.list@;
            proof {
                assert(before.skip(i as int).len() == before.len() - i);
                assert(j < s.len());
                assert(before[i as int] == before.skip(i as int)[0]);
                assert(s[j] == s.skip(j)[0]);
                assert(s.take(j + 1).drop_last() =~= s.take(j));
                assert(s.take(j + 1).last() == s[j]);
            }
            if self.list[i].1.addr == *addr {
                let _ = self.list.remove(i);
                proof {
                    assert(self.list@.take(i as int) =~= before.take(i as int));
                    assert(self.list@.skip(i as int) =~= before.skip(i + 1));
                    assert(before.skip(i + 1) =~= before.skip(i as int).skip(1));
                    assert(s.skip(j + 1) =~= s.skip(j).skip(1));
                    j = j + 1;
                }
            } else {
                i += 1;
                proof {
                    assert(self.list@.take(i as int) =~= before.take(i - 1).push(before[i - 1]));
                    assert(self.list@.skip(i as int) =~= before.skip(i - 1).skip(1));
                    assert(s.skip(j + 1) =~= s.skip(j).skip(1));
                    j = j + 1;
                }
            }
        }
        proof {
            assert(s.skip(j).len() == 0);
            assert(s.take(j) =~= s);
            assert(self.list@.take(i as int) =~= self.list@);
            lemma_without_addr_from(s, addr@);
        }
    }
    /// Stores `offer` as the last offer of the entry at `i`.
    pub fn record_offer(&mut self, i: usize, offer: SessionDescription)
        requires
            old(self).wf(),
            i < old(self).list@.len(),
        ensures
            final(self).wf(),
            final(self).list@ == with_offer(old(self).list@, i as int, offer),
    {
        let (name, mut device) = self.list.remove(i);
        device.recv_offer(offer);
        self.list.insert(i, (name, device));
        proof {
            assert(self.list@ =~= with_offer(old(self).list@, i as int, offer));
        }
    }

    /// Stores `answer` as the last answer of the entry at `i`.
    pub fn record_answer(&mut self, i: usize, answer: SessionDescription)
        requires
            old(self).wf(),
            i < old(self).list@.len(),
        ensures
            final(self).wf(),
            final(self).list@ == with_answer(old(self).list@, i as int, answer),
    {
        let (name, mut device) = self.list.remove(i);
        device.recv_answer(answer);
        self.list.insert(i, (name, device));
        proof {
            assert(self.list@ =~= with_answer(old(self).list@, i as int, answer));
        }
    }

    /// The presence report: for each registered name, in registry order, the
    /// name in upper case with its last offer and answer payloads.
    pub fn report(&self) -> (r: String)
        ensures
            r@ == report_spec(self.list@),
    {
        let mut r = String::new();
        let mut i: usize = 0;
        while i < self.list.len()
            invariant
                i <= self.list@.len(),
                r@ == report_spec(self.list@.take(i as int)),
            decreases self.list@.len() - i,
        {
            let entry = &self.list[i];
            let line = format_entry(uppercase(entry.0.as_str()).as_str(), &entry.1);
            r.append(line.as_str());
            proof {
                assert(self.list@.take(i + 1).drop_last() =~= self.list@.take(i as int));
                assert(r@ =~= report_spec(self.list@.take(i + 1)));
            }
            i += 1;
        }
        proof {
            assert(self.list@.take(i as int) =~= self.list@);
        }
        r
    }
}

} // verus!
