//! Properties of the protocol that span several steps or all inputs.

use vstd::prelude::*;
use crate::channels::{addrs_unique, close_spec, has_channel, index_of_channel};
use crate::commands::{DeviceMessage, RegisterPeer};
use crate::connection::{channels_spec, deliveries_spec, not_found_text, registry_spec, reply_spec};
use crate::device::{
    Entry,
    fresh_device,
    has_name,
    index_of_name,
    lemma_without_addr_from,
    names_unique,
    register_spec,
    with_offer,
    without_addr,
};
use crate::sdp::SessionDescription;

verus! {

/// The step a `Register` frame performs on the registry.
pub open spec fn register_step(s: Seq<Entry>, name: String, addr: String) -> Seq<Entry> {
    registry_spec(Some(DeviceMessage::Register(RegisterPeer { name })), addr, s)
}

/// Registering keeps names unique and leaves `name` bound to a fresh entry
/// for `addr`; every other name keeps its entry.
pub proof fn lemma_register(s: Seq<Entry>, name: String, addr: String)
    requires
        names_unique(s),
    ensures
        names_unique(register_spec(s, name, addr)),
        has_name(register_spec(s, name, addr), name@),
        register_spec(s, name, addr)[index_of_name(register_spec(s, name, addr), name@)] == (
        name,
        fresh_device(addr),
        ),
        register_spec(s, name, addr).len() == if has_name(s, name@) {
            s.len()
        } else {
            s.len() + 1
        },
        forall|n: Seq<char>| n != name@ ==> has_name(register_spec(s, name, addr), n) == has_name(s, n),
{
    let r = register_spec(s, name, addr);
    let k = if has_name(s, name@) {
        index_of_name(s, name@)
    } else {
        s.len() as int
    };
    assert(r[k].0@ == name@);
    assert forall|i: int, j: int|
        0 <= i < r.len() && 0 <= j < r.len() && i != j implies #[trigger] r[i].0@
        != #[trigger] r[j].0@ by {
        if i != k && j != k {
            assert(r[i] == s[i] && r[j] == s[j]);
        } else if i == k {
            assert(r[j] == s[j]);
        } else {
            assert(r[i] == s[i]);
        }
    }
    assert(index_of_name(r, name@) == k);
    assert forall|n: Seq<char>| n != name@ implies has_name(r, n) == has_name(s, n) by {
        if has_name(s, n) {
            let i = choose|i: int| 0 <= i < s.len() && #[trigger] s[i].0@ == n;
            assert(r[i] == s[i]);
        }
        if has_name(r, n) {
            let i = choose|i: int| 0 <= i < r.len() && #[trigger] r[i].0@ == n;
            assert(r[i] == s[i]);
        }
    }
}

/// Registering a name twice, from two connections, leaves exactly one entry
/// of that name, bound to the second connection's address with no offer and
/// no answer.
pub proof fn lemma_register_overwrites(s: Seq<Entry>, first: String, second: String, a1: String, a2: String)
    requires
        names_unique(s),
        first@ == second@,
    ensures
        ({
            let r = register_step(register_step(s, first, a1), second, a2);
            &&& names_unique(r)
            &&& has_name(r, second@)
            &&& forall|i: int| 0 <= i < r.len() && #[trigger] r[i].0@ == second@ ==> r[i] == (second, fresh_device(a2))
        }),
{
    lemma_register(s, first, a1);
    let s1 = register_step(s, first, a1);
    lemma_register(s1, second, a2);
    let r = register_step(s1, second, a2);
    assert forall|i: int| 0 <= i < r.len() && #[trigger] r[i].0@ == second@ implies r[i] == (second, fresh_device(a2)) by {
        assert(r[index_of_name(r, second@)].0@ == second@);
    }
}

/// The registry after each (name, address) of `regs` registers, in order.
pub open spec fn register_all(s: Seq<Entry>, regs: Seq<(String, String)>) -> Seq<Entry>
    decreases regs.len(),
{
    if regs.len() == 0 {
        s
    } else {
        register_step(register_all(s, regs.drop_last()), regs.last().0, regs.last().1)
    }
}

/// After distinct names, none registered yet, register one after another,
/// the registry holds every one of them and has grown by their number: no
/// registration is lost. The registry's lock turns registrations made
/// concurrently from many connections into such a sequence.
pub proof fn lemma_register_all(s: Seq<Entry>, regs: Seq<(String, String)>)
    requires
        names_unique(s),
        forall|i: int, j: int|
            0 <= i < regs.len() && 0 <= j < regs.len() && i != j ==> #[trigger] regs[i].0@
                != #[trigger] regs[j].0@,
        forall|i: int| 0 <= i < regs.len() ==> !has_name(s, #[trigger] regs[i].0@),
    ensures
        names_unique(register_all(s, regs)),
        register_all(s, regs).len() == s.len() + regs.len(),
        forall|i: int| 0 <= i < regs.len() ==> has_name(register_all(s, regs), #[trigger] regs[i].0@),
    decreases regs.len(),
{
    if regs.len() > 0 {
        let pre = regs.drop_last();
        lemma_register_all(s, pre);
        let r0 = register_all(s, pre);
        let last = regs.last();
        assert(!has_name(r0, last.0@)) by {
            if has_name(r0, last.0@) {
                lemma_register_all_names(s, pre, last.0@);
                let k = choose|k: int| 0 <= k < pre.len() && #[trigger] pre[k].0@ == last.0@;
                assert(regs[k] == pre[k]);
                assert(regs[regs.len() - 1] == last);
            }
        }
        lemma_register(r0, last.0, last.1);
        assert forall|i: int| 0 <= i < regs.len() implies has_name(register_all(s, regs), #[trigger] regs[i].0@) by {
            if i < regs.len() - 1 {
                assert(regs[i] == pre[i]);
                assert(regs[i].0@ != last.0@);
            }
        }
    }
}

/// A name that the registry holds after `register_all` was registered
/// before or is one of the names registered.
pub proof fn lemma_register_all_names(s: Seq<Entry>, regs: Seq<(String, String)>, n: Seq<char>)
    requires
        names_unique(s),
        has_name(register_all(s, regs), n),
        !has_name(s, n),
    ensures
        exists|k: int| 0 <= k < regs.len() && #[trigger] regs[k].0@ == n,
    decreases regs.len(),
{
    if regs.len() > 0 {
        let pre = regs.drop_last();
        let r0 = register_all(s, pre);
        lemma_register_all_unique(s, pre);
        lemma_register(r0, regs.last().0, regs.last().1);
        if n == regs.last().0@ {
            assert(regs[regs.len() - 1].0@ == n);
        } else {
            lemma_register_all_names(s, pre, n);
            let k = choose|k: int| 0 <= k < pre.len() && #[trigger] pre[k].0@ == n;
            assert(regs[k] == pre[k]);
        }
    }
}

/// `register_all` keeps names unique.
pub proof fn lemma_register_all_unique(s: Seq<Entry>, regs: Seq<(String, String)>)
    requires
        names_unique(s),
    ensures
        names_unique(register_all(s, regs)),
    decreases regs.len(),
{
    if regs.len() > 0 {
        lemma_register_all_unique(s, regs.drop_last());
        lemma_register(register_all(s, regs.drop_last()), regs.last().0, regs.last().1);
    }
}

/// An offer for a name that is not registered changes neither table and is
/// relayed to no one: the sender alone gets `<receiver> not found`.
pub proof fn lemma_offer_to_unknown<T>(
    s: Seq<Entry>,
    c: Seq<(String, T)>,
    addr: String,
    d: SessionDescription,
)
    requires
        names_unique(s),
        addrs_unique(c),
        !has_name(s, d.receiver@),
    ensures
        registry_spec(Some(DeviceMessage::Offer(d)), addr, s) == s,
        channels_spec(Some(DeviceMessage::Offer(d)), addr, c) == c,
        deliveries_spec(Some(DeviceMessage::Offer(d)), addr, s, c) == if has_channel(c, addr@) {
            seq![(addr@, not_found_text(d.receiver@))]
        } else {
            Seq::empty()
        },
{
    let m = Some(DeviceMessage::Offer(d));
    assert(deliveries_spec(m, addr, s, c) =~= if has_channel(c, addr@) {
        seq![(addr@, not_found_text(d.receiver@))]
    } else {
        Seq::empty()
    });
}

/// An offer for a registered name whose connection is live, from a live
/// connection, is relayed once to the receiver and echoed once to the
/// sender, both as the same `Offer` frame, and is stored as the receiver's
/// last offer.
pub proof fn lemma_offer_relayed<T>(
    s: Seq<Entry>,
    c: Seq<(String, T)>,
    addr: String,
    d: SessionDescription,
)
    requires
        names_unique(s),
        addrs_unique(c),
        has_name(s, d.receiver@),
        has_channel(c, s[index_of_name(s, d.receiver@)].1.addr@),
        has_channel(c, addr@),
    ensures
        ({
            let m = Some(DeviceMessage::Offer(d));
            let to = s[index_of_name(s, d.receiver@)].1.addr@;
            let r = registry_spec(m, addr, s);
            &&& deliveries_spec(m, addr, s, c) == seq![
                (to, DeviceMessage::Offer(d).json()),
                (addr@, DeviceMessage::Offer(d).json()),
            ]
            &&& names_unique(r)
            &&& has_name(r, d.receiver@)
            &&& r[index_of_name(r, d.receiver@)].1.offer == Some(d)
            &&& r[index_of_name(r, d.receiver@)].1.addr == s[index_of_name(s, d.receiver@)].1.addr
        }),
{
    let m = Some(DeviceMessage::Offer(d));
    let k = index_of_name(s, d.receiver@);
    let r = registry_spec(m, addr, s);
    assert(r == with_offer(s, k, d));
    assert forall|i: int, j: int|
        0 <= i < r.len() && 0 <= j < r.len() && i != j implies #[trigger] r[i].0@
        != #[trigger] r[j].0@ by {
        assert(r[i].0 == s[i].0 && r[j].0 == s[j].0);
    }
    assert(r[k].0@ == d.receiver@);
    assert(index_of_name(r, d.receiver@) == k);
    assert(deliveries_spec(m, addr, s, c) =~= seq![
        (s[k].1.addr@, DeviceMessage::Offer(d).json()),
        (addr@, DeviceMessage::Offer(d).json()),
    ]);
}

/// Closing the entry of an address leaves no entry of that address.
pub proof fn lemma_close<T>(c: Seq<(String, T)>, a: Seq<char>)
    requires
        addrs_unique(c),
    ensures
        !has_channel(close_spec(c, a), a),
{
    if has_channel(c, a) {
        let k = index_of_channel(c, a);
        let r = close_spec(c, a);
        assert forall|i: int| 0 <= i < r.len() implies #[trigger] r[i].0@ != a by {
            if i < k {
                assert(r[i] == c[i]);
            } else {
                assert(r[i] == c[i + 1]);
            }
        }
    }
}

/// A quit from the connection that `name` is bound to removes `name` from
/// the registry and the connection from the table; an offer for `name` that
/// follows, from any connection, finds no receiver.
pub proof fn lemma_quit_then_offer<T>(
    s: Seq<Entry>,
    c: Seq<(String, T)>,
    addr: String,
    name: Seq<char>,
    from: String,
    d: SessionDescription,
)
    requires
        names_unique(s),
        addrs_unique(c),
        has_name(s, name),
        s[index_of_name(s, name)].1.addr@ == addr@,
        d.receiver@ == name,
    ensures
        ({
            let s1 = registry_spec(Some(DeviceMessage::Quit), addr, s);
            let c1 = channels_spec(Some(DeviceMessage::Quit), addr, c);
            let m = Some(DeviceMessage::Offer(d));
            &&& !has_name(s1, name)
            &&& !has_channel(c1, addr@)
            &&& registry_spec(m, from, s1) == s1
            &&& channels_spec(m, from, c1) == c1
            &&& deliveries_spec(m, from, s1, c1) == if has_channel(c1, from@) {
                seq![(from@, not_found_text(name))]
            } else {
                Seq::empty()
            }
        }),
{
    let s1 = without_addr(s, addr@);
    let c1 = close_spec(c, addr@);
    lemma_without_addr_from(s, addr@);
    lemma_close(c, addr@);
    assert(!has_name(s1, name)) by {
        if has_name(s1, name) {
            let i = choose|i: int| 0 <= i < s1.len() && #[trigger] s1[i].0@ == name;
            let j = choose|j: int| 0 <= j < s.len() && s[j] == s1[i];
            assert(s[index_of_name(s, name)].0@ == name);
            assert(j == index_of_name(s, name));
        }
    }
    assert(c1 == channels_spec(Some(DeviceMessage::Quit), addr, c));
    assert(addrs_unique(c1)) by {
        if has_channel(c, addr@) {
            let k = index_of_channel(c, addr@);
            assert forall|i: int, j: int|
                0 <= i < c1.len() && 0 <= j < c1.len() && i != j implies #[trigger] c1[i].0@
                != #[trigger] c1[j].0@ by {
                let i2 = if i < k { i } else { i + 1 };
                let j2 = if j < k { j } else { j + 1 };
                assert(c1[i] == c[i2] && c1[j] == c[j2]);
            }
        }
    }
    lemma_offer_to_unknown(s1, c1, from, d);
}

/// Every frame from a live connection gets exactly one reply, sent to that
/// connection after anything relayed; at most one other frame is delivered,
/// and only for an offer or an answer.
pub proof fn lemma_one_reply<T>(
    msg: Option<DeviceMessage>,
    s: Seq<Entry>,
    c: Seq<(String, T)>,
    addr: String,
)
    requires
        has_channel(c, addr@),
    ensures
        ({
            let out = deliveries_spec(msg, addr, s, c);
            &&& 1 <= out.len() <= 2
            &&& out.last() == (addr@, reply_spec(msg, addr, s))
            &&& out.len() == 2 ==> (msg matches Some(DeviceMessage::Offer(_)) || msg matches Some(
                DeviceMessage::Answer(_),
            ))
        }),
{
}

} // verus!
