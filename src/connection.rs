//! The dispatcher: one inbound frame in, table updates and deliveries out.

use vstd::prelude::*;
use crate::channels::{Channels, close_spec, has_channel, index_of_channel};
use crate::commands::{tagged, wrap_tagged, DeviceMessage, RegisterData};
use crate::device::{
    Devices,
    Entry,
    first_with_addr,
    has_addr,
    has_name,
    index_of_name,
    register_spec,
    report_spec,
    with_answer,
    with_offer,
    without_addr,
};
use crate::json::{json_quoted, quote};

verus! {

/// What one step leaves to be sent: the deliveries, and the handle of the
/// sender's connection where the step closed it (a quit), which carries the
/// reply since the table no longer holds it.
pub struct Step<T> {
    pub deliveries: Vec<Delivery>,
    pub closed: Option<T>,
}

/// One frame to push to the connection from address `to`.
#[derive(Debug)]
pub struct Delivery {
    pub to: String,
    pub frame: String,
}

/// The reply to a frame that did not decode.
pub open spec fn parse_failure_text() -> Seq<char> {
    "Failed to parse message"@
}

/// The reply to an offer or answer whose receiver is not registered.
pub open spec fn not_found_text(receiver: Seq<char>) -> Seq<char> {
    receiver + " not found"@
}

/// The reply to a quit: the name the connection was registered under.
pub open spec fn offline_text(name: Seq<char>) -> Seq<char> {
    "[OFFLINE]: "@ + name
}

/// The name of the first entry bound to `addr`, or `unnamed`.
pub open spec fn sender_name(s: Seq<Entry>, addr: Seq<char>) -> Seq<char> {
    if has_addr(s, addr) {
        s[first_with_addr(s, addr)].0@
    } else {
        "unnamed"@
    }
}

/// The frame sent back to the connection from `addr` for `msg`, given the
/// registry before the step. `None` stands for a frame that did not decode.
/// A message that only the server sends (a report, a confirmation) or the
/// `Unknown` marker itself is answered with the `Unknown` marker.
pub open spec fn reply_spec(msg: Option<DeviceMessage>, addr: String, s: Seq<Entry>) -> Seq<char> {
    match msg {
        None => parse_failure_text(),
        Some(m) => match m {
            DeviceMessage::Register(p) => DeviceMessage::Registered(
                RegisterData { name: p.name, addr },
            ).json(),
            DeviceMessage::Offer(d) => if has_name(s, d.receiver@) {
                DeviceMessage::Offer(d).json()
            } else {
                not_found_text(d.receiver@)
            },
            DeviceMessage::Answer(d) => if has_name(s, d.receiver@) {
                DeviceMessage::Answer(d).json()
            } else {
                not_found_text(d.receiver@)
            },
            DeviceMessage::Quit => offline_text(sender_name(s, addr@)),
            DeviceMessage::ListUsersRequest => tagged(
                "ListUsersResponse"@,
                json_quoted(report_spec(s)),
            ),
            DeviceMessage::ListUsersResponse(_) => DeviceMessage::Unknown.json(),
            DeviceMessage::Echo(t) => DeviceMessage::Echo(t).json(),
            DeviceMessage::Registered(_) => DeviceMessage::Unknown.json(),
            DeviceMessage::Unknown => DeviceMessage::Unknown.json(),
        },
    }
}

/// The registry after the step.
pub open spec fn registry_spec(msg: Option<DeviceMessage>, addr: String, s: Seq<Entry>) -> Seq<
    Entry,
> {
    match msg {
        Some(DeviceMessage::Register(p)) => register_spec(s, p.name, addr),
        Some(DeviceMessage::Offer(d)) => if has_name(s, d.receiver@) {
            with_offer(s, index_of_name(s, d.receiver@), d)
        } else {
            s
        },
        Some(DeviceMessage::Answer(d)) => if has_name(s, d.receiver@) {
            with_answer(s, index_of_name(s, d.receiver@), d)
        } else {
            s
        },
        Some(DeviceMessage::Quit) => without_addr(s, addr@),
        _ => s,
    }
}

/// The connection table after the step: a quit closes the sender's entry.
pub open spec fn channels_spec<T>(msg: Option<DeviceMessage>, addr: String, c: Seq<(String, T)>) -> Seq<
    (String, T),
> {
    match msg {
        Some(DeviceMessage::Quit) => close_spec(c, addr@),
        _ => c,
    }
}

/// The offer or answer relayed to its receiver, as (address, frame), where
/// the receiver is registered and its connection is live.
pub open spec fn forward_spec<T>(msg: Option<DeviceMessage>, s: Seq<Entry>, c: Seq<(String, T)>) -> Option<
    (Seq<char>, Seq<char>),
> {
    match msg {
        Some(DeviceMessage::Offer(d)) => if has_name(s, d.receiver@) && has_channel(
            c,
            s[index_of_name(s, d.receiver@)].1.addr@,
        ) {
            Some((s[index_of_name(s, d.receiver@)].1.addr@, DeviceMessage::Offer(d).json()))
        } else {
            None
        },
        Some(DeviceMessage::Answer(d)) => if has_name(s, d.receiver@) && has_channel(
            c,
            s[index_of_name(s, d.receiver@)].1.addr@,
        ) {
            Some((s[index_of_name(s, d.receiver@)].1.addr@, DeviceMessage::Answer(d).json()))
        } else {
            None
        },
        _ => None,
    }
}

/// Everything one step delivers, as (address, frame) in sending order: the
/// relayed offer or answer, if any, then the reply to the sender, if the
/// sender's connection was in the table when the frame came.
pub open spec fn deliveries_spec<T>(
    msg: Option<DeviceMessage>,
    addr: String,
    s: Seq<Entry>,
    c: Seq<(String, T)>,
) -> Seq<(Seq<char>, Seq<char>)> {
    let fwd = match forward_spec(msg, s, c) {
        Some(f) => seq![f],
        None => Seq::empty(),
    };
    if has_channel(c, addr@) {
        fwd.push((addr@, reply_spec(msg, addr, s)))
    } else {
        fwd
    }
}

/// The (address, frame) pairs of a list of deliveries.
pub open spec fn delivery_pairs(v: Seq<Delivery>) -> Seq<(Seq<char>, Seq<char>)> {
    v.map_values(|d: Delivery| (d.to@, d.frame@))
}

/// Handles one inbound frame from the connection at `addr` (`None` when the
/// frame did not decode): updates the registry and the connection table and
/// returns the frames to deliver, in sending order.
///
/// Every frame gets exactly one reply to its sender, a quit too: the handle
/// of the connection that a quit closes comes back in `closed`, and the
/// reply goes through it. An offer or answer for a registered receiver is
/// stored on the receiver's entry, relayed to the receiver's connection when
/// it is live, and also echoed back to the sender as its reply. An offer or
/// answer for an unknown name is answered with `<name> not found` and goes
/// nowhere else.
pub fn process_message<T>(
    msg: Option<DeviceMessage>,
    addr: &String,
    devices: &mut Devices,
    peers: &mut Channels<T>,
) -> (r: Step<T>)
    requires
        old(devices).wf(),
        old(peers).wf(),
    ensures
        final(devices).wf(),
        final(peers).wf(),
        final(devices).list@ == registry_spec(msg, *addr, old(devices).list@),
        final(peers).list@ == channels_spec(msg, *addr, old(peers).list@),
        delivery_pairs(r.deliveries@) == deliveries_spec(
            msg,
            *addr,
            old(devices).list@,
            old(peers).list@,
        ),
        r.closed == match msg {
            Some(DeviceMessage::Quit) => if has_channel(old(peers).list@, addr@) {
                Some(old(peers).list@[index_of_channel(old(peers).list@, addr@)].1)
            } else {
                None
            },
            _ => None,
        },
{
    let ghost s = devices.list@;
    let ghost c = peers.list@;
    let mut out: Vec<Delivery> = Vec::new();
    let mut closed: Option<T> = None;
    let sender_live = peers.contains(addr);
    let reply: String = match msg {
        None => String::from_str("Failed to parse message"),
        Some(DeviceMessage::Register(reg)) => {
            let data = RegisterData { name: reg.name.clone(), addr: addr.clone() };
            let frame = DeviceMessage::Registered(data).to_json();
            devices.add_device(reg.name, addr.clone());
            frame
        },
        Some(DeviceMessage::Offer(sdp)) => {
            match devices.position(&sdp.receiver) {
                Some(i) => {
                    proof {
                        assert(s[index_of_name(s, sdp.receiver@)].0@ == sdp.receiver@);
                    }
                    let frame = wrap_tagged("Offer", sdp.to_json());
                    let to = devices.list[i].1.addr.clone();
                    devices.record_offer(i, sdp);
                    if peers.contains(&to) {
                        out.push(Delivery { to, frame: frame.clone() });
                    }
                    frame
                },
                None => {
                    let mut text = sdp.receiver.clone();
                    text.append(" not found");
                    text
                },
            }
        },
        Some(DeviceMessage::Answer(sdp)) => {
            match devices.position(&sdp.receiver) {
                Some(i) => {
                    proof {
                        assert(s[index_of_name(s, sdp.receiver@)].0@ == sdp.receiver@);
                    }
                    let frame = wrap_tagged("Answer", sdp.to_json());
                    let to = devices.list[i].1.addr.clone();
                    devices.record_answer(i, sdp);
                    if peers.contains(&to) {
                        out.push(Delivery { to, frame: frame.clone() });
                    }
                    frame
                },
                None => {
                    let mut text = sdp.receiver.clone();
                    text.append(" not found");
                    text
                },
            }
        },
        Some(DeviceMessage::Quit) => {
            let mut text = String::from_str("[OFFLINE]: ");
            match devices.get_name(addr) {
                Some(name) => text.append(name.as_str()),
                None => text.append("unnamed"),
            }
            devices.remove_address(addr);
            closed = peers.remove(addr);
            text
        },
        Some(DeviceMessage::ListUsersRequest) => {
            let report = devices.report();
            wrap_tagged("ListUsersResponse", quote(report.as_str()))
        },
        Some(DeviceMessage::ListUsersResponse(_)) => DeviceMessage::Unknown.to_json(),
        Some(DeviceMessage::Echo(text)) => wrap_tagged("Echo", quote(text.as_str())),
        Some(DeviceMessage::Registered(_)) => DeviceMessage::Unknown.to_json(),
        Some(DeviceMessage::Unknown) => DeviceMessage::Unknown.to_json(),
    };
    proof {
        assert(reply@ == reply_spec(msg, *addr, s));
        assert(delivery_pairs(out@) =~= match forward_spec(msg, s, c) {
            Some(f) => seq![f],
            None => Seq::empty(),
        });
    }
    if sender_live {
        out.push(Delivery { to: addr.clone(), frame: reply });
    }
    proof {
        assert(delivery_pairs(out@) =~= deliveries_spec(msg, *addr, s, c));
    }
    Step { deliveries: out, closed }
}

/// Tears down the connection at `addr` after its transport ended: every
/// registry entry bound to it and its entry in the connection table go.
/// Takes the registry before the table, as a dispatch step does.
pub fn disconnect<T>(addr: &String, devices: &mut Devices, peers: &mut Channels<T>)
    requires
        old(devices).wf(),
        old(peers).wf(),
    ensures
        final(devices).wf(),
        final(peers).wf(),
        final(devices).list@ == without_addr(old(devices).list@, addr@),
        final(peers).list@ == close_spec(old(peers).list@, addr@),
{
    devices.remove_address(addr);
    let _ = peers.remove(addr);
}

} // verus!
