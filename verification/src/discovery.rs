//! The decisions of the discovery task.
//!
//! The task itself waits: for the list of interfaces, for a beacon, for the
//! end of the collection window, for the channel to take the host list. What
//! it does in between is decided here. The task hands in what happened and
//! is told what to do next.

use crate::channel::{continues_after, goes_on, SendOutcome};
use crate::fixed::{clamp_to_u64, clamp_u64};
use crate::hosts::{
    clone_name, host_views, key_for, key_index, observed, registered, remembered,
    FieldHost, FieldHostView, HostAdvertisement, HostAdvertisementView, HostCollector,
    HostRecordView, HostRegistry,
};
use crate::interfaces::{
    contains_index, interface_views, join_for, needs_socket, plan_refresh, plan_sockets,
    still_listed, viable_index, JoinRequest, NetworkInterface, NetworkInterfaceView,
};
use crate::net::{SocketAddress, COLLECTION_WINDOW};
use vstd::prelude::*;

verus! {

/// What happened while the task waited.
#[derive(Debug)]
pub enum DiscoveryEvent {
    /// The platform listed the interfaces, or failed to.
    Interfaces(Option<Vec<NetworkInterface>>),
    /// A socket was bound on the interface and has joined the beacon group.
    SocketOpened(u32),
    /// A datagram came in at time `now` on the socket of `interface`. A
    /// payload that is no beacon comes without an advertisement.
    Datagram { now: u64, source: SocketAddress, interface: u32, advert: Option<HostAdvertisement> },
    /// A receive failed.
    ReceiveFailed,
    /// The collection window is over; it is `now`.
    WindowClosed { now: u64 },
    /// The channel was given the host list.
    Published(SendOutcome),
}

/// What a `DiscoveryEvent` holds.
pub enum DiscoveryEventView {
    Interfaces(Option<Seq<NetworkInterfaceView>>),
    SocketOpened(u32),
    Datagram {
        now: u64,
        source: SocketAddress,
        interface: u32,
        advert: Option<HostAdvertisementView>,
    },
    ReceiveFailed,
    WindowClosed { now: u64 },
    Published(SendOutcome),
}

impl View for DiscoveryEvent {
    type V = DiscoveryEventView;

    open spec fn view(&self) -> DiscoveryEventView {
        match *self {
            DiscoveryEvent::Interfaces(list) => DiscoveryEventView::Interfaces(
                match list {
                    Some(l) => Some(interface_views(l@)),
                    None => None,
                },
            ),
            DiscoveryEvent::SocketOpened(i) => DiscoveryEventView::SocketOpened(i),
            DiscoveryEvent::Datagram {
                now,
                source,
                interface,
                advert,
            } => DiscoveryEventView::Datagram {
                now,
                source,
                interface,
                advert: match advert {
                    Some(a) => Some(a@),
                    None => None,
                },
            },
            DiscoveryEvent::ReceiveFailed => DiscoveryEventView::ReceiveFailed,
            DiscoveryEvent::WindowClosed { now } => DiscoveryEventView::WindowClosed { now },
            DiscoveryEvent::Published(o) => DiscoveryEventView::Published(o),
        }
    }
}

/// What the task is to do next.
#[derive(Debug, PartialEq, Eq)]
pub enum DiscoveryAction {
    /// Ask the platform for the interfaces.
    ListInterfaces,
    /// Drop every socket but those of `keep`, try to open one on each
    /// interface of `open`, then receive until `deadline`.
    Sockets { keep: Vec<u32>, open: Vec<u32>, deadline: u64 },
    /// Ask for the memberships of `requests`, then receive until `deadline`.
    Join { requests: Vec<JoinRequest>, deadline: u64 },
    /// Receive until `deadline`.
    Receive { deadline: u64 },
    /// Hand the host list to the channel without waiting.
    Publish(Vec<FieldHost>),
    /// End the task.
    Stop,
}

/// What a `DiscoveryAction` holds.
pub enum DiscoveryActionView {
    ListInterfaces,
    Sockets { keep: Seq<u32>, open: Seq<u32>, deadline: u64 },
    Join { requests: Seq<JoinRequest>, deadline: u64 },
    Receive { deadline: u64 },
    Publish(Seq<FieldHostView>),
    Stop,
}

impl View for DiscoveryAction {
    type V = DiscoveryActionView;

    open spec fn view(&self) -> DiscoveryActionView {
        match *self {
            DiscoveryAction::ListInterfaces => DiscoveryActionView::ListInterfaces,
            DiscoveryAction::Sockets { keep, open, deadline } => DiscoveryActionView::Sockets {
                keep: keep@,
                open: open@,
                deadline,
            },
            DiscoveryAction::Join { requests, deadline } => DiscoveryActionView::Join {
                requests: requests@,
                deadline,
            },
            DiscoveryAction::Receive { deadline } => DiscoveryActionView::Receive { deadline },
            DiscoveryAction::Publish(hosts) => DiscoveryActionView::Publish(host_views(hosts@)),
            DiscoveryAction::Stop => DiscoveryActionView::Stop,
        }
    }
}

/// What a `DiscoverySession` holds: the length of a collection window, the
/// end of the running one, the interfaces that have a socket, the hosts heard
/// of in this window, and whether the task has ended.
pub struct DiscoverySessionView {
    pub window: u64,
    pub window_end: u64,
    pub open: Seq<u32>,
    pub hosts: Seq<FieldHostView>,
    pub stopped: bool,
}

impl DiscoverySessionView {
    /// The session of a task that starts at time `now` and collects in
    /// windows of the length `window`.
    pub open spec fn started(now: u64, window: u64) -> DiscoverySessionView {
        DiscoverySessionView {
            window,
            window_end: clamp_u64(now + window),
            open: Seq::empty(),
            hosts: Seq::empty(),
            stopped: false,
        }
    }

    /// The session after the event.
    ///
    /// A list of interfaces settles which sockets stay. An opened socket is
    /// taken note of. A beacon from a sender of the newer family is merged
    /// into the hosts; any other datagram changes nothing. When the window
    /// is over the hosts go out and the next window starts empty. Once the
    /// channel has taken or dropped the list the window moves on; once the
    /// receiving side is gone the task has ended, and nothing changes any
    /// more.
    pub open spec fn next(self, event: DiscoveryEventView) -> DiscoverySessionView {
        if self.stopped {
            self
        } else {
            match event {
                DiscoveryEventView::Interfaces(Some(listed)) => DiscoverySessionView {
                    open: self.open.filter_map(|i: u32| still_listed(i, listed)),
                    ..self
                },
                DiscoveryEventView::Interfaces(None) => self,
                DiscoveryEventView::SocketOpened(i) => DiscoverySessionView {
                    open: if self.open.contains(i) {
                        self.open
                    } else {
                        self.open.push(i)
                    },
                    ..self
                },
                DiscoveryEventView::Datagram { now, source, interface, advert } => match advert {
                    Some(a) => if source.ip is V6 {
                        DiscoverySessionView {
                            hosts: observed(self.hosts, source, interface, a),
                            ..self
                        }
                    } else {
                        self
                    },
                    None => self,
                },
                DiscoveryEventView::ReceiveFailed => self,
                DiscoveryEventView::WindowClosed { now } => DiscoverySessionView {
                    hosts: Seq::empty(),
                    ..self
                },
                DiscoveryEventView::Published(outcome) => if goes_on(outcome) {
                    DiscoverySessionView {
                        window_end: clamp_u64(self.window_end + self.window),
                        ..self
                    }
                } else {
                    DiscoverySessionView { stopped: true, ..self }
                },
            }
        }
    }

    /// What the task is to do after the event.
    ///
    /// After a list of interfaces: settle the sockets, then receive. After a
    /// failed listing, an opened socket, a datagram of any kind or a failed
    /// receive: receive on, up to the end of the window. At the end of the
    /// window: publish the hosts. After publishing: look at the interfaces
    /// again, or stop where the receiving side is gone.
    pub open spec fn action(self, event: DiscoveryEventView) -> DiscoveryActionView {
        if self.stopped {
            DiscoveryActionView::Stop
        } else {
            match event {
                DiscoveryEventView::Interfaces(Some(listed)) => DiscoveryActionView::Sockets {
                    keep: self.open.filter_map(|i: u32| still_listed(i, listed)),
                    open: listed.filter_map(|n: NetworkInterfaceView| needs_socket(n, self.open)),
                    deadline: self.window_end,
                },
                DiscoveryEventView::Interfaces(None) => DiscoveryActionView::Receive {
                    deadline: self.window_end,
                },
                DiscoveryEventView::SocketOpened(_) => DiscoveryActionView::Receive {
                    deadline: self.window_end,
                },
                DiscoveryEventView::Datagram { .. } => DiscoveryActionView::Receive {
                    deadline: self.window_end,
                },
                DiscoveryEventView::ReceiveFailed => DiscoveryActionView::Receive {
                    deadline: self.window_end,
                },
                DiscoveryEventView::WindowClosed { .. } => DiscoveryActionView::Publish(self.hosts),
                DiscoveryEventView::Published(outcome) => if goes_on(outcome) {
                    DiscoveryActionView::ListInterfaces
                } else {
                    DiscoveryActionView::Stop
                },
            }
        }
    }
}

/// A malformed payload never ends the task and never changes what is known.
pub proof fn lemma_malformed_beacon_is_skipped(
    s: DiscoverySessionView,
    now: u64,
    source: SocketAddress,
    interface: u32,
)
    requires
        !s.stopped,
    ensures
        s.next(DiscoveryEventView::Datagram { now, source, interface, advert: None }) == s,
        s.action(DiscoveryEventView::Datagram { now, source, interface, advert: None })
            == (DiscoveryActionView::Receive { deadline: s.window_end }),
{
}

/// A full channel never ends the task: the list is lost and the next window
/// begins. Only a channel whose receiving side is gone ends it.
pub proof fn lemma_only_a_closed_channel_stops(s: DiscoverySessionView, outcome: SendOutcome)
    requires
        !s.stopped,
    ensures
        s.next(DiscoveryEventView::Published(outcome)).stopped <==> outcome is Closed,
        s.action(DiscoveryEventView::Published(outcome)) is Stop <==> outcome is Closed,
{
}

/// The state of the discovery task between two waits.
#[derive(Debug)]
pub struct DiscoverySession {
    window: u64,
    window_end: u64,
    open: Vec<u32>,
    collector: HostCollector,
    stopped: bool,
}

impl View for DiscoverySession {
    type V = DiscoverySessionView;

    closed spec fn view(&self) -> DiscoverySessionView {
        DiscoverySessionView {
            window: self.window,
            window_end: self.window_end,
            open: self.open@,
            hosts: self.collector@,
            stopped: self.stopped,
        }
    }
}

impl DiscoverySession {
    /// The session of a task that starts at time `now` and collects in
    /// windows of three seconds. The task begins by asking for the
    /// interfaces.
    pub fn new(now: u64) -> (r: DiscoverySession)
        ensures
            r@ == DiscoverySessionView::started(now, COLLECTION_WINDOW),
    {
        DiscoverySession::with_window(now, COLLECTION_WINDOW)
    }

    /// The session of a task that starts at time `now` and collects in
    /// windows of the length `window`.
    pub fn with_window(now: u64, window: u64) -> (r: DiscoverySession)
        ensures
            r@ == DiscoverySessionView::started(now, window),
    {
        DiscoverySession {
            window,
            window_end: clamp_to_u64(now as i128 + window as i128),
            open: Vec::new(),
            collector: HostCollector::new(),
            stopped: false,
        }
    }

    /// Whether the task has ended.
    pub fn is_stopped(&self) -> (r: bool)
        ensures
            r == self@.stopped,
    {
        self.stopped
    }

    /// The end of the running collection window.
    pub fn window_end(&self) -> (r: u64)
        ensures
            r == self@.window_end,
    {
        self.window_end
    }

    /// Takes in what happened and tells what to do next.
    pub fn step(&mut self, event: DiscoveryEvent) -> (r: DiscoveryAction)
        ensures
            final(self)@ == old(self)@.next(event@),
            r@ == old(self)@.action(event@),
    {
        if self.stopped {
            return DiscoveryAction::Stop;
        }
        match event {
            DiscoveryEvent::Interfaces(Some(listed)) => {
                let plan = plan_sockets(&self.open, &listed);
                let keep = plan.keep.clone();
                self.open = plan.keep;
                DiscoveryAction::Sockets { keep, open: plan.open, deadline: self.window_end }
            },
            DiscoveryEvent::Interfaces(None) => DiscoveryAction::Receive {
                deadline: self.window_end,
            },
            DiscoveryEvent::SocketOpened(i) => {
                if !contains_index(&self.open, i) {
                    self.open.push(i);
                }
                DiscoveryAction::Receive { deadline: self.window_end }
            },
            DiscoveryEvent::Datagram { now, source, interface, advert } => {
                match advert {
                    Some(a) => {
                        if source.ip.is_ipv6() {
                            self.collector.observe(source, interface, &a);
                        }
                    },
                    None => {},
                }
                DiscoveryAction::Receive { deadline: self.window_end }
            },
            DiscoveryEvent::ReceiveFailed => DiscoveryAction::Receive { deadline: self.window_end },
            DiscoveryEvent::WindowClosed { now } => DiscoveryAction::Publish(
                self.collector.publish(),
            ),
            DiscoveryEvent::Published(outcome) => {
                if continues_after(outcome) {
                    self.window_end = clamp_to_u64(self.window_end as i128 + self.window as i128);
                    DiscoveryAction::ListInterfaces
                } else {
                    self.stopped = true;
                    DiscoveryAction::Stop
                }
            },
        }
    }
}

/// The hosts of the registry as discovery reports them: each with the
/// interfaces that are listened on, as a shared socket cannot tell on which
/// of them a beacon came in.
pub open spec fn reported_hosts(records: Seq<HostRecordView>, active: Seq<u32>) -> Seq<
    FieldHostView,
> {
    records.map_values(
        |r: HostRecordView|
            FieldHostView { addr: r.addr, interfaces: active, hostname: r.advert.hostname },
    )
}

/// What a `BeaconSession` holds: the length of a window, the end of the
/// running one, the interfaces that are listened on, the hosts heard of
/// lately, and whether the task has ended.
pub struct BeaconSessionView {
    pub window: u64,
    pub window_end: u64,
    pub active: Seq<u32>,
    pub records: Seq<HostRecordView>,
    pub stopped: bool,
}

impl BeaconSessionView {
    /// The session of a task that starts at time `now` and looks at the
    /// interfaces every `window`.
    pub open spec fn started(now: u64, window: u64) -> BeaconSessionView {
        BeaconSessionView {
            window,
            window_end: clamp_u64(now + window),
            active: Seq::empty(),
            records: Seq::empty(),
            stopped: false,
        }
    }

    /// Whether the event is a beacon of a host that the registry does not
    /// know.
    pub open spec fn hears_new_host(self, event: DiscoveryEventView) -> bool {
        match event {
            DiscoveryEventView::Datagram { now, source, interface, advert: Some(a) } => key_index(
                self.records,
                key_for(source, a),
            ) >= self.records.len(),
            _ => false,
        }
    }

    /// The session after the event.
    ///
    /// A list of interfaces settles which of them are listened on. A beacon
    /// is registered. When the window is over, the hosts that were silent
    /// through it are forgotten and the next window starts. Once the
    /// receiving side of the channel is gone the task has ended, and nothing
    /// changes any more.
    pub open spec fn next(self, event: DiscoveryEventView) -> BeaconSessionView {
        if self.stopped {
            self
        } else {
            match event {
                DiscoveryEventView::Interfaces(Some(listed)) => BeaconSessionView {
                    active: listed.filter_map(|n: NetworkInterfaceView| viable_index(n)),
                    ..self
                },
                DiscoveryEventView::Datagram {
                    now,
                    source,
                    interface,
                    advert: Some(a),
                } => BeaconSessionView {
                    records: registered(self.records, now, source, a),
                    ..self
                },
                DiscoveryEventView::WindowClosed { now } => BeaconSessionView {
                    window_end: clamp_u64(self.window_end + self.window),
                    records: remembered(self.records, now, self.window),
                    ..self
                },
                DiscoveryEventView::Published(outcome) => BeaconSessionView {
                    stopped: !goes_on(outcome),
                    ..self
                },
                _ => self,
            }
        }
    }

    /// What the task is to do after the event.
    ///
    /// After a list of interfaces: ask for the memberships that are new,
    /// then receive. After the beacon of a host that is new: publish the
    /// hosts, the new one included. At the end of the window: look at the
    /// interfaces again. After publishing: receive on, or stop where the
    /// receiving side is gone. After anything else: receive on.
    pub open spec fn action(self, event: DiscoveryEventView) -> DiscoveryActionView {
        if self.stopped {
            DiscoveryActionView::Stop
        } else {
            match event {
                DiscoveryEventView::Interfaces(Some(listed)) => DiscoveryActionView::Join {
                    requests: listed.filter_map(
                        |n: NetworkInterfaceView| join_for(n, self.active),
                    ),
                    deadline: self.window_end,
                },
                DiscoveryEventView::WindowClosed { .. } => DiscoveryActionView::ListInterfaces,
                DiscoveryEventView::Published(outcome) => if goes_on(outcome) {
                    DiscoveryActionView::Receive { deadline: self.window_end }
                } else {
                    DiscoveryActionView::Stop
                },
                _ => if self.hears_new_host(event) {
                    DiscoveryActionView::Publish(
                        reported_hosts(self.next(event).records, self.active),
                    )
                } else {
                    DiscoveryActionView::Receive { deadline: self.window_end }
                },
            }
        }
    }
}

/// The state of the discovery task that listens with one socket per address
/// family, between two waits.
#[derive(Debug)]
pub struct BeaconSession {
    window: u64,
    window_end: u64,
    active: Vec<u32>,
    registry: HostRegistry,
    stopped: bool,
}

impl View for BeaconSession {
    type V = BeaconSessionView;

    closed spec fn view(&self) -> BeaconSessionView {
        BeaconSessionView {
            window: self.window,
            window_end: self.window_end,
            active: self.active@,
            records: self.registry@,
            stopped: self.stopped,
        }
    }
}

impl BeaconSession {
    /// The session of a task that starts at time `now` and looks at the
    /// interfaces every three seconds. The task begins by asking for the
    /// interfaces.
    pub fn new(now: u64) -> (r: BeaconSession)
        ensures
            r@ == BeaconSessionView::started(now, COLLECTION_WINDOW),
    {
        BeaconSession::with_window(now, COLLECTION_WINDOW)
    }

    /// The session of a task that starts at time `now` and looks at the
    /// interfaces every `window`. A host that was silent for as long as
    /// `window` is forgotten.
    pub fn with_window(now: u64, window: u64) -> (r: BeaconSession)
        ensures
            r@ == BeaconSessionView::started(now, window),
    {
        BeaconSession {
            window,
            window_end: clamp_to_u64(now as i128 + window as i128),
            active: Vec::new(),
            registry: HostRegistry::new(),
            stopped: false,
        }
    }

    /// Whether the task has ended.
    pub fn is_stopped(&self) -> (r: bool)
        ensures
            r == self@.stopped,
    {
        self.stopped
    }

    /// The hosts of the registry as discovery reports them.
    fn report(&self) -> (r: Vec<FieldHost>)
        ensures
            host_views(r@) == reported_hosts(self@.records, self@.active),
    {
        let list = self.registry.host_list();
        let ghost target = reported_hosts(self@.records, self@.active);
        let mut out: Vec<FieldHost> = Vec::new();
        let n = list.len();
        let mut i: usize = 0;
        assert(crate::hosts::host_list_views(list@).len() == n);
        assert(crate::hosts::listed_hosts(self@.records).len() == target.len());
        while i < n
            invariant
                i <= n,
                n == list@.len(),
                n == target.len(),
                target == reported_hosts(self@.records, self@.active),
                crate::hosts::host_list_views(list@) == crate::hosts::listed_hosts(self@.records),
                host_views(out@) == target.take(i as int),
            decreases n - i,
        {
            let entry = &list[i];
            let ghost before = out@;
            assert(crate::hosts::host_list_views(list@)[i as int] == (entry.0, entry.1@));
            assert(crate::hosts::listed_hosts(self@.records)[i as int] == (
                self@.records[i as int].addr,
                self@.records[i as int].advert,
            ));
            let host = FieldHost {
                addr: entry.0,
                interfaces: self.active.clone(),
                hostname: clone_name(&entry.1.hostname),
            };
            assert(host@ == target[i as int]);
            out.push(host);
            assert(host_views(out@) =~= host_views(before).push(target[i as int]));
            assert(host_views(out@) =~= target.take(i as int + 1));
            i += 1;
        }
        assert(target.take(n as int) =~= target);
        out
    }

    /// Takes in what happened and tells what to do next.
    pub fn step(&mut self, event: DiscoveryEvent) -> (r: DiscoveryAction)
        ensures
            final(self)@ == old(self)@.next(event@),
            r@ == old(self)@.action(event@),
    {
        if self.stopped {
            return DiscoveryAction::Stop;
        }
        match event {
            DiscoveryEvent::Interfaces(Some(listed)) => {
                let plan = plan_refresh(&self.active, &listed);
                self.active = plan.active;
                DiscoveryAction::Join { requests: plan.joins, deadline: self.window_end }
            },
            DiscoveryEvent::Interfaces(None) => DiscoveryAction::Receive {
                deadline: self.window_end,
            },
            DiscoveryEvent::SocketOpened(_) => DiscoveryAction::Receive {
                deadline: self.window_end,
            },
            DiscoveryEvent::Datagram { now, source, interface, advert } => {
                match advert {
                    Some(a) => {
                        if self.registry.observe(now, source, a) {
                            DiscoveryAction::Publish(self.report())
                        } else {
                            DiscoveryAction::Receive { deadline: self.window_end }
                        }
                    },
                    None => DiscoveryAction::Receive { deadline: self.window_end },
                }
            },
            DiscoveryEvent::ReceiveFailed => DiscoveryAction::Receive { deadline: self.window_end },
            DiscoveryEvent::WindowClosed { now } => {
                self.registry.forget_stale(now, self.window);
                self.window_end = clamp_to_u64(self.window_end as i128 + self.window as i128);
                DiscoveryAction::ListInterfaces
            },
            DiscoveryEvent::Published(outcome) => {
                if continues_after(outcome) {
                    DiscoveryAction::Receive { deadline: self.window_end }
                } else {
                    self.stopped = true;
                    DiscoveryAction::Stop
                }
            },
        }
    }
}

} // verus!
