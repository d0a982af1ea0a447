//! The network interfaces of the machine and what discovery does with them.
//!
//! An interface is a snapshot: its index, its name, its addresses and the
//! operational state that the platform reported for it. A query that failed
//! leaves the state unknown, and an interface of unknown state counts as
//! neither up nor fit for multicast.

use crate::net::IpAddress;
use vstd::prelude::*;

verus! {

/// The operational state of an interface as the platform reported it,
/// together with what the platform says its numbers mean: which bits of the
/// flags stand for what, and which status is that of a link that is up.
#[derive(Clone, Copy, Debug, PartialEq, Eq)]
pub enum InterfaceStatus {
    /// The interface flags of a Unix system, with the bit of a running
    /// interface and the bit of an interface that supports multicast.
    Unix { flags: i16, up_mask: i16, multicast_mask: i16 },
    /// The adapter flags and the operational status of a Windows system,
    /// with the bit of an adapter that does not support multicast and the
    /// status of an adapter that is up.
    Windows { adapter_flags: u32, no_multicast_mask: u32, oper_status: i32, up_status: i32 },
    /// The query failed.
    Unknown,
}

/// A network interface at the time of the last look.
#[derive(Debug, PartialEq, Eq)]
pub struct NetworkInterface {
    pub index: u32,
    pub name: String,
    pub addr: Vec<IpAddress>,
    pub status: InterfaceStatus,
}

/// What a `NetworkInterface` holds.
pub struct NetworkInterfaceView {
    pub index: u32,
    pub name: Seq<char>,
    pub addr: Seq<IpAddress>,
    pub status: InterfaceStatus,
}

impl View for NetworkInterface {
    type V = NetworkInterfaceView;

    open spec fn view(&self) -> NetworkInterfaceView {
        NetworkInterfaceView {
            index: self.index,
            name: self.name@,
            addr: self.addr@,
            status: self.status,
        }
    }
}

impl Clone for NetworkInterface {
    fn clone(&self) -> (r: NetworkInterface)
        ensures
            r@ == self@,
    {
        NetworkInterface {
            index: self.index,
            name: self.name.clone(),
            addr: self.addr.clone(),
            status: self.status,
        }
    }
}

/// The views of a list of interfaces.
pub open spec fn interface_views(list: Seq<NetworkInterface>) -> Seq<NetworkInterfaceView> {
    list.map_values(|n: NetworkInterface| n@)
}

/// Whether the reported state says that the interface supports multicast.
pub open spec fn supports_multicast(status: InterfaceStatus) -> bool {
    match status {
        InterfaceStatus::Unix { flags, up_mask, multicast_mask } => flags & multicast_mask != 0,
        InterfaceStatus::Windows {
            adapter_flags,
            no_multicast_mask,
            oper_status,
            up_status,
        } => adapter_flags & no_multicast_mask == 0,
        InterfaceStatus::Unknown => false,
    }
}

/// Whether the reported state says that the interface is up.
pub open spec fn link_up(status: InterfaceStatus) -> bool {
    match status {
        InterfaceStatus::Unix { flags, up_mask, multicast_mask } => flags & up_mask != 0,
        InterfaceStatus::Windows {
            adapter_flags,
            no_multicast_mask,
            oper_status,
            up_status,
        } => oper_status == up_status,
        InterfaceStatus::Unknown => false,
    }
}

/// Whether discovery listens on the interface: it is up and supports
/// multicast.
pub open spec fn viable(n: NetworkInterfaceView) -> bool {
    supports_multicast(n.status) && link_up(n.status)
}

/// Whether some address of the list is of the newer family.
pub open spec fn has_ipv6(addr: Seq<IpAddress>) -> bool {
    exists|i: int| 0 <= i < addr.len() && #[trigger] addr[i] is V6
}

/// The first address of the older family in the list.
pub open spec fn first_ipv4(addr: Seq<IpAddress>) -> Option<u32>
    decreases addr.len(),
{
    if addr.len() == 0 {
        None
    } else {
        match addr.first() {
            IpAddress::V4(a) => Some(a),
            IpAddress::V6(_) => first_ipv4(addr.drop_first()),
        }
    }
}

/// The two questions that discovery asks of an interface.
pub trait NetworkInterfaceFlagExtension {
    /// Whether the interface supports multicast.
    fn is_multicast(&self) -> bool;

    /// Whether the interface is up.
    fn is_up(&self) -> bool;
}

impl NetworkInterfaceFlagExtension for NetworkInterface {
    fn is_multicast(&self) -> (r: bool)
        ensures
            r == supports_multicast(self.status),
    {
        match self.status {
            InterfaceStatus::Unix { flags, up_mask, multicast_mask } => flags & multicast_mask
                != 0,
            InterfaceStatus::Windows {
                adapter_flags,
                no_multicast_mask,
                oper_status,
                up_status,
            } => adapter_flags & no_multicast_mask == 0,
            InterfaceStatus::Unknown => false,
        }
    }

    fn is_up(&self) -> (r: bool)
        ensures
            r == link_up(self.status),
    {
        match self.status {
            InterfaceStatus::Unix { flags, up_mask, multicast_mask } => flags & up_mask != 0,
            InterfaceStatus::Windows {
                adapter_flags,
                no_multicast_mask,
                oper_status,
                up_status,
            } => oper_status == up_status,
            InterfaceStatus::Unknown => false,
        }
    }
}

impl NetworkInterface {
    /// Whether some address of the interface is of the newer family.
    pub fn has_ipv6_address(&self) -> (r: bool)
        ensures
            r == has_ipv6(self.addr@),
    {
        let n = self.addr.len();
        let mut i: usize = 0;
        while i < n
            invariant
                i <= n,
                n == self.addr@.len(),
                forall|k: int| 0 <= k < i ==> !(#[trigger] self.addr@[k] is V6),
            decreases n - i,
        {
            if self.addr[i].is_ipv6() {
                return true;
            }
            i += 1;
        }
        false
    }

    /// The first address of the interface that is of the older family.
    pub fn first_ipv4_address(&self) -> (r: Option<u32>)
        ensures
            r == first_ipv4(self.addr@),
    {
        let n = self.addr.len();
        let mut i: usize = 0;
        assert(self.addr@.subrange(0, n as int) =~= self.addr@);
        while i < n
            invariant
                i <= n,
                n == self.addr@.len(),
                first_ipv4(self.addr@) == first_ipv4(self.addr@.subrange(i as int, n as int)),
            decreases n - i,
        {
            match self.addr[i] {
                IpAddress::V4(a) => {
                    return Some(a);
                },
                IpAddress::V6(_) => {},
            }
            assert(self.addr@.subrange(i as int, n as int).drop_first() =~= self.addr@.subrange(
                i as int + 1,
                n as int,
            ));
            i += 1;
        }
        None
    }
}

/// Whether the list holds the index `index`.
pub fn contains_index(indices: &Vec<u32>, index: u32) -> (r: bool)
    ensures
        r == indices@.contains(index),
{
    let n = indices.len();
    let mut i: usize = 0;
    while i < n
        invariant
            i <= n,
            n == indices@.len(),
            forall|k: int| 0 <= k < i ==> indices@[k] != index,
        decreases n - i,
    {
        if indices[i] == index {
            return true;
        }
        i += 1;
    }
    false
}

/// Whether some interface of the list has the index `index`.
pub open spec fn lists_index(listed: Seq<NetworkInterfaceView>, index: u32) -> bool {
    exists|i: int| 0 <= i < listed.len() && (#[trigger] listed[i]).index == index
}

/// Whether some interface of the list has the index `index`.
pub fn is_listed(listed: &Vec<NetworkInterface>, index: u32) -> (r: bool)
    ensures
        r == lists_index(interface_views(listed@), index),
{
    let n = listed.len();
    let mut i: usize = 0;
    while i < n
        invariant
            i <= n,
            n == listed@.len(),
            forall|k: int| 0 <= k < i ==> (#[trigger] interface_views(listed@)[k]).index != index,
        decreases n - i,
    {
        if listed[i].index == index {
            assert(interface_views(listed@)[i as int].index == index);
            return true;
        }
        i += 1;
    }
    false
}

/// A group membership to ask the platform for.
#[derive(Clone, Copy, Debug, PartialEq, Eq)]
pub enum JoinRequest {
    /// Join the beacon group of the older family on the interface that has
    /// this address.
    V4 { interface_addr: u32 },
    /// Join the beacon group of the newer family on the interface with this
    /// index.
    V6 { interface_index: u32 },
}

/// The membership to ask for when the interface `n` shows up and the
/// interfaces `active` are listened on already: none for an interface that
/// is not viable or is listened on; else by its first address of the older
/// family, or by its index where it has addresses of the newer family only.
pub open spec fn join_for(n: NetworkInterfaceView, active: Seq<u32>) -> Option<JoinRequest> {
    if !viable(n) || active.contains(n.index) {
        None
    } else {
        match first_ipv4(n.addr) {
            Some(a) => Some(JoinRequest::V4 { interface_addr: a }),
            None => if has_ipv6(n.addr) {
                Some(JoinRequest::V6 { interface_index: n.index })
            } else {
                None
            },
        }
    }
}

/// The index of an interface if discovery listens on it.
pub open spec fn viable_index(n: NetworkInterfaceView) -> Option<u32> {
    if viable(n) {
        Some(n.index)
    } else {
        None
    }
}

/// What to do after a look at the interfaces, where one socket per address
/// family serves all of them.
#[derive(Debug, PartialEq, Eq)]
pub struct RefreshPlan {
    /// The memberships to ask for.
    pub joins: Vec<JoinRequest>,
    /// The interfaces that are listened on from now.
    pub active: Vec<u32>,
}

/// Plans the memberships after a look at the interfaces.
///
/// Every viable interface of the list is listened on from now. A membership
/// is asked for on each of them that was not listened on before.
pub fn plan_refresh(active: &Vec<u32>, listed: &Vec<NetworkInterface>) -> (r: RefreshPlan)
    ensures
        r.joins@ == interface_views(listed@).filter_map(
            |n: NetworkInterfaceView| join_for(n, active@),
        ),
        r.active@ == interface_views(listed@).filter_map(
            |n: NetworkInterfaceView| viable_index(n),
        ),
{
    let ghost views = interface_views(listed@);
    let ghost f = |n: NetworkInterfaceView| join_for(n, active@);
    let ghost g = |n: NetworkInterfaceView| viable_index(n);
    let mut joins: Vec<JoinRequest> = Vec::new();
    let mut now_active: Vec<u32> = Vec::new();
    let n = listed.len();
    let mut i: usize = 0;
    while i < n
        invariant
            i <= n,
            n == listed@.len(),
            views == interface_views(listed@),
            f == (|n: NetworkInterfaceView| join_for(n, active@)),
            g == (|n: NetworkInterfaceView| viable_index(n)),
            joins@ == views.take(i as int).filter_map(f),
            now_active@ == views.take(i as int).filter_map(g),
        decreases n - i,
    {
        proof {
            views.lemma_filter_map_take_succ(f, i as int);
            views.lemma_filter_map_take_succ(g, i as int);
        }
        let new_if = &listed[i];
        assert(views[i as int] == new_if@);
        if new_if.is_multicast() && new_if.is_up() {
            if !contains_index(active, new_if.index) {
                match new_if.first_ipv4_address() {
                    Some(a) => {
                        joins.push(JoinRequest::V4 { interface_addr: a });
                    },
                    None => {
                        if new_if.has_ipv6_address() {
                            joins.push(JoinRequest::V6 { interface_index: new_if.index });
                        }
                    },
                }
            }
            now_active.push(new_if.index);
        }
        i += 1;
    }
    assert(views.take(n as int) =~= views);
    RefreshPlan { joins, active: now_active }
}

/// The index of an open socket's interface if the interface is still there.
pub open spec fn still_listed(index: u32, listed: Seq<NetworkInterfaceView>) -> Option<u32> {
    if lists_index(listed, index) {
        Some(index)
    } else {
        None
    }
}

/// The index of an interface that needs a socket of its own: the interface
/// is viable, has no socket yet, and has an address of the newer family.
pub open spec fn needs_socket(n: NetworkInterfaceView, open: Seq<u32>) -> Option<u32> {
    if viable(n) && !open.contains(n.index) && has_ipv6(n.addr) {
        Some(n.index)
    } else {
        None
    }
}

/// What to do after a look at the interfaces, where each interface has a
/// socket of its own.
#[derive(Debug, PartialEq, Eq)]
pub struct SocketPlan {
    /// The interfaces whose sockets stay open.
    pub keep: Vec<u32>,
    /// The interfaces to open a socket on.
    pub open: Vec<u32>,
}

/// Plans the sockets after a look at the interfaces.
///
/// The socket of an interface that is gone from the list is dropped. A
/// socket is opened on every viable interface with an address of the newer
/// family that has none.
pub fn plan_sockets(open: &Vec<u32>, listed: &Vec<NetworkInterface>) -> (r: SocketPlan)
    ensures
        r.keep@ == open@.filter_map(|i: u32| still_listed(i, interface_views(listed@))),
        r.open@ == interface_views(listed@).filter_map(
            |n: NetworkInterfaceView| needs_socket(n, open@),
        ),
{
    let ghost views = interface_views(listed@);
    let ghost f = |i: u32| still_listed(i, interface_views(listed@));
    let ghost g = |n: NetworkInterfaceView| needs_socket(n, open@);
    let mut keep: Vec<u32> = Vec::new();
    let m = open.len();
    let mut k: usize = 0;
    while k < m
        invariant
            k <= m,
            m == open@.len(),
            f == (|i: u32| still_listed(i, interface_views(listed@))),
            keep@ == open@.take(k as int).filter_map(f),
        decreases m - k,
    {
        proof {
            open@.lemma_filter_map_take_succ(f, k as int);
        }
        let index = open[k];
        if is_listed(listed, index) {
            keep.push(index);
        }
        k += 1;
    }
    assert(open@.take(m as int) =~= open@);
    let mut to_open: Vec<u32> = Vec::new();
    let n = listed.len();
    let mut i: usize = 0;
    while i < n
        invariant
            i <= n,
            n == listed@.len(),
            views == interface_views(listed@),
            g == (|n: NetworkInterfaceView| needs_socket(n, open@)),
            to_open@ == views.take(i as int).filter_map(g),
        decreases n - i,
    {
        proof {
            views.lemma_filter_map_take_succ(g, i as int);
        }
        let new_if = &listed[i];
        assert(views[i as int] == new_if@);
        if new_if.is_multicast() && new_if.is_up() && !contains_index(open, new_if.index)
            && new_if.has_ipv6_address() {
            to_open.push(new_if.index);
        }
        i += 1;
    }
    assert(views.take(n as int) =~= views);
    SocketPlan { keep, open: to_open }
}

} // verus!
