//! The hosts that discovery has heard of.
//!
//! A host announces itself with a beacon that may arrive on several
//! interfaces and many times over. Two ways of keeping the hosts apart are
//! offered. The collector gathers the beacons of one collection window and
//! knows a host by its sender address, keeping the interfaces on which it was
//! heard in rising order, so that the lowest index, which the operating
//! system gives to the most local interface, comes first. The registry knows
//! a host by the identifier that it announces, or by its sender address where
//! it announces none, and forgets a host that has been silent for too long.

use crate::interfaces::contains_index;
use crate::net::SocketAddress;
use vstd::prelude::*;

verus! {

/// What an optional name holds.
pub open spec fn name_view(name: Option<String>) -> Option<Seq<char>> {
    match name {
        Some(n) => Some(n@),
        None => None,
    }
}

/// Copies an optional name.
pub fn clone_name(name: &Option<String>) -> (r: Option<String>)
    ensures
        name_view(r) == name_view(*name),
{
    match name {
        Some(n) => Some(n.clone()),
        None => None,
    }
}

/// Whether two optional names are the same.
pub fn same_name(a: &Option<String>, b: &Option<String>) -> (r: bool)
    ensures
        r == (name_view(*a) == name_view(*b)),
{
    match (a, b) {
        (Some(x), Some(y)) => {
            let r = *x == *y;
            r
        },
        (None, None) => true,
        _ => false,
    }
}

/// A decoded beacon.
#[derive(Debug, PartialEq, Eq)]
pub struct HostAdvertisement {
    pub hostname: Option<String>,
    pub instance_id: Option<u32>,
    pub port: u32,
}

/// What a `HostAdvertisement` holds.
pub struct HostAdvertisementView {
    pub hostname: Option<Seq<char>>,
    pub instance_id: Option<u32>,
    pub port: u32,
}

impl View for HostAdvertisement {
    type V = HostAdvertisementView;

    open spec fn view(&self) -> HostAdvertisementView {
        HostAdvertisementView {
            hostname: name_view(self.hostname),
            instance_id: self.instance_id,
            port: self.port,
        }
    }
}

impl Clone for HostAdvertisement {
    fn clone(&self) -> (r: HostAdvertisement)
        ensures
            r@ == self@,
    {
        HostAdvertisement {
            hostname: clone_name(&self.hostname),
            instance_id: self.instance_id,
            port: self.port,
        }
    }
}

/// A host as discovery reports it: where it sends from, the interfaces on
/// which it was heard, and the name it gave.
#[derive(Debug, PartialEq, Eq, Hash)]
pub struct FieldHost {
    pub addr: SocketAddress,
    pub interfaces: Vec<u32>,
    pub hostname: Option<String>,
}

/// What a `FieldHost` holds.
pub struct FieldHostView {
    pub addr: SocketAddress,
    pub interfaces: Seq<u32>,
    pub hostname: Option<Seq<char>>,
}

impl View for FieldHost {
    type V = FieldHostView;

    open spec fn view(&self) -> FieldHostView {
        FieldHostView {
            addr: self.addr,
            interfaces: self.interfaces@,
            hostname: name_view(self.hostname),
        }
    }
}

impl Clone for FieldHost {
    fn clone(&self) -> (r: FieldHost)
        ensures
            r@ == self@,
    {
        FieldHost {
            addr: self.addr,
            interfaces: self.interfaces.clone(),
            hostname: clone_name(&self.hostname),
        }
    }
}

/// The views of a list of hosts.
pub open spec fn host_views(list: Seq<FieldHost>) -> Seq<FieldHostView> {
    list.map_values(|h: FieldHost| h@)
}

/// The number of leading indices that are lower than `x`.
pub open spec fn lower_count(s: Seq<u32>, x: u32) -> int
    decreases s.len(),
{
    if s.len() == 0 || s.first() >= x {
        0
    } else {
        1 + lower_count(s.drop_first(), x)
    }
}

/// Indices that rise strictly from front to back.
pub open spec fn rising(s: Seq<u32>) -> bool {
    forall|i: int, j: int| 0 <= i < j < s.len() ==> s[i] < s[j]
}

/// The interfaces once `x` is among them: a new index goes behind the
/// leading indices that are lower.
pub open spec fn with_interface(s: Seq<u32>, x: u32) -> Seq<u32> {
    if s.contains(x) {
        s
    } else {
        s.insert(lower_count(s, x), x)
    }
}

/// The position of the first host with the sender address `addr`, or the
/// length of the list where there is none.
pub open spec fn address_index(hosts: Seq<FieldHostView>, addr: SocketAddress) -> int
    decreases hosts.len(),
{
    if hosts.len() == 0 || hosts.first().addr == addr {
        0
    } else {
        1 + address_index(hosts.drop_first(), addr)
    }
}

/// Whether a host of the list gave the name `name` and sends from the port
/// `port`. No name is the name of nobody.
pub open spec fn known_by_name(
    hosts: Seq<FieldHostView>,
    name: Option<Seq<char>>,
    port: u16,
) -> bool {
    name is Some && exists|i: int|
        0 <= i < hosts.len() && (#[trigger] hosts[i]).hostname == name && hosts[i].addr.port
            == port
}

/// The host once it was heard on the interface `interface` too. A beacon
/// that came in on a lower interface than all before decides the name.
pub open spec fn merged(
    host: FieldHostView,
    interface: u32,
    hostname: Option<Seq<char>>,
) -> FieldHostView {
    FieldHostView {
        addr: host.addr,
        interfaces: with_interface(host.interfaces, interface),
        hostname: if host.interfaces.len() == 0 || interface < host.interfaces[0] {
            hostname
        } else {
            host.hostname
        },
    }
}

/// The hosts after a beacon from `source` was heard on `interface`.
///
/// A host that sends from `source` is in the list already: the sighting is
/// merged into it. Else a host of the same name on the same port is: the
/// beacon is one more of a host that is known by another address, and
/// changes nothing. Else the host is new and goes to the end.
pub open spec fn observed(
    hosts: Seq<FieldHostView>,
    source: SocketAddress,
    interface: u32,
    advert: HostAdvertisementView,
) -> Seq<FieldHostView> {
    let i = address_index(hosts, source);
    if i < hosts.len() {
        hosts.update(i, merged(hosts[i], interface, advert.hostname))
    } else if known_by_name(hosts, advert.hostname, source.port) {
        hosts
    } else {
        hosts.push(
            FieldHostView {
                addr: source,
                interfaces: seq![interface],
                hostname: advert.hostname,
            },
        )
    }
}

/// A list in which no two hosts send from the same address and every host
/// has its interfaces in strictly rising order, with at least one.
pub open spec fn well_formed(hosts: Seq<FieldHostView>) -> bool {
    &&& forall|i: int, j: int|
        0 <= i < j < hosts.len() ==> (#[trigger] hosts[i]).addr != (#[trigger] hosts[j]).addr
    &&& forall|i: int|
        0 <= i < hosts.len() ==> rising((#[trigger] hosts[i]).interfaces)
            && hosts[i].interfaces.len() > 0
}

/// The index found for an address is that of the first host with the
/// address, or the length of the list where no host has it.
pub proof fn lemma_address_index(hosts: Seq<FieldHostView>, addr: SocketAddress)
    ensures
        0 <= address_index(hosts, addr) <= hosts.len(),
        address_index(hosts, addr) < hosts.len() ==> hosts[address_index(hosts, addr)].addr
            == addr,
        forall|i: int| 0 <= i < address_index(hosts, addr) ==> (#[trigger] hosts[i]).addr != addr,
    decreases hosts.len(),
{
    if hosts.len() == 0 || hosts.first().addr == addr {
    } else {
        let rest = hosts.drop_first();
        lemma_address_index(rest, addr);
        assert forall|i: int| 0 <= i < address_index(hosts, addr) implies (
        #[trigger] hosts[i]).addr != addr by {
            if i > 0 {
                assert(hosts[i] == rest[i - 1]);
            }
        }
        if address_index(hosts, addr) < hosts.len() {
            assert(hosts[address_index(hosts, addr)] == rest[address_index(rest, addr)]);
        }
    }
}

/// The count of lower indices is the length of the prefix that is lower.
pub proof fn lemma_lower_count(s: Seq<u32>, x: u32)
    ensures
        0 <= lower_count(s, x) <= s.len(),
        forall|i: int| 0 <= i < lower_count(s, x) ==> s[i] < x,
        lower_count(s, x) < s.len() ==> s[lower_count(s, x)] >= x,
    decreases s.len(),
{
    if s.len() == 0 || s.first() >= x {
    } else {
        let rest = s.drop_first();
        lemma_lower_count(rest, x);
        assert forall|i: int| 0 <= i < lower_count(s, x) implies s[i] < x by {
            if i > 0 {
                assert(s[i] == rest[i - 1]);
            }
        }
        if lower_count(s, x) < s.len() {
            assert(s[lower_count(s, x)] == rest[lower_count(rest, x)]);
        }
    }
}

/// Adding an interface keeps the order, keeps what was there, and puts the
/// lower of the new index and the old lowest first.
pub proof fn lemma_with_interface(s: Seq<u32>, x: u32)
    requires
        rising(s),
    ensures
        rising(with_interface(s, x)),
        with_interface(s, x).contains(x),
        forall|y: u32| s.contains(y) ==> with_interface(s, x).contains(y),
        with_interface(s, x).len() > 0,
        with_interface(s, x)[0] == (if s.len() == 0 || x < s[0] {
            x
        } else {
            s[0]
        }),
{
    lemma_lower_count(s, x);
    let k = lower_count(s, x);
    let out = with_interface(s, x);
    if s.contains(x) {
        let p = choose|p: int| 0 <= p < s.len() && s[p] == x;
        if p > 0 {
            assert(s[0] < s[p]);
        }
    } else {
        assert(out[k] == x);
        assert forall|i: int, j: int| 0 <= i < j < out.len() implies out[i] < out[j] by {
            if j < k {
                assert(out[i] == s[i] && out[j] == s[j]);
            } else if j == k {
                assert(out[i] == s[i]);
            } else {
                assert(out[j] == s[j - 1]);
                if k < s.len() {
                    assert(s[k] >= x);
                    assert(s[k] != x);
                    if j - 1 > k {
                        assert(s[k] < s[j - 1]);
                    }
                }
                if i < k {
                    assert(out[i] == s[i]);
                } else if i > k {
                    assert(out[i] == s[i - 1]);
                }
            }
        }
        assert forall|y: u32| s.contains(y) implies out.contains(y) by {
            let p = choose|p: int| 0 <= p < s.len() && s[p] == y;
            if p < k {
                assert(out[p] == y);
            } else {
                assert(out[p + 1] == y);
            }
        }
        if k > 0 {
            assert(out[0] == s[0]);
            assert(s[0] < x);
        } else if s.len() > 0 {
            assert(s[0] >= x);
        }
    }
}

/// A sighting leaves a well-formed list well-formed: no address comes to
/// stand twice.
pub proof fn lemma_observed_well_formed(
    hosts: Seq<FieldHostView>,
    source: SocketAddress,
    interface: u32,
    advert: HostAdvertisementView,
)
    requires
        well_formed(hosts),
    ensures
        well_formed(observed(hosts, source, interface, advert)),
{
    lemma_address_index(hosts, source);
    let i = address_index(hosts, source);
    let out = observed(hosts, source, interface, advert);
    if i < hosts.len() {
        lemma_with_interface(hosts[i].interfaces, interface);
        assert forall|a: int, b: int| 0 <= a < b < out.len() implies (#[trigger] out[a]).addr != (
        #[trigger] out[b]).addr by {
            assert(out[a].addr == hosts[a].addr);
            assert(out[b].addr == hosts[b].addr);
        }
        assert forall|a: int| 0 <= a < out.len() implies rising((#[trigger] out[a]).interfaces)
            && out[a].interfaces.len() > 0 by {
            if a != i {
                assert(out[a] == hosts[a]);
            }
        }
    } else if known_by_name(hosts, advert.hostname, source.port) {
    } else {
        assert forall|a: int, b: int| 0 <= a < b < out.len() implies (#[trigger] out[a]).addr != (
        #[trigger] out[b]).addr by {
            if b < hosts.len() {
                assert(out[a] == hosts[a] && out[b] == hosts[b]);
            } else {
                assert(out[a] == hosts[a]);
            }
        }
        assert forall|a: int| 0 <= a < out.len() implies rising((#[trigger] out[a]).interfaces)
            && out[a].interfaces.len() > 0 by {
            if a < hosts.len() {
                assert(out[a] == hosts[a]);
            }
        }
    }
}

/// A beacon from a sender that is in the list adds no host: the sighting is
/// merged into the one host with that address, which then has the interface
/// among its own and the lower of the new index and its old lowest first.
pub proof fn lemma_known_sender_collapses(
    hosts: Seq<FieldHostView>,
    source: SocketAddress,
    interface: u32,
    advert: HostAdvertisementView,
)
    requires
        well_formed(hosts),
        address_index(hosts, source) < hosts.len(),
    ensures
        observed(hosts, source, interface, advert).len() == hosts.len(),
        forall|k: int|
            0 <= k < hosts.len() && k != address_index(hosts, source) ==> #[trigger] observed(
                hosts,
                source,
                interface,
                advert,
            )[k] == hosts[k] && hosts[k].addr != source,
        ({
            let i = address_index(hosts, source);
            let before = hosts[i];
            let after = observed(hosts, source, interface, advert)[i];
            &&& after.addr == source
            &&& after.interfaces.contains(interface)
            &&& after.interfaces[0] == (if interface < before.interfaces[0] {
                interface
            } else {
                before.interfaces[0]
            })
        }),
{
    lemma_address_index(hosts, source);
    let i = address_index(hosts, source);
    lemma_with_interface(hosts[i].interfaces, interface);
    assert forall|k: int| 0 <= k < hosts.len() && k != i implies hosts[k].addr != source by {
        if k < i {
        } else {
            assert(hosts[i].addr != hosts[k].addr);
        }
    }
}

/// Two beacons from one sender, heard on two interfaces while nothing else
/// was, make one host, with the lower interface first.
pub proof fn lemma_two_sightings_one_host(
    source: SocketAddress,
    first: u32,
    second: u32,
    advert: HostAdvertisementView,
    again: HostAdvertisementView,
)
    ensures
        ({
            let hosts = observed(
                observed(Seq::empty(), source, first, advert),
                source,
                second,
                again,
            );
            &&& hosts.len() == 1
            &&& hosts[0].addr == source
            &&& hosts[0].interfaces[0] == (if second < first {
                second
            } else {
                first
            })
            &&& hosts[0].interfaces.contains(first)
            &&& hosts[0].interfaces.contains(second)
        }),
{
    let empty = Seq::<FieldHostView>::empty();
    let one = observed(empty, source, first, advert);
    assert(address_index(empty, source) == 0);
    assert(!known_by_name(empty, advert.hostname, source.port));
    assert(one.len() == 1);
    assert(one[0].addr == source);
    assert(one[0].interfaces =~= seq![first]);
    assert(one[0].interfaces[0] == first);
    assert(one[0].interfaces.contains(first));
    assert(rising(one[0].interfaces));
    assert(well_formed(one));
    assert(address_index(one, source) == 0);
    lemma_known_sender_collapses(one, source, second, again);
    lemma_with_interface(one[0].interfaces, second);
}

/// Which of two beacons from one sender, heard on two different interfaces,
/// comes first does not matter: either way the host has both interfaces in
/// rising order and the name that the beacon on the lower interface gave.
pub proof fn lemma_sighting_order_is_irrelevant(
    source: SocketAddress,
    one: u32,
    advert: HostAdvertisementView,
    other: u32,
    again: HostAdvertisementView,
)
    requires
        one != other,
    ensures
        observed(observed(Seq::empty(), source, one, advert), source, other, again) == observed(
            observed(Seq::empty(), source, other, again),
            source,
            one,
            advert,
        ),
        observed(observed(Seq::empty(), source, one, advert), source, other, again) == seq![
            FieldHostView {
                addr: source,
                interfaces: if one < other {
                    seq![one, other]
                } else {
                    seq![other, one]
                },
                hostname: if one < other {
                    advert.hostname
                } else {
                    again.hostname
                },
            },
        ],
{
    let empty = Seq::<FieldHostView>::empty();
    assert(address_index(empty, source) == 0);
    let first = observed(empty, source, one, advert);
    let second = observed(empty, source, other, again);
    assert(first[0].interfaces =~= seq![one]);
    assert(second[0].interfaces =~= seq![other]);
    assert(address_index(first, source) == 0);
    assert(address_index(second, source) == 0);
    lemma_singleton_with_interface(one, other);
    lemma_singleton_with_interface(other, one);
    let target = seq![
        FieldHostView {
            addr: source,
            interfaces: if one < other {
                seq![one, other]
            } else {
                seq![other, one]
            },
            hostname: if one < other {
                advert.hostname
            } else {
                again.hostname
            },
        },
    ];
    assert(observed(first, source, other, again) =~= target);
    assert(observed(second, source, one, advert) =~= target);
}

/// A second interface beside a first one stands before or behind it by its
/// index.
proof fn lemma_singleton_with_interface(a: u32, x: u32)
    requires
        a != x,
    ensures
        with_interface(seq![a], x) == (if x < a {
            seq![x, a]
        } else {
            seq![a, x]
        }),
{
    let s = seq![a];
    assert(!s.contains(x));
    assert(s.drop_first().len() == 0);
    assert(lower_count(s, x) == (if a >= x {
        0int
    } else {
        1int
    })) by {
        if a < x {
            assert(lower_count(s.drop_first(), x) == 0);
        }
    }
    assert(with_interface(s, x) =~= (if x < a {
        seq![x, a]
    } else {
        seq![a, x]
    }));
}

/// Puts the interface `x` among the interfaces of a host.
pub fn insert_interface(list: &mut Vec<u32>, x: u32)
    ensures
        final(list)@ == with_interface(old(list)@, x),
{
    if contains_index(list, x) {
        return ;
    }
    let n = list.len();
    let mut k: usize = 0;
    assert(list@.subrange(0, n as int) =~= list@);
    loop
        invariant_except_break
            k <= n,
            lower_count(list@, x) == k + lower_count(list@.subrange(k as int, n as int), x),
        invariant
            n == list@.len(),
            list@ == old(list)@,
        ensures
            k <= n,
            k == lower_count(list@, x),
        decreases n - k,
    {
        if k >= n {
            break ;
        }
        if list[k] >= x {
            break ;
        }
        assert(list@.subrange(k as int, n as int).drop_first() =~= list@.subrange(
            k as int + 1,
            n as int,
        ));
        k += 1;
    }
    list.insert(k, x);
}

/// The hosts heard of in one collection window.
#[derive(Debug)]
pub struct HostCollector {
    hosts: Vec<FieldHost>,
}

impl View for HostCollector {
    type V = Seq<FieldHostView>;

    closed spec fn view(&self) -> Seq<FieldHostView> {
        host_views(self.hosts@)
    }
}

impl Default for HostCollector {
    fn default() -> (r: HostCollector)
        ensures
            r@ == Seq::<FieldHostView>::empty(),
    {
        HostCollector::new()
    }
}

impl HostCollector {
    /// A collector that has heard of nobody.
    pub fn new() -> (r: HostCollector)
        ensures
            r@ == Seq::<FieldHostView>::empty(),
            well_formed(r@),
    {
        let r = HostCollector { hosts: Vec::new() };
        assert(host_views(r.hosts@) =~= Seq::<FieldHostView>::empty());
        r
    }

    /// The number of hosts heard of.
    pub fn len(&self) -> (r: usize)
        ensures
            r == self@.len(),
    {
        self.hosts.len()
    }

    /// The position of the first host that sends from `addr`, or the number
    /// of hosts where none does.
    fn find_address(&self, addr: &SocketAddress) -> (r: usize)
        ensures
            r == address_index(self@, *addr),
            r <= self.hosts@.len(),
    {
        let ghost h = host_views(self.hosts@);
        let n = self.hosts.len();
        let mut i: usize = 0;
        assert(h.subrange(0, n as int) =~= h);
        loop
            invariant_except_break
                i <= n,
                address_index(h, *addr) == i + address_index(h.subrange(i as int, n as int), *addr),
            invariant
                n == self.hosts@.len(),
                h == host_views(self.hosts@),
            ensures
                i <= n,
                i == address_index(h, *addr),
            decreases n - i,
        {
            if i >= n {
                break ;
            }
            assert(h.subrange(i as int, n as int).first() == self.hosts@[i as int]@);
            if self.hosts[i].addr.same(addr) {
                break ;
            }
            assert(h.subrange(i as int, n as int).drop_first() =~= h.subrange(
                i as int + 1,
                n as int,
            ));
            i += 1;
        }
        i
    }

    /// Whether a host gave the name `name` and sends from the port `port`.
    fn find_name(&self, name: &Option<String>, port: u16) -> (r: bool)
        ensures
            r == known_by_name(self@, name_view(*name), port),
    {
        if name.is_none() {
            return false;
        }
        let n = self.hosts.len();
        let mut i: usize = 0;
        while i < n
            invariant
                i <= n,
                n == self.hosts@.len(),
                name_view(*name) is Some,
                forall|k: int|
                    0 <= k < i ==> !((#[trigger] self@[k]).hostname == name_view(*name)
                        && self@[k].addr.port == port),
            decreases n - i,
        {
            let host = &self.hosts[i];
            assert(self@[i as int] == host@);
            if same_name(&host.hostname, name) && host.addr.port == port {
                return true;
            }
            i += 1;
        }
        false
    }

    /// Takes in a beacon from `source` that was heard on `interface`. No
    /// sender comes to stand twice in the list.
    pub fn observe(&mut self, source: SocketAddress, interface: u32, advert: &HostAdvertisement)
        ensures
            final(self)@ == observed(old(self)@, source, interface, advert@),
            well_formed(old(self)@) ==> well_formed(final(self)@),
    {
        proof {
            if well_formed(self@) {
                lemma_observed_well_formed(self@, source, interface, advert@);
            }
        }
        let i = self.find_address(&source);
        if i < self.hosts.len() {
            let ghost before = self.hosts@;
            let host = &mut self.hosts[i];
            if host.interfaces.len() == 0 || interface < host.interfaces[0] {
                host.hostname = clone_name(&advert.hostname);
            }
            insert_interface(&mut host.interfaces, interface);
            assert(host_views(self.hosts@) =~= host_views(before).update(
                i as int,
                merged(before[i as int]@, interface, advert@.hostname),
            ));
        } else if self.find_name(&advert.hostname, source.port) {
        } else {
            let mut interfaces: Vec<u32> = Vec::new();
            interfaces.push(interface);
            let ghost before = self.hosts@;
            let host = FieldHost {
                addr: source,
                interfaces,
                hostname: clone_name(&advert.hostname),
            };
            self.hosts.push(host);
            assert(host_views(self.hosts@) =~= host_views(before).push(
                FieldHostView {
                    addr: source,
                    interfaces: seq![interface],
                    hostname: advert@.hostname,
                },
            ));
        }
    }

    /// Hands the hosts out and starts over with none.
    pub fn publish(&mut self) -> (r: Vec<FieldHost>)
        ensures
            host_views(r@) == old(self)@,
            final(self)@ == Seq::<FieldHostView>::empty(),
    {
        let mut out: Vec<FieldHost> = Vec::new();
        core::mem::swap(&mut self.hosts, &mut out);
        assert(host_views(self.hosts@) =~= Seq::<FieldHostView>::empty());
        out
    }
}

/// What the registry knows a host by.
#[derive(Clone, Copy, Debug, PartialEq, Eq, Hash)]
pub enum HostKey {
    /// The address that a host without an identifier sends from.
    Addr(SocketAddress),
    /// The identifier that the host announces.
    Id(u32),
}

impl HostKey {
    /// Whether two keys are the same.
    pub fn same(&self, other: &HostKey) -> (r: bool)
        ensures
            r == (*self == *other),
    {
        match (self, other) {
            (HostKey::Addr(a), HostKey::Addr(b)) => a.same(b),
            (HostKey::Id(a), HostKey::Id(b)) => *a == *b,
            _ => false,
        }
    }
}

/// A host of the registry: its key, when it was last heard, and the sender
/// and the beacon of the first sighting.
#[derive(Debug, PartialEq, Eq)]
pub struct HostRecord {
    pub key: HostKey,
    pub last_seen: u64,
    pub addr: SocketAddress,
    pub advert: HostAdvertisement,
}

/// What a `HostRecord` holds.
pub struct HostRecordView {
    pub key: HostKey,
    pub last_seen: u64,
    pub addr: SocketAddress,
    pub advert: HostAdvertisementView,
}

impl View for HostRecord {
    type V = HostRecordView;

    open spec fn view(&self) -> HostRecordView {
        HostRecordView {
            key: self.key,
            last_seen: self.last_seen,
            addr: self.addr,
            advert: self.advert@,
        }
    }
}

/// The views of a list of records.
pub open spec fn record_views(list: Seq<HostRecord>) -> Seq<HostRecordView> {
    list.map_values(|r: HostRecord| r@)
}

/// The key of the host that sent the beacon `advert` from `source`.
pub open spec fn key_for(source: SocketAddress, advert: HostAdvertisementView) -> HostKey {
    match advert.instance_id {
        Some(id) => HostKey::Id(id),
        None => HostKey::Addr(source),
    }
}

/// The position of the first record with the key `key`, or the length of
/// the list where there is none.
pub open spec fn key_index(records: Seq<HostRecordView>, key: HostKey) -> int
    decreases records.len(),
{
    if records.len() == 0 || records.first().key == key {
        0
    } else {
        1 + key_index(records.drop_first(), key)
    }
}

/// The records after a beacon from `source` was heard at time `now`: a host
/// that is known is marked as heard at `now`, a new one goes to the end.
pub open spec fn registered(
    records: Seq<HostRecordView>,
    now: u64,
    source: SocketAddress,
    advert: HostAdvertisementView,
) -> Seq<HostRecordView> {
    let key = key_for(source, advert);
    let i = key_index(records, key);
    if i < records.len() {
        records.update(i, HostRecordView { last_seen: now, ..records[i] })
    } else {
        records.push(HostRecordView { key, last_seen: now, addr: source, advert })
    }
}

/// The record if at time `now` the host was heard less than `max_age` ago.
pub open spec fn if_recent(r: HostRecordView, now: u64, max_age: u64) -> Option<HostRecordView> {
    if now < r.last_seen + max_age {
        Some(r)
    } else {
        None
    }
}

/// The records of the hosts that at time `now` were heard less than
/// `max_age` ago.
pub open spec fn remembered(records: Seq<HostRecordView>, now: u64, max_age: u64) -> Seq<
    HostRecordView,
> {
    records.filter_map(|r: HostRecordView| if_recent(r, now, max_age))
}

/// The senders and beacons of the records.
pub open spec fn listed_hosts(records: Seq<HostRecordView>) -> Seq<
    (SocketAddress, HostAdvertisementView),
> {
    records.map_values(|r: HostRecordView| (r.addr, r.advert))
}

/// What a list of senders and beacons holds.
pub open spec fn host_list_views(list: Seq<(SocketAddress, HostAdvertisement)>) -> Seq<
    (SocketAddress, HostAdvertisementView),
> {
    list.map_values(|e: (SocketAddress, HostAdvertisement)| (e.0, e.1@))
}

/// Records of which no two have the same key.
pub open spec fn distinct_keys(records: Seq<HostRecordView>) -> bool {
    forall|i: int, j: int|
        0 <= i < j < records.len() ==> (#[trigger] records[i]).key != (#[trigger] records[j]).key
}

/// The index found for a key is that of the first record with the key, or
/// the length of the list where no record has it.
pub proof fn lemma_key_index(records: Seq<HostRecordView>, key: HostKey)
    ensures
        0 <= key_index(records, key) <= records.len(),
        key_index(records, key) < records.len() ==> records[key_index(records, key)].key == key,
        forall|i: int| 0 <= i < key_index(records, key) ==> (#[trigger] records[i]).key != key,
    decreases records.len(),
{
    if records.len() == 0 || records.first().key == key {
    } else {
        let rest = records.drop_first();
        lemma_key_index(rest, key);
        assert forall|i: int| 0 <= i < key_index(records, key) implies (
        #[trigger] records[i]).key != key by {
            if i > 0 {
                assert(records[i] == rest[i - 1]);
            }
        }
        if key_index(records, key) < records.len() {
            assert(records[key_index(records, key)] == rest[key_index(rest, key)]);
        }
    }
}

/// A beacon leaves the keys distinct: a host that announces the same
/// identifier again, from whatever address, stays one host.
pub proof fn lemma_registered_distinct(
    records: Seq<HostRecordView>,
    now: u64,
    source: SocketAddress,
    advert: HostAdvertisementView,
)
    requires
        distinct_keys(records),
    ensures
        distinct_keys(registered(records, now, source, advert)),
        key_index(records, key_for(source, advert)) < records.len() ==> registered(
            records,
            now,
            source,
            advert,
        ).len() == records.len(),
{
    let key = key_for(source, advert);
    lemma_key_index(records, key);
    let i = key_index(records, key);
    let out = registered(records, now, source, advert);
    assert forall|a: int, b: int| 0 <= a < b < out.len() implies (#[trigger] out[a]).key != (
    #[trigger] out[b]).key by {
        if i < records.len() {
            assert(out[a].key == records[a].key);
            assert(out[b].key == records[b].key);
        } else if b < records.len() {
            assert(out[a] == records[a] && out[b] == records[b]);
        } else {
            assert(out[a] == records[a]);
        }
    }
}

/// The hosts that discovery has heard of lately.
#[derive(Debug)]
pub struct HostRegistry {
    records: Vec<HostRecord>,
}

impl View for HostRegistry {
    type V = Seq<HostRecordView>;

    closed spec fn view(&self) -> Seq<HostRecordView> {
        record_views(self.records@)
    }
}

impl Default for HostRegistry {
    fn default() -> (r: HostRegistry)
        ensures
            r@ == Seq::<HostRecordView>::empty(),
    {
        HostRegistry::new()
    }
}

impl HostRegistry {
    /// A registry that has heard of nobody.
    pub fn new() -> (r: HostRegistry)
        ensures
            r@ == Seq::<HostRecordView>::empty(),
            distinct_keys(r@),
    {
        let r = HostRegistry { records: Vec::new() };
        assert(record_views(r.records@) =~= Seq::<HostRecordView>::empty());
        r
    }

    /// The number of hosts in the registry.
    pub fn len(&self) -> (r: usize)
        ensures
            r == self@.len(),
    {
        self.records.len()
    }

    /// The position of the first record with the key `key`, or the number of
    /// records where there is none.
    fn find_key(&self, key: &HostKey) -> (r: usize)
        ensures
            r == key_index(self@, *key),
            r <= self.records@.len(),
    {
        let ghost h = record_views(self.records@);
        let n = self.records.len();
        let mut i: usize = 0;
        assert(h.subrange(0, n as int) =~= h);
        loop
            invariant_except_break
                i <= n,
                key_index(h, *key) == i + key_index(h.subrange(i as int, n as int), *key),
            invariant
                n == self.records@.len(),
                h == record_views(self.records@),
            ensures
                i <= n,
                i == key_index(h, *key),
            decreases n - i,
        {
            if i >= n {
                break ;
            }
            assert(h.subrange(i as int, n as int).first() == self.records@[i as int]@);
            if self.records[i].key.same(key) {
                break ;
            }
            assert(h.subrange(i as int, n as int).drop_first() =~= h.subrange(
                i as int + 1,
                n as int,
            ));
            i += 1;
        }
        i
    }

    /// Takes in a beacon from `source` that was heard at time `now`, and
    /// tells whether the host is new to the registry. No key comes to stand
    /// twice in the registry.
    pub fn observe(&mut self, now: u64, source: SocketAddress, advert: HostAdvertisement) -> (r:
        bool)
        ensures
            final(self)@ == registered(old(self)@, now, source, advert@),
            r == (key_index(old(self)@, key_for(source, advert@)) >= old(self)@.len()),
            distinct_keys(old(self)@) ==> distinct_keys(final(self)@),
    {
        proof {
            if distinct_keys(self@) {
                lemma_registered_distinct(self@, now, source, advert@);
            }
        }
        let key = match advert.instance_id {
            Some(id) => HostKey::Id(id),
            None => HostKey::Addr(source),
        };
        let i = self.find_key(&key);
        let ghost before = self.records@;
        if i < self.records.len() {
            let record = &mut self.records[i];
            record.last_seen = now;
            assert(record_views(self.records@) =~= record_views(before).update(
                i as int,
                HostRecordView { last_seen: now, ..before[i as int]@ },
            ));
            false
        } else {
            let ghost view = advert@;
            self.records.push(HostRecord { key, last_seen: now, addr: source, advert });
            assert(record_views(self.records@) =~= record_views(before).push(
                HostRecordView { key, last_seen: now, addr: source, advert: view },
            ));
            true
        }
    }

    /// Forgets the hosts that at time `now` were last heard `max_age` ago or
    /// longer.
    pub fn forget_stale(&mut self, now: u64, max_age: u64)
        ensures
            final(self)@ == remembered(old(self)@, now, max_age),
    {
        let ghost h = record_views(self.records@);
        let ghost f = |r: HostRecordView| if_recent(r, now, max_age);
        let mut kept: Vec<HostRecord> = Vec::new();
        let n = self.records.len();
        let mut i: usize = 0;
        while i < n
            invariant
                i <= n,
                n == self.records@.len(),
                h == record_views(self.records@),
                f == (|r: HostRecordView| if_recent(r, now, max_age)),
                record_views(kept@) == h.take(i as int).filter_map(f),
            decreases n - i,
        {
            proof {
                h.lemma_filter_map_take_succ(f, i as int);
            }
            let record = &self.records[i];
            assert(h[i as int] == record@);
            if record.last_seen > now || now - record.last_seen < max_age {
                let ghost before = kept@;
                kept.push(
                    HostRecord {
                        key: record.key,
                        last_seen: record.last_seen,
                        addr: record.addr,
                        advert: record.advert.clone(),
                    },
                );
                assert(record_views(kept@) =~= record_views(before) + seq![record@]);
            }
            i += 1;
        }
        assert(h.take(n as int) =~= h);
        self.records = kept;
    }

    /// The senders and beacons of the hosts in the registry, in the order
    /// in which they were first heard.
    pub fn host_list(&self) -> (r: Vec<(SocketAddress, HostAdvertisement)>)
        ensures
            host_list_views(r@) == listed_hosts(self@),
    {
        let mut out: Vec<(SocketAddress, HostAdvertisement)> = Vec::new();
        let n = self.records.len();
        let mut i: usize = 0;
        while i < n
            invariant
                i <= n,
                n == self.records@.len(),
                host_list_views(out@) == listed_hosts(self@).take(i as int),
            decreases n - i,
        {
            let record = &self.records[i];
            let ghost before = out@;
            out.push((record.addr, record.advert.clone()));
            assert(host_list_views(out@) =~= host_list_views(before).push(
                (record.addr, record.advert@),
            ));
            assert(host_list_views(out@) =~= listed_hosts(self@).take(i as int + 1));
            i += 1;
        }
        assert(listed_hosts(self@).take(n as int) =~= listed_hosts(self@));
        out
    }
}

/// Whether two lists hold the same hosts, in whatever order and however
/// often.
pub open spec fn same_hosts(a: Seq<FieldHostView>, b: Seq<FieldHostView>) -> bool {
    forall|x: FieldHostView| a.contains(x) <==> b.contains(x)
}

/// Whether two lists of indices are the same.
pub fn same_indices(a: &Vec<u32>, b: &Vec<u32>) -> (r: bool)
    ensures
        r == (a@ == b@),
{
    if a.len() != b.len() {
        return false;
    }
    let n = a.len();
    let mut i: usize = 0;
    while i < n
        invariant
            i <= n,
            n == a@.len(),
            n == b@.len(),
            forall|k: int| 0 <= k < i ==> a@[k] == b@[k],
        decreases n - i,
    {
        if a[i] != b[i] {
            return false;
        }
        i += 1;
    }
    assert(a@ =~= b@);
    true
}

/// Whether two hosts are the same in every part.
pub fn same_host(a: &FieldHost, b: &FieldHost) -> (r: bool)
    ensures
        r == (a@ == b@),
{
    a.addr.same(&b.addr) && same_indices(&a.interfaces, &b.interfaces) && same_name(
        &a.hostname,
        &b.hostname,
    )
}

/// Whether the list holds the host.
pub fn contains_host(list: &Vec<FieldHost>, host: &FieldHost) -> (r: bool)
    ensures
        r == host_views(list@).contains(host@),
{
    let n = list.len();
    let mut i: usize = 0;
    while i < n
        invariant
            i <= n,
            n == list@.len(),
            forall|k: int| 0 <= k < i ==> (#[trigger] host_views(list@)[k]) != host@,
        decreases n - i,
    {
        assert(host_views(list@)[i as int] == list@[i as int]@);
        if same_host(&list[i], host) {
            return true;
        }
        i += 1;
    }
    false
}

/// Whether every host of `a` is in `b`.
fn all_contained(a: &Vec<FieldHost>, b: &Vec<FieldHost>) -> (r: bool)
    ensures
        r == (forall|x: FieldHostView|
            host_views(a@).contains(x) ==> host_views(b@).contains(x)),
{
    let n = a.len();
    let mut i: usize = 0;
    while i < n
        invariant
            i <= n,
            n == a@.len(),
            forall|k: int|
                0 <= k < i ==> host_views(b@).contains(#[trigger] host_views(a@)[k]),
        decreases n - i,
    {
        assert(host_views(a@)[i as int] == a@[i as int]@);
        if !contains_host(b, &a[i]) {
            assert(host_views(a@).contains(a@[i as int]@));
            return false;
        }
        i += 1;
    }
    assert forall|x: FieldHostView| host_views(a@).contains(x) implies host_views(
        b@,
    ).contains(x) by {
        let k = choose|k: int| 0 <= k < host_views(a@).len() && host_views(a@)[k] == x;
        assert(host_views(b@).contains(host_views(a@)[k]));
    }
    true
}

/// The hosts that can be reached, as the consumer last saw them.
#[derive(Debug)]
pub struct AvailableHosts {
    hosts: Vec<FieldHost>,
}

impl View for AvailableHosts {
    type V = Seq<FieldHostView>;

    closed spec fn view(&self) -> Seq<FieldHostView> {
        host_views(self.hosts@)
    }
}

impl Default for AvailableHosts {
    fn default() -> (r: AvailableHosts)
        ensures
            r@ == Seq::<FieldHostView>::empty(),
    {
        AvailableHosts::new()
    }
}

impl AvailableHosts {
    /// No hosts.
    pub fn new() -> (r: AvailableHosts)
        ensures
            r@ == Seq::<FieldHostView>::empty(),
    {
        let r = AvailableHosts { hosts: Vec::new() };
        assert(host_views(r.hosts@) =~= Seq::<FieldHostView>::empty());
        r
    }

    /// The hosts.
    pub fn hosts(&self) -> (r: &Vec<FieldHost>)
        ensures
            host_views(r@) == self@,
    {
        &self.hosts
    }

    /// Takes in a host list from discovery and tells whether anything has
    /// changed. A list with the same hosts as before, in whatever order,
    /// changes nothing, so that whoever watches the hosts is not woken for
    /// nothing; any other list takes the place of the old one.
    pub fn update(&mut self, new_hosts: Vec<FieldHost>) -> (changed: bool)
        ensures
            changed == !same_hosts(old(self)@, host_views(new_hosts@)),
            final(self)@ == (if changed {
                host_views(new_hosts@)
            } else {
                old(self)@
            }),
    {
        if all_contained(&self.hosts, &new_hosts) && all_contained(&new_hosts, &self.hosts) {
            false
        } else {
            self.hosts = new_hosts;
            true
        }
    }
}

} // verus!
