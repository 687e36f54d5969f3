//! The registry of the peers that discovery has found. A peer is known by its
//! name; it is removed by the identifier of the advertisement that brought it,
//! which is compared exactly.

use crate::seqs::{first_index, lemma_first_index, lemma_first_index_is};
use crate::text::equals;
use vstd::prelude::*;

verus! {

/// The milliseconds that discovery waits for an event before it looks whether
/// it was told to stop.
pub const DISCOVERY_POLL_MILLIS: u64 = 500;

/// A peer that can be sent to.
#[derive(Clone, Debug, PartialEq, Eq)]
pub struct DiscoveredService {
    pub name: String,
    pub role: String,
    pub host: String,
    pub port: u16,
}

/// [`DiscoveredService`] as a value of specifications.
pub struct ServiceModel {
    pub name: Seq<char>,
    pub role: Seq<char>,
    pub host: Seq<char>,
    pub port: u16,
}

impl DeepView for DiscoveredService {
    type V = ServiceModel;

    open spec fn deep_view(&self) -> ServiceModel {
        ServiceModel { name: self.name@, role: self.role@, host: self.host@, port: self.port }
    }
}

impl DiscoveredService {
    /// A copy of this peer.
    pub fn duplicate(&self) -> (copy: DiscoveredService)
        ensures
            copy.deep_view() == self.deep_view(),
    {
        DiscoveredService {
            name: self.name.clone(),
            role: self.role.clone(),
            host: self.host.clone(),
            port: self.port,
        }
    }

    /// The peer at an address that the user typed in: it is called by its
    /// address, and its role is `direct`.
    pub fn direct(host: &str, port: u16, label: &str) -> (peer: DiscoveredService)
        ensures
            peer.deep_view() == (ServiceModel {
                name: label@,
                role: "direct"@,
                host: host@,
                port,
            }),
    {
        DiscoveredService {
            name: label.to_owned(),
            role: "direct".to_owned(),
            host: host.to_owned(),
            port,
        }
    }
}

/// What an advertisement on the network says, as far as the registry reads it.
#[derive(Clone, Debug, PartialEq, Eq)]
pub struct Advertisement {
    /// The full name of the advertised service; it identifies the
    /// advertisement.
    pub fullname: String,
    /// The property `role`, where the advertisement has it.
    pub role: Option<String>,
    /// The property `name`, where the advertisement has it.
    pub name: Option<String>,
    /// The addresses of the advertised host.
    pub addresses: Vec<String>,
    pub port: u16,
}

/// The peer that an advertisement tells of, as `own_name` sees it: called by
/// the property `name`, or by the full name of the service without it; of the
/// role `unknown` where the property is missing; at the first address. An
/// advertisement without an address tells of no peer, nor does one under the
/// reader's own name.
pub open spec fn advertised_peer(
    fullname: Seq<char>,
    role: Option<Seq<char>>,
    name: Option<Seq<char>>,
    addresses: Seq<Seq<char>>,
    port: u16,
    own_name: Option<Seq<char>>,
) -> Option<ServiceModel> {
    let called = match name {
        Some(n) => n,
        None => fullname,
    };
    if own_name == Some(called) || addresses.len() == 0 {
        None
    } else {
        Some(
            ServiceModel {
                name: called,
                role: match role {
                    Some(r) => r,
                    None => "unknown"@,
                },
                host: addresses[0],
                port,
            },
        )
    }
}

/// The peer that an advertisement tells of; see [`advertised_peer`].
pub fn peer_of(advertisement: &Advertisement, own_name: &Option<String>) -> (peer: Option<
    DiscoveredService,
>)
    ensures
        peer.deep_view() == advertised_peer(
            advertisement.fullname@,
            advertisement.role.deep_view(),
            advertisement.name.deep_view(),
            advertisement.addresses.deep_view(),
            advertisement.port,
            own_name.deep_view(),
        ),
{
    let name = match &advertisement.name {
        Some(n) => n.clone(),
        None => advertisement.fullname.clone(),
    };
    let is_self = match own_name {
        Some(own) => equals(own.as_str(), name.as_str()),
        None => false,
    };
    if is_self || advertisement.addresses.len() == 0 {
        return None;
    }
    let role = match &advertisement.role {
        Some(r) => r.clone(),
        None => "unknown".to_owned(),
    };
    proof {
        assert(advertisement.addresses.deep_view()[0] == advertisement.addresses[0]@);
    }
    Some(
        DiscoveredService {
            name,
            role,
            host: advertisement.addresses[0].clone(),
            port: advertisement.port,
        },
    )
}

/// A peer of the registry, with the identifier of the advertisement that
/// brought it.
#[derive(Clone, Debug, PartialEq, Eq)]
pub struct RegisteredPeer {
    pub identifier: String,
    pub service: DiscoveredService,
}

/// [`RegisteredPeer`] as a value of specifications.
pub struct PeerModel {
    pub identifier: Seq<char>,
    pub service: ServiceModel,
}

impl DeepView for RegisteredPeer {
    type V = PeerModel;

    open spec fn deep_view(&self) -> PeerModel {
        PeerModel { identifier: self.identifier@, service: self.service.deep_view() }
    }
}

/// The index of the first peer called `name`, or the number of peers.
pub open spec fn index_of_name(peers: Seq<PeerModel>, name: Seq<char>) -> int {
    first_index(peers, |p: PeerModel| p.service.name == name)
}

/// The peers after one was found: it takes the place of the peer of the same
/// name, or is added at the end where the name is new.
pub open spec fn with_peer(peers: Seq<PeerModel>, peer: PeerModel) -> Seq<PeerModel> {
    let at = index_of_name(peers, peer.service.name);
    if at < peers.len() {
        peers.update(at, peer)
    } else {
        peers.push(peer)
    }
}

/// The peers without those that an advertisement brought.
pub open spec fn without_identifier(peers: Seq<PeerModel>, identifier: Seq<char>) -> Seq<
    PeerModel,
>
    decreases peers.len(),
{
    if peers.len() == 0 {
        Seq::empty()
    } else if peers.last().identifier == identifier {
        without_identifier(peers.drop_last(), identifier)
    } else {
        without_identifier(peers.drop_last(), identifier).push(peers.last())
    }
}

/// No two peers have the same name.
pub open spec fn names_are_unique(peers: Seq<PeerModel>) -> bool {
    forall|i: int, j: int|
        0 <= i < j < peers.len() ==> (#[trigger] peers[i]).service.name != (
        #[trigger] peers[j]).service.name
}

/// What discovery reports.
#[derive(Clone, Debug, PartialEq, Eq)]
pub enum DiscoveryEvent {
    /// An advertisement was resolved.
    Resolved(Advertisement),
    /// The advertisement with this full name is gone.
    Removed(String),
    /// Anything else: a search began or ended, a service was seen but is not
    /// resolved yet.
    Other,
}

/// The peers that discovery has found, each name once.
pub struct PeerRegistry {
    peers: Vec<RegisteredPeer>,
}

impl View for PeerRegistry {
    type V = Seq<PeerModel>;

    closed spec fn view(&self) -> Seq<PeerModel> {
        self.peers.deep_view()
    }
}

impl PeerRegistry {
    /// A registry without peers.
    pub fn new() -> (registry: PeerRegistry)
        ensures
            registry@ == Seq::<PeerModel>::empty(),
            names_are_unique(registry@),
    {
        let registry = PeerRegistry { peers: Vec::new() };
        proof {
            assert(registry@ =~= Seq::<PeerModel>::empty());
        }
        registry
    }

    /// The number of peers.
    pub fn len(&self) -> (n: usize)
        ensures
            n == self@.len(),
    {
        self.peers.len()
    }

    /// The index of the first peer called `name`, or the number of peers.
    fn find_name(&self, name: &str) -> (at: usize)
        ensures
            at == index_of_name(self.peers.deep_view(), name@),
            at <= self.peers.len(),
    {
        let ghost p = |q: PeerModel| q.service.name == name@;
        let mut i: usize = 0;
        while i < self.peers.len()
            invariant
                i <= self.peers.len(),
                p == (|q: PeerModel| q.service.name == name@),
                forall|j: int| 0 <= j < i ==> !p(#[trigger] self.peers.deep_view()[j]),
            decreases self.peers.len() - i,
        {
            if equals(self.peers[i].service.name.as_str(), name) {
                proof {
                    assert(p(self.peers.deep_view()[i as int]));
                    lemma_first_index_is(self.peers.deep_view(), p, i as int);
                }
                return i;
            }
            i += 1;
        }
        proof {
            lemma_first_index_is(self.peers.deep_view(), p, i as int);
        }
        i
    }

    /// Enters a peer under its name; see [`with_peer`].
    pub fn insert(&mut self, identifier: &str, service: DiscoveredService)
        ensures
            final(self)@ == with_peer(
                old(self)@,
                PeerModel { identifier: identifier@, service: service.deep_view() },
            ),
            names_are_unique(old(self)@) ==> names_are_unique(final(self)@),
    {
        proof {
            if names_are_unique(self@) {
                lemma_with_peer_unique(
                    self@,
                    PeerModel { identifier: identifier@, service: service.deep_view() },
                );
            }
        }
        let ghost before = self.peers.deep_view();
        let i = self.find_name(service.name.as_str());
        let peer = RegisteredPeer { identifier: identifier.to_owned(), service };
        if i < self.peers.len() {
            self.peers.set(i, peer);
            proof {
                assert(self.peers.deep_view() =~= before.update(i as int, peer.deep_view()));
            }
        } else {
            self.peers.push(peer);
            proof {
                assert(self.peers.deep_view() =~= before.push(peer.deep_view()));
            }
        }
    }

    /// Enters a peer that the user typed in. It is identified by its name.
    pub fn add_manual_service(&mut self, ip: &str, port: u16, role: &str, name: &str)
        ensures
            final(self)@ == with_peer(
                old(self)@,
                PeerModel {
                    identifier: name@,
                    service: ServiceModel { name: name@, role: role@, host: ip@, port },
                },
            ),
            names_are_unique(old(self)@) ==> names_are_unique(final(self)@),
    {
        let service = DiscoveredService {
            name: name.to_owned(),
            role: role.to_owned(),
            host: ip.to_owned(),
            port,
        };
        self.insert(name, service);
    }

    /// Removes the peers that the advertisement with this identifier brought.
    pub fn remove(&mut self, identifier: &str)
        ensures
            final(self)@ == without_identifier(old(self)@, identifier@),
            names_are_unique(old(self)@) ==> names_are_unique(final(self)@),
    {
        proof {
            lemma_without_identifier(self@, identifier@);
        }
        let ghost before = self.peers.deep_view();
        let mut kept: Vec<RegisteredPeer> = Vec::new();
        let mut i: usize = 0;
        proof {
            assert(before.take(0) =~= Seq::<PeerModel>::empty());
        }
        while i < self.peers.len()
            invariant
                i <= self.peers.len(),
                self.peers.deep_view() == before,
                kept.deep_view() == without_identifier(before.take(i as int), identifier@),
            decreases self.peers.len() - i,
        {
            let ghost so_far = kept.deep_view();
            proof {
                assert(before.take(i + 1).drop_last() =~= before.take(i as int));
                assert(before.take(i + 1).last() == self.peers[i as int].deep_view());
            }
            if !equals(self.peers[i].identifier.as_str(), identifier) {
                let copy = RegisteredPeer {
                    identifier: self.peers[i].identifier.clone(),
                    service: self.peers[i].service.duplicate(),
                };
                kept.push(copy);
                proof {
                    assert(kept.deep_view() =~= so_far.push(copy.deep_view()));
                }
            }
            i += 1;
        }
        proof {
            assert(before.take(before.len() as int) =~= before);
        }
        self.peers = kept;
    }

    /// Forgets every peer.
    pub fn clear(&mut self)
        ensures
            final(self)@ == Seq::<PeerModel>::empty(),
    {
        self.peers = Vec::new();
        proof {
            assert(self@ =~= Seq::<PeerModel>::empty());
        }
    }

    /// Takes what discovery reports: a resolved advertisement enters the peer
    /// it tells of, if it tells of one; a removal takes out what that
    /// advertisement brought; anything else changes nothing.
    pub fn handle_event(&mut self, event: &DiscoveryEvent, own_name: &Option<String>)
        ensures
            final(self)@ == (match event {
                DiscoveryEvent::Resolved(ad) => match advertised_peer(
                    ad.fullname@,
                    ad.role.deep_view(),
                    ad.name.deep_view(),
                    ad.addresses.deep_view(),
                    ad.port,
                    own_name.deep_view(),
                ) {
                    Some(service) => with_peer(
                        old(self)@,
                        PeerModel { identifier: ad.fullname@, service },
                    ),
                    None => old(self)@,
                },
                DiscoveryEvent::Removed(fullname) => without_identifier(old(self)@, fullname@),
                DiscoveryEvent::Other => old(self)@,
            }),
            names_are_unique(old(self)@) ==> names_are_unique(final(self)@),
    {
        match event {
            DiscoveryEvent::Resolved(ad) => {
                match peer_of(ad, own_name) {
                    Some(service) => {
                        self.insert(ad.fullname.as_str(), service);
                    },
                    None => {},
                }
            },
            DiscoveryEvent::Removed(fullname) => {
                self.remove(fullname.as_str());
            },
            DiscoveryEvent::Other => {},
        }
    }

    /// The peers, in the order in which their names were first found.
    pub fn services(&self) -> (services: Vec<DiscoveredService>)
        ensures
            services.deep_view() == self@.map_values(|p: PeerModel| p.service),
    {
        let mut services: Vec<DiscoveredService> = Vec::new();
        let mut i: usize = 0;
        while i < self.peers.len()
            invariant
                i <= self.peers.len(),
                services.len() == i,
                forall|j: int|
                    0 <= j < i ==> services[j].deep_view() == self.peers[j].service.deep_view(),
            decreases self.peers.len() - i,
        {
            services.push(self.peers[i].service.duplicate());
            i += 1;
        }
        proof {
            assert(services.deep_view() =~= self@.map_values(|p: PeerModel| p.service));
        }
        services
    }

    /// The first peer of a role, if there is one.
    pub fn find_by_role(&self, role: &str) -> (found: Option<DiscoveredService>)
        ensures
            ({
                let at = first_index(self@, |p: PeerModel| p.service.role == role@);
                found.deep_view() == (if at < self@.len() {
                    Some(self@[at].service)
                } else {
                    None
                })
            }),
    {
        let ghost p = |q: PeerModel| q.service.role == role@;
        let mut i: usize = 0;
        while i < self.peers.len()
            invariant
                i <= self.peers.len(),
                p == (|q: PeerModel| q.service.role == role@),
                forall|j: int| 0 <= j < i ==> !p(#[trigger] self@[j]),
            decreases self.peers.len() - i,
        {
            if equals(self.peers[i].service.role.as_str(), role) {
                proof {
                    assert(p(self@[i as int]));
                    lemma_first_index_is(self@, p, i as int);
                }
                return Some(self.peers[i].service.duplicate());
            }
            i += 1;
        }
        proof {
            lemma_first_index_is(self@, p, i as int);
        }
        None
    }
}

/// Entering a peer keeps every name single.
pub proof fn lemma_with_peer_unique(peers: Seq<PeerModel>, peer: PeerModel)
    requires
        names_are_unique(peers),
    ensures
        names_are_unique(with_peer(peers, peer)),
        index_of_name(with_peer(peers, peer), peer.service.name) < with_peer(peers, peer).len(),
        with_peer(peers, peer)[index_of_name(with_peer(peers, peer), peer.service.name)] == peer,
{
    let p = |q: PeerModel| q.service.name == peer.service.name;
    lemma_first_index(peers, p);
    let at = index_of_name(peers, peer.service.name);
    let after = with_peer(peers, peer);
    assert forall|i: int, j: int| 0 <= i < j < after.len() implies (#[trigger] after[i]).service.name
        != (#[trigger] after[j]).service.name by {
        if at < peers.len() {
            if i == at {
                assert(after[j] == peers[j]);
                assert(peers[at].service.name != peers[j].service.name);
            } else if j == at {
                assert(after[i] == peers[i]);
                assert(peers[i].service.name != peers[at].service.name);
            } else {
                assert(after[i] == peers[i] && after[j] == peers[j]);
            }
        } else {
            if j == peers.len() {
                assert(after[i] == peers[i]);
                assert(!p(peers[i]));
            } else {
                assert(after[i] == peers[i] && after[j] == peers[j]);
            }
        }
    }
    assert forall|k: int| 0 <= k < at implies !p(#[trigger] after[k]) by {
        assert(after[k] == peers[k]);
    }
    assert(p(after[at]));
    lemma_first_index_is(after, p, at);
}

/// Removing by identifier keeps every name single, leaves no peer of that
/// identifier, and takes out no other peer.
pub proof fn lemma_without_identifier(peers: Seq<PeerModel>, identifier: Seq<char>)
    ensures
        forall|k: int|
            0 <= k < without_identifier(peers, identifier).len() ==> (
            #[trigger] without_identifier(peers, identifier)[k]).identifier != identifier
                && peers.contains(without_identifier(peers, identifier)[k]),
        forall|i: int|
            0 <= i < peers.len() && (#[trigger] peers[i]).identifier != identifier
                ==> without_identifier(peers, identifier).contains(peers[i]),
        names_are_unique(peers) ==> names_are_unique(without_identifier(peers, identifier)),
    decreases peers.len(),
{
    let rest = without_identifier(peers, identifier);
    if peers.len() > 0 {
        let shorter = peers.drop_last();
        let head = without_identifier(shorter, identifier);
        lemma_without_identifier(shorter, identifier);
        assert forall|k: int| 0 <= k < rest.len() implies (#[trigger] rest[k]).identifier
            != identifier && peers.contains(rest[k]) by {
            if k < head.len() {
                assert(rest[k] == head[k]);
                let j = choose|j: int| 0 <= j < shorter.len() && shorter[j] == head[k];
                assert(peers[j] == head[k]);
            } else {
                assert(rest[k] == peers[peers.len() - 1]);
            }
        }
        assert forall|i: int|
            0 <= i < peers.len() && (#[trigger] peers[i]).identifier != identifier implies rest.contains(
            peers[i],
        ) by {
            if i < peers.len() - 1 {
                assert(shorter[i] == peers[i]);
                let k = choose|k: int| 0 <= k < head.len() && head[k] == peers[i];
                assert(rest[k] == peers[i]);
            } else {
                assert(rest[rest.len() - 1] == peers[i]);
            }
        }
        if names_are_unique(peers) {
            assert(names_are_unique(shorter)) by {
                assert forall|i: int, j: int| 0 <= i < j < shorter.len() implies (
                #[trigger] shorter[i]).service.name != (#[trigger] shorter[j]).service.name by {
                    assert(shorter[i] == peers[i] && shorter[j] == peers[j]);
                }
            }
            assert forall|i: int, j: int| 0 <= i < j < rest.len() implies (
            #[trigger] rest[i]).service.name != (#[trigger] rest[j]).service.name by {
                if j < head.len() {
                    assert(rest[i] == head[i] && rest[j] == head[j]);
                } else {
                    assert(rest[i] == head[i]);
                    let a = choose|a: int| 0 <= a < shorter.len() && shorter[a] == head[i];
                    assert(peers[a] == head[i]);
                    assert(rest[j] == peers[peers.len() - 1]);
                }
            }
        }
    }
}

} // verus!
