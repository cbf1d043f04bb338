//! The peers that discovery currently reports as reachable.
//!
//! A peer is known by its identity, an opaque string of bytes. The set keeps
//! its members in the order in which they were discovered, so that whatever
//! walks it does so in an order that the contracts can name; as a set it is
//! the members and nothing else.
use vstd::prelude::*;

verus! {

/// What an identity is to the contracts: its bytes.
pub type PeerKey = Seq<u8>;

/// The identity of a remote node. Two identities are the same peer exactly
/// when their bytes are equal.
#[derive(Debug, Eq, Hash)]
pub struct PeerIdentity {
    bytes: Vec<u8>,
}

impl View for PeerIdentity {
    type V = PeerKey;

    closed spec fn view(&self) -> PeerKey {
        self.bytes@
    }
}

impl DeepView for PeerIdentity {
    type V = PeerKey;

    open spec fn deep_view(&self) -> PeerKey {
        self@
    }
}

/// Whether two byte strings are equal.
fn same_bytes(a: &Vec<u8>, b: &Vec<u8>) -> (same: bool)
    ensures
        same == (a@ == b@),
{
    if a.len() != b.len() {
        return false;
    }
    let mut i: usize = 0;
    while i < a.len()
        invariant
            a.len() == b.len(),
            i <= a.len(),
            forall|k: int| 0 <= k < i ==> a@[k] == b@[k],
        decreases a.len() - i,
    {
        if a[i] != b[i] {
            return false;
        }
        i += 1;
    }
    assert(a@ =~= b@);
    true
}

impl PeerIdentity {
    /// The identity with the given bytes.
    pub fn new(bytes: Vec<u8>) -> (id: PeerIdentity)
        ensures
            id@ == bytes@,
    {
        PeerIdentity { bytes }
    }

    /// The bytes of the identity.
    pub fn as_bytes(&self) -> (bytes: &[u8])
        ensures
            bytes@ == self@,
    {
        self.bytes.as_slice()
    }
}

impl PartialEq for PeerIdentity {
    fn eq(&self, other: &PeerIdentity) -> (same: bool) {
        same_bytes(&self.bytes, &other.bytes)
    }
}

impl vstd::std_specs::cmp::PartialEqSpecImpl for PeerIdentity {
    open spec fn obeys_eq_spec() -> bool {
        true
    }

    open spec fn eq_spec(&self, other: &PeerIdentity) -> bool {
        self@ == other@
    }
}

impl Clone for PeerIdentity {
    fn clone(&self) -> (copy: PeerIdentity)
        ensures
            copy@ == self@,
    {
        let bytes = self.bytes.clone();
        assert(bytes@ =~= self.bytes@);
        PeerIdentity { bytes }
    }
}

/// The peers after discovery has reported `id`: `id` joins at the end unless
/// it is a member already.
pub open spec fn after_discover(peers: Seq<PeerKey>, id: PeerKey) -> Seq<PeerKey> {
    if peers.contains(id) {
        peers
    } else {
        peers.push(id)
    }
}

/// The peers after discovery has reported `id` as expired: `id` leaves, and
/// the others keep their order.
pub open spec fn after_expire(peers: Seq<PeerKey>, id: PeerKey) -> Seq<PeerKey> {
    if peers.contains(id) {
        peers.remove(peers.index_of(id))
    } else {
        peers
    }
}

/// The set of the peers that discovery has reported and not since reported
/// as expired.
#[derive(Debug)]
pub struct PeerSet {
    members: Vec<PeerIdentity>,
}

impl View for PeerSet {
    type V = Seq<PeerKey>;

    /// The members, first discovered first.
    closed spec fn view(&self) -> Seq<PeerKey> {
        self.members.deep_view()
    }
}

impl PeerSet {
    #[verifier::type_invariant]
    spec fn distinct(&self) -> bool {
        self.members.deep_view().no_duplicates()
    }

    /// The members as a set.
    pub open spec fn members(&self) -> Set<PeerKey> {
        self@.to_set()
    }

    /// The empty set.
    pub fn new() -> (set: PeerSet)
        ensures
            set@ == Seq::<PeerKey>::empty(),
    {
        let members: Vec<PeerIdentity> = Vec::new();
        assert(members.deep_view() =~= Seq::<PeerKey>::empty());
        PeerSet { members }
    }

    /// The number of members.
    pub fn len(&self) -> (n: usize)
        ensures
            n == self@.len(),
            n == self.members().len(),
            self@.no_duplicates(),
    {
        proof {
            use_type_invariant(self);
            self@.unique_seq_to_set();
        }
        self.members.len()
    }

    /// Whether the set has no member.
    pub fn is_empty(&self) -> (empty: bool)
        ensures
            empty == (self@.len() == 0),
            empty == self.members().is_empty(),
    {
        proof {
            use_type_invariant(self);
            self@.unique_seq_to_set();
        }
        self.members.len() == 0
    }

    /// Where `id` stands among the members, if it is one.
    fn position(&self, id: &PeerIdentity) -> (at: Option<usize>)
        ensures
            self@.no_duplicates(),
            at is Some <==> self@.contains(id@),
            at matches Some(i) ==> i < self@.len() && self@[i as int] == id@ && self@.index_of(id@)
                == i,
    {
        proof {
            use_type_invariant(self);
        }
        let mut i: usize = 0;
        while i < self.members.len()
            invariant
                i <= self.members.len(),
                self@ == self.members.deep_view(),
                self@.no_duplicates(),
                forall|k: int| 0 <= k < i ==> self@[k] != id@,
            decreases self.members.len() - i,
        {
            if self.members[i] == *id {
                assert(self@[i as int] == id@);
                assert(self@.contains(id@));
                return Some(i);
            }
            i += 1;
        }
        None
    }

    /// Whether `id` is a member.
    pub fn contains(&self, id: &PeerIdentity) -> (found: bool)
        ensures
            found == self@.contains(id@),
            found == self.members().contains(id@),
    {
        self.position(id).is_some()
    }

    /// Discovery has reported `id`: it becomes a member. Returns whether it
    /// was new; for a member nothing changes.
    pub fn discover(&mut self, id: PeerIdentity) -> (added: bool)
        ensures
            final(self)@ == after_discover(old(self)@, id@),
            final(self).members() == old(self).members().insert(id@),
            added == !old(self)@.contains(id@),
    {
        match self.position(&id) {
            Some(_) => {
                assert(self.members().insert(id@) =~= self.members());
                false
            },
            None => {
                let ghost before = self@;
                proof {
                    before.lemma_push_to_set_commute(id@);
                }
                // The members change outside the set and come back whole: a
                // field under the type invariant is not borrowed mutably.
                let mut members: Vec<PeerIdentity> = Vec::new();
                assert(members.deep_view() =~= Seq::<PeerKey>::empty());
                core::mem::swap(&mut self.members, &mut members);
                members.push(id);
                assert(members.deep_view() =~= before.push(id@));
                core::mem::swap(&mut self.members, &mut members);
                true
            },
        }
    }

    /// Discovery has reported `id` as expired: it is no member any more.
    /// Returns whether it was one; for a stranger nothing changes.
    pub fn expire(&mut self, id: &PeerIdentity) -> (removed: bool)
        ensures
            final(self)@ == after_expire(old(self)@, id@),
            final(self).members() == old(self).members().remove(id@),
            removed == old(self)@.contains(id@),
    {
        match self.position(id) {
            Some(i) => {
                let ghost before = self@;
                let mut members: Vec<PeerIdentity> = Vec::new();
                assert(members.deep_view() =~= Seq::<PeerKey>::empty());
                core::mem::swap(&mut self.members, &mut members);
                members.remove(i);
                assert(members.deep_view() =~= before.remove(i as int));
                proof {
                    lemma_expire_model(before, id@);
                }
                core::mem::swap(&mut self.members, &mut members);
                true
            },
            None => {
                assert(self.members().remove(id@) =~= self.members());
                false
            },
        }
    }

    /// The members at this moment, first discovered first.
    pub fn snapshot(&self) -> (members: Vec<PeerIdentity>)
        ensures
            members.deep_view() == self@,
            members.deep_view().no_duplicates(),
    {
        proof {
            use_type_invariant(self);
        }
        let mut out: Vec<PeerIdentity> = Vec::new();
        let mut i: usize = 0;
        while i < self.members.len()
            invariant
                i <= self.members.len(),
                out.len() == i,
                forall|k: int| 0 <= k < i ==> out[k]@ == self.members[k]@,
            decreases self.members.len() - i,
        {
            out.push(self.members[i].clone());
            i += 1;
        }
        assert(out.deep_view() =~= self.members.deep_view());
        out
    }
}

/// What expiry does to a set without duplicates: the peer is gone, every
/// other member stays, and no duplicate appears.
pub proof fn lemma_expire_model(peers: Seq<PeerKey>, id: PeerKey)
    requires
        peers.no_duplicates(),
    ensures
        after_expire(peers, id).no_duplicates(),
        !after_expire(peers, id).contains(id),
        after_expire(peers, id).to_set() == peers.to_set().remove(id),
{
    let after = after_expire(peers, id);
    if peers.contains(id) {
        let i = peers.index_of(id);
        assert forall|k: int| 0 <= k < after.len() implies after[k] != id && peers.contains(
            after[k],
        ) by {
            if k < i {
                assert(after[k] == peers[k]);
            } else {
                assert(after[k] == peers[k + 1]);
            }
        }
        assert forall|p: PeerKey| peers.contains(p) && p != id implies after.contains(p) by {
            let j = peers.index_of(p);
            if j < i {
                assert(after[j] == p);
            } else {
                assert(after[j - 1] == p);
            }
        }
        assert(after.to_set() =~= peers.to_set().remove(id));
    } else {
        assert(after.to_set() =~= peers.to_set().remove(id));
    }
}

/// Discovery keeps a set without duplicates so, and makes the peer a member.
pub proof fn lemma_discover_model(peers: Seq<PeerKey>, id: PeerKey)
    requires
        peers.no_duplicates(),
    ensures
        after_discover(peers, id).no_duplicates(),
        after_discover(peers, id).contains(id),
        after_discover(peers, id).to_set() == peers.to_set().insert(id),
{
    let after = after_discover(peers, id);
    if peers.contains(id) {
        assert(after.to_set() =~= peers.to_set().insert(id));
    } else {
        peers.lemma_push_to_set_commute(id);
        assert(after[peers.len() as int] == id);
    }
}

/// Discovery is idempotent: to report a peer twice in succession is to
/// report it once.
pub proof fn lemma_discover_idempotent(peers: Seq<PeerKey>, id: PeerKey)
    ensures
        after_discover(after_discover(peers, id), id) == after_discover(peers, id),
{
    if !peers.contains(id) {
        assert(peers.push(id)[peers.len() as int] == id);
    }
}

/// Expiry of a peer that is no member changes nothing.
pub proof fn lemma_expire_absent(peers: Seq<PeerKey>, id: PeerKey)
    requires
        !peers.contains(id),
    ensures
        after_expire(peers, id) == peers,
{
}

/// Expiry is idempotent: to report a peer as expired twice in succession is
/// to report it once.
pub proof fn lemma_expire_idempotent(peers: Seq<PeerKey>, id: PeerKey)
    requires
        peers.no_duplicates(),
    ensures
        after_expire(after_expire(peers, id), id) == after_expire(peers, id),
{
    lemma_expire_model(peers, id);
}

/// Expiry after discovery always removes the peer, whether it was a member
/// before or not; a peer that was none leaves the set as it was.
pub proof fn lemma_expire_after_discover(peers: Seq<PeerKey>, id: PeerKey)
    requires
        peers.no_duplicates(),
    ensures
        !after_expire(after_discover(peers, id), id).contains(id),
        after_expire(after_discover(peers, id), id).to_set() == peers.to_set().remove(id),
        !peers.contains(id) ==> after_expire(after_discover(peers, id), id) == peers,
{
    let joined = after_discover(peers, id);
    lemma_discover_model(peers, id);
    lemma_expire_model(joined, id);
    assert(peers.to_set().insert(id).remove(id) =~= peers.to_set().remove(id));
    if !peers.contains(id) {
        let last = peers.len() as int;
        assert(joined[last] == id);
        assert(joined.index_of(id) == last);
        assert(joined.remove(last) =~= peers);
    }
}

} // verus!
