//! Players, the relay's abstract state, and the table that implements it.
use vstd::prelude::*;

verus! {

/// What the relay knows of a player, as a mathematical value.
pub struct ClientInfoView {
    pub id: i32,
    pub nickname: Seq<char>,
    pub staking_ckb: u64,
    pub bet_ckb: u64,
}

impl ClientInfoView {
    /// The same record under another session id.
    pub open spec fn with_id(self, id: i32) -> ClientInfoView {
        ClientInfoView { id, nickname: self.nickname, staking_ckb: self.staking_ckb, bet_ckb: self.bet_ckb }
    }
}

/// A player as advertised in the lobby: the session id that the transport
/// gave it, and what it supplied when it registered.
#[derive(Debug)]
pub struct ClientInfo {
    pub id: i32,
    pub nickname: String,
    pub staking_ckb: u64,
    pub bet_ckb: u64,
}

impl View for ClientInfo {
    type V = ClientInfoView;

    open spec fn view(&self) -> ClientInfoView {
        ClientInfoView {
            id: self.id,
            nickname: self.nickname@,
            staking_ckb: self.staking_ckb,
            bet_ckb: self.bet_ckb,
        }
    }
}

/// The view of an optional player.
pub open spec fn option_view(o: Option<ClientInfo>) -> Option<ClientInfoView> {
    match o {
        Some(c) => Some(c@),
        None => None,
    }
}

impl ClientInfo {
    /// A copy of the record with every field kept.
    pub fn duplicate(&self) -> (r: ClientInfo)
        ensures
            r@ == self@,
    {
        ClientInfo {
            id: self.id,
            nickname: self.nickname.clone(),
            staking_ckb: self.staking_ckb,
            bet_ckb: self.bet_ckb,
        }
    }
}

/// What a session was when it was dropped.
pub enum DropOutcomeView {
    WasAbsent,
    WasAdvertised,
    WasPaired(ClientInfoView),
}

/// What a session was when it was dropped, with the partner it had.
pub enum DropOutcome {
    WasAbsent,
    WasAdvertised,
    WasPaired(ClientInfo),
}

impl View for DropOutcome {
    type V = DropOutcomeView;

    open spec fn view(&self) -> DropOutcomeView {
        match self {
            DropOutcome::WasAbsent => DropOutcomeView::WasAbsent,
            DropOutcome::WasAdvertised => DropOutcomeView::WasAdvertised,
            DropOutcome::WasPaired(p) => DropOutcomeView::WasPaired(p@),
        }
    }
}

/// The relay's state as two maps keyed by session id: the advertised
/// players, and for each paired session the record of its partner. A
/// pairing `{a, b}` is the two entries `a -> b` and `b -> a`.
pub struct RelayView {
    pub advertised: Map<i32, ClientInfoView>,
    pub partners: Map<i32, ClientInfoView>,
}

impl RelayView {
    pub open spec fn empty() -> RelayView {
        RelayView { advertised: Map::empty(), partners: Map::empty() }
    }

    /// Every advertised record sits under its own id; no id is both
    /// advertised and paired; pairings are symmetric and never pair an id
    /// with itself.
    pub open spec fn consistent(self) -> bool {
        &&& forall|id: i32| #[trigger]
            self.advertised.contains_key(id) ==> self.advertised[id].id == id
        &&& forall|id: i32| #[trigger]
            self.advertised.contains_key(id) ==> !self.partners.contains_key(id)
        &&& forall|id: i32| #[trigger]
            self.partners.contains_key(id) ==> {
                let p = self.partners[id].id;
                &&& p != id
                &&& self.partners.contains_key(p)
                &&& self.partners[p].id == id
            }
    }

    pub open spec fn partner_of(self, id: i32) -> Option<ClientInfoView> {
        if self.partners.contains_key(id) {
            Some(self.partners[id])
        } else {
            None
        }
    }

    /// Advertise `info` under `id`, unless `id` is already advertised or paired.
    pub open spec fn add_advertised(self, id: i32, info: ClientInfoView) -> (RelayView, bool) {
        if self.advertised.contains_key(id) || self.partners.contains_key(id) {
            (self, false)
        } else {
            (
                RelayView {
                    advertised: self.advertised.insert(id, info.with_id(id)),
                    partners: self.partners,
                },
                true,
            )
        }
    }

    /// Withdraw `id` from the lobby; true iff it was there.
    pub open spec fn remove_advertised(self, id: i32) -> (RelayView, bool) {
        (
            RelayView { advertised: self.advertised.remove(id), partners: self.partners },
            self.advertised.contains_key(id),
        )
    }

    /// Whether `requester` may be paired with the advertised `target_id`.
    pub open spec fn can_pair(self, requester: ClientInfoView, target_id: i32) -> bool {
        &&& !self.advertised.contains_key(requester.id)
        &&& !self.partners.contains_key(requester.id)
        &&& self.advertised.contains_key(target_id)
    }

    /// Pair `requester` with the advertised `target_id`, which leaves the lobby.
    pub open spec fn pair(self, requester: ClientInfoView, target_id: i32) -> (RelayView, bool) {
        if self.can_pair(requester, target_id) {
            (
                RelayView {
                    advertised: self.advertised.remove(target_id),
                    partners: self.partners.insert(
                        requester.id,
                        self.advertised[target_id],
                    ).insert(target_id, requester),
                },
                true,
            )
        } else {
            (self, false)
        }
    }

    /// Undo the pairing of `requester_id` with `target_id`, if it stands: the
    /// pair goes and the target is advertised again.
    pub open spec fn unpair(self, requester_id: i32, target_id: i32) -> (RelayView, bool) {
        if self.partners.contains_key(requester_id) && self.partners[requester_id].id == target_id {
            (
                RelayView {
                    advertised: self.advertised.insert(target_id, self.partners[requester_id]),
                    partners: self.partners.remove(requester_id).remove(target_id),
                },
                true,
            )
        } else {
            (self, false)
        }
    }

    /// Take `id` out of the relay: out of the lobby, or, with its whole
    /// pairing, out of the pairings.
    pub open spec fn drop_session(self, id: i32) -> (RelayView, DropOutcomeView) {
        if self.advertised.contains_key(id) {
            (
                RelayView { advertised: self.advertised.remove(id), partners: self.partners },
                DropOutcomeView::WasAdvertised,
            )
        } else if self.partners.contains_key(id) {
            let p = self.partners[id];
            (
                RelayView {
                    advertised: self.advertised,
                    partners: self.partners.remove(id).remove(p.id),
                },
                DropOutcomeView::WasPaired(p),
            )
        } else {
            (self, DropOutcomeView::WasAbsent)
        }
    }
}

/// The relay starts consistent.
pub proof fn lemma_empty_consistent()
    ensures
        RelayView::empty().consistent(),
{
}

/// Registering keeps the state consistent.
pub proof fn lemma_add_advertised_consistent(s: RelayView, id: i32, info: ClientInfoView)
    requires
        s.consistent(),
    ensures
        s.add_advertised(id, info).0.consistent(),
{
    let t = s.add_advertised(id, info).0;
    assert forall|x: i32| #[trigger] t.partners.contains_key(x) implies {
        let p = t.partners[x].id;
        &&& p != x
        &&& t.partners.contains_key(p)
        &&& t.partners[p].id == x
    } by {
        assert(s.partners.contains_key(x));
    }
}

/// Withdrawing from the lobby keeps the state consistent.
pub proof fn lemma_remove_advertised_consistent(s: RelayView, id: i32)
    requires
        s.consistent(),
    ensures
        s.remove_advertised(id).0.consistent(),
{
    let t = s.remove_advertised(id).0;
    assert forall|x: i32| #[trigger] t.advertised.contains_key(x) implies t.advertised[x].id == x
        && !t.partners.contains_key(x) by {
        assert(s.advertised.contains_key(x));
    }
    assert forall|x: i32| #[trigger] t.partners.contains_key(x) implies {
        let p = t.partners[x].id;
        &&& p != x
        &&& t.partners.contains_key(p)
        &&& t.partners[p].id == x
    } by {
        assert(s.partners.contains_key(x));
    }
}

/// Pairing keeps the state consistent.
pub proof fn lemma_pair_consistent(s: RelayView, requester: ClientInfoView, target_id: i32)
    requires
        s.consistent(),
    ensures
        s.pair(requester, target_id).0.consistent(),
{
    if s.can_pair(requester, target_id) {
        let t = s.pair(requester, target_id).0;
        assert forall|x: i32| #[trigger] t.advertised.contains_key(x) implies t.advertised[x].id == x
            && !t.partners.contains_key(x) by {
            assert(s.advertised.contains_key(x));
        }
        assert forall|x: i32| #[trigger] t.partners.contains_key(x) implies {
            let p = t.partners[x].id;
            &&& p != x
            &&& t.partners.contains_key(p)
            &&& t.partners[p].id == x
        } by {
            if x == requester.id {
                assert(s.advertised.contains_key(target_id));
            } else if x == target_id {
            } else {
                assert(s.partners.contains_key(x));
                let p = s.partners[x].id;
                assert(s.partners.contains_key(p));
            }
        }
    }
}

/// Undoing a pairing keeps the state consistent.
pub proof fn lemma_unpair_consistent(s: RelayView, requester_id: i32, target_id: i32)
    requires
        s.consistent(),
    ensures
        s.unpair(requester_id, target_id).0.consistent(),
{
    if s.partners.contains_key(requester_id) && s.partners[requester_id].id == target_id {
        let t = s.unpair(requester_id, target_id).0;
        assert(s.partners.contains_key(target_id));
        assert forall|x: i32| #[trigger] t.advertised.contains_key(x) implies t.advertised[x].id == x
            && !t.partners.contains_key(x) by {
            if x != target_id {
                assert(s.advertised.contains_key(x));
            }
        }
        assert forall|x: i32| #[trigger] t.partners.contains_key(x) implies {
            let p = t.partners[x].id;
            &&& p != x
            &&& t.partners.contains_key(p)
            &&& t.partners[p].id == x
        } by {
            assert(s.partners.contains_key(x));
            let p = s.partners[x].id;
            assert(s.partners.contains_key(p));
        }
    }
}

/// Dropping a session keeps the state consistent.
pub proof fn lemma_drop_session_consistent(s: RelayView, id: i32)
    requires
        s.consistent(),
    ensures
        s.drop_session(id).0.consistent(),
{
    let t = s.drop_session(id).0;
    assert forall|x: i32| #[trigger] t.advertised.contains_key(x) implies t.advertised[x].id == x
        && !t.partners.contains_key(x) by {
        assert(s.advertised.contains_key(x));
    }
    assert forall|x: i32| #[trigger] t.partners.contains_key(x) implies {
        let p = t.partners[x].id;
        &&& p != x
        &&& t.partners.contains_key(p)
        &&& t.partners[p].id == x
    } by {
        assert(s.partners.contains_key(x));
        let p = s.partners[x].id;
        assert(s.partners.contains_key(p));
    }
}

/// No session is both advertised and paired, and a paired session has one
/// partner.
pub proof fn lemma_one_place(s: RelayView, id: i32)
    requires
        s.consistent(),
    ensures
        !(s.advertised.contains_key(id) && s.partners.contains_key(id)),
        s.partner_of(id) is Some ==> !s.advertised.contains_key(id),
{
}

/// Pairings are symmetric: `b` is the partner of `a` exactly when `a` is the
/// partner of `b`.
pub proof fn lemma_pairing_symmetric(s: RelayView, a: i32, b: i32)
    requires
        s.consistent(),
    ensures
        (s.partner_of(a) is Some && s.partner_of(a)->0.id == b) <==> (s.partner_of(b) is Some
            && s.partner_of(b)->0.id == a),
{
    if s.partners.contains_key(a) && s.partners[a].id == b {
        assert(s.partners.contains_key(b));
    }
    if s.partners.contains_key(b) && s.partners[b].id == a {
        assert(s.partners.contains_key(a));
    }
}

/// Once a session is dropped it has no partner, and neither has the partner
/// it had.
pub proof fn lemma_drop_leaves_no_partner(s: RelayView, x: i32)
    requires
        s.consistent(),
    ensures
        s.drop_session(x).0.partner_of(x) is None,
        s.partners.contains_key(x) ==> s.drop_session(x).0.partner_of(s.partners[x].id) is None,
{
}

/// Dropping a paired session removes the whole pairing, so that dropping the
/// partner afterwards finds it absent: a pairing reports one drop as paired.
pub proof fn lemma_partner_then_absent(s: RelayView, x: i32)
    requires
        s.consistent(),
        s.partners.contains_key(x),
    ensures
        s.drop_session(x).1 == DropOutcomeView::WasPaired(s.partners[x]),
        s.drop_session(x).0.drop_session(s.partners[x].id).1 == DropOutcomeView::WasAbsent,
{
    let y = s.partners[x].id;
    assert(s.partners.contains_key(y));
    assert(!s.advertised.contains_key(y));
}

/// Registering twice: the second call is refused and changes nothing.
pub proof fn lemma_register_twice(s: RelayView, id: i32, info: ClientInfoView)
    ensures
        !s.add_advertised(id, info).0.add_advertised(id, info).1,
        s.add_advertised(id, info).0.add_advertised(id, info).0 == s.add_advertised(id, info).0,
{
}

/// Registering, withdrawing and registering again leaves the state that the
/// first registration left. This holds unless `id` was advertised before
/// with another record, which the second registration would replace.
pub proof fn lemma_register_unregister_register(s: RelayView, id: i32, info: ClientInfoView)
    requires
        s.consistent(),
        s.advertised.contains_key(id) ==> s.advertised[id] == info.with_id(id),
    ensures
        ({
            let s1 = s.add_advertised(id, info).0;
            let s2 = s1.remove_advertised(id).0;
            s2.add_advertised(id, info).0 == s1
        }),
{
    let s1 = s.add_advertised(id, info).0;
    let s2 = s1.remove_advertised(id).0;
    if s.advertised.contains_key(id) {
        assert(!s.partners.contains_key(id));
        assert(s2.advertised.insert(id, info.with_id(id)) =~= s1.advertised);
        assert(s2.add_advertised(id, info).0 == s1);
    } else if s.partners.contains_key(id) {
        assert(s2.advertised =~= s1.advertised);
        assert(s2 == s1);
    } else {
        assert(s2.advertised =~= s.advertised);
        assert(s2.advertised.insert(id, info.with_id(id)) =~= s1.advertised);
        assert(s2.add_advertised(id, info).0 == s1);
    }
}

/// Asking for a session that is not advertised is refused and changes
/// nothing.
pub proof fn lemma_pair_unadvertised_target(s: RelayView, requester: ClientInfoView, target_id: i32)
    requires
        !s.advertised.contains_key(target_id),
    ensures
        s.pair(requester, target_id) == (s, false),
{
}

/// A requester that is already paired is refused and changes nothing.
pub proof fn lemma_pair_paired_requester(s: RelayView, requester: ClientInfoView, target_id: i32)
    requires
        s.partners.contains_key(requester.id),
    ensures
        s.pair(requester, target_id) == (s, false),
{
}

/// A pairing undone right after it was made leaves the state as it was: the
/// target is advertised again with its record.
pub proof fn lemma_unpair_restores(s: RelayView, requester: ClientInfoView, target_id: i32)
    requires
        s.consistent(),
        s.can_pair(requester, target_id),
    ensures
        s.pair(requester, target_id).1,
        s.pair(requester, target_id).0.unpair(requester.id, target_id) == (s, true),
{
    let t = s.pair(requester, target_id).0;
    let u = t.unpair(requester.id, target_id).0;
    assert(!s.partners.contains_key(target_id));
    assert(u.advertised =~= s.advertised);
    assert(u.partners =~= s.partners);
}

/// The lobby `v` holds exactly the entries of `m`, each once.
pub open spec fn lobby_holds(v: Seq<ClientInfo>, m: Map<i32, ClientInfoView>) -> bool {
    &&& forall|i: int| 0 <= i < v.len() ==> m.contains_key(#[trigger] v[i].id) && m[v[i].id] == v[i]@
    &&& forall|i: int, j: int| 0 <= i < v.len() && 0 <= j < v.len() && #[trigger] v[i].id == #[trigger] v[j].id ==> i == j
    &&& forall|id: i32| #[trigger] m.contains_key(id) ==> exists|i: int| 0 <= i < v.len() && v[i].id == id
}

/// `s` lists the entries of `m`, each exactly once, in some order.
pub open spec fn lists_exactly(s: Seq<ClientInfo>, m: Map<i32, ClientInfoView>) -> bool {
    &&& s.len() == m.dom().len()
    &&& forall|i: int| 0 <= i < s.len() ==> m.contains_key(#[trigger] s[i].id) && m[s[i].id] == s[i]@
    &&& forall|i: int, j: int| 0 <= i < s.len() && 0 <= j < s.len() && #[trigger] s[i].id == #[trigger] s[j].id ==> i == j
    &&& forall|id: i32| #[trigger] m.contains_key(id) ==> exists|i: int| 0 <= i < s.len() && s[i].id == id
}

/// Whether the pair `c` holds the session `id`.
pub open spec fn pair_holds(c: (ClientInfo, ClientInfo), id: i32) -> bool {
    c.0.id == id || c.1.id == id
}

/// The pairings `c`, each stored once, are exactly the symmetric entries of `m`.
pub open spec fn channels_hold(c: Seq<(ClientInfo, ClientInfo)>, m: Map<i32, ClientInfoView>) -> bool {
    &&& forall|i: int| 0 <= i < c.len() ==> {
        &&& m.contains_key(#[trigger] c[i].0.id)
        &&& m[c[i].0.id] == c[i].1@
        &&& m.contains_key(c[i].1.id)
        &&& m[c[i].1.id] == c[i].0@
    }
    &&& forall|i: int, j: int, id: i32| 0 <= i < c.len() && 0 <= j < c.len()
        && #[trigger] pair_holds(c[i], id) && #[trigger] pair_holds(c[j], id) ==> i == j
    &&& forall|id: i32| #[trigger] m.contains_key(id) ==> exists|i: int| 0 <= i < c.len() && pair_holds(c[i], id)
}

/// The relay's tables: the lobby, and the established pairings.
pub struct RelayServer {
    partial_clients: Vec<ClientInfo>,
    channels: Vec<(ClientInfo, ClientInfo)>,
    lobby: Ghost<Map<i32, ClientInfoView>>,
    pairing: Ghost<Map<i32, ClientInfoView>>,
}

impl View for RelayServer {
    type V = RelayView;

    closed spec fn view(&self) -> RelayView {
        RelayView { advertised: self.lobby@, partners: self.pairing@ }
    }
}

impl RelayServer {
    /// The tables hold the abstract state, and that state is consistent.
    pub closed spec fn wf(&self) -> bool {
        &&& self@.consistent()
        &&& lobby_holds(self.partial_clients@, self.lobby@)
        &&& channels_hold(self.channels@, self.pairing@)
    }

    /// Every state that the tables reach is consistent.
    pub proof fn lemma_wf_consistent(&self)
        requires
            self.wf(),
        ensures
            self@.consistent(),
    {
    }

    /// A relay with nobody in it.
    pub fn new() -> (r: RelayServer)
        ensures
            r.wf(),
            r@ == RelayView::empty(),
    {
        RelayServer {
            partial_clients: Vec::new(),
            channels: Vec::new(),
            lobby: Ghost(Map::empty()),
            pairing: Ghost(Map::empty()),
        }
    }

    /// The position of `id` in the lobby.
    fn find_advertised(&self, id: i32) -> (r: Option<usize>)
        requires
            self.wf(),
        ensures
            match r {
                Some(i) => i < self.partial_clients.len() && self.partial_clients@[i as int].id == id,
                None => !self@.advertised.contains_key(id),
            },
    {
        let mut i: usize = 0;
        while i < self.partial_clients.len()
            invariant
                self.wf(),
                i <= self.partial_clients.len(),
                forall|k: int| 0 <= k < i ==> (#[trigger] self.partial_clients@[k]).id != id,
            decreases self.partial_clients.len() - i,
        {
            if self.partial_clients[i].id == id {
                return Some(i);
            }
            i += 1;
        }
        None
    }

    /// The position of the pairing that holds `id`.
    fn find_channel(&self, id: i32) -> (r: Option<usize>)
        requires
            self.wf(),
        ensures
            match r {
                Some(i) => i < self.channels.len() && pair_holds(self.channels@[i as int], id),
                None => !self@.partners.contains_key(id),
            },
    {
        let mut i: usize = 0;
        while i < self.channels.len()
            invariant
                self.wf(),
                i <= self.channels.len(),
                forall|k: int| 0 <= k < i ==> !pair_holds(#[trigger] self.channels@[k], id),
            decreases self.channels.len() - i,
        {
            if self.channels[i].0.id == id || self.channels[i].1.id == id {
                return Some(i);
            }
            i += 1;
        }
        None
    }

    /// Advertise `client` in the lobby under the session id `client_id`.
    /// Refused, with nothing changed, where that id is already advertised or
    /// paired.
    pub fn add_partial_client(&mut self, client_id: i32, client: ClientInfo) -> (r: bool)
        requires
            old(self).wf(),
        ensures
            final(self).wf(),
            (final(self)@, r) == old(self)@.add_advertised(client_id, client@),
    {
        if self.find_advertised(client_id).is_some() || self.find_channel(client_id).is_some() {
            return false;
        }
        let mut client = client;
        client.id = client_id;
        let ghost old_lobby = self.partial_clients@;
        self.partial_clients.push(client);
        self.lobby = Ghost(self.lobby@.insert(client_id, client@));
        proof {
            lemma_add_advertised_consistent(old(self)@, client_id, client@);
            assert(self@ == old(self)@.add_advertised(client_id, client@).0);
            let v = self.partial_clients@;
            assert forall|x: i32| #[trigger] self.lobby@.contains_key(x) implies exists|i: int|
                0 <= i < v.len() && v[i].id == x by {
                if x == client_id {
                    assert(v[old_lobby.len() as int].id == x);
                } else {
                    let j = choose|j: int| 0 <= j < old_lobby.len() && old_lobby[j].id == x;
                    assert(v[j].id == x);
                }
            }
        }
        true
    }

    /// Withdraw `client_id` from the lobby; true iff it was advertised.
    pub fn remove_partial_client(&mut self, client_id: i32) -> (r: bool)
        requires
            old(self).wf(),
        ensures
            final(self).wf(),
            (final(self)@, r) == old(self)@.remove_advertised(client_id),
    {
        match self.find_advertised(client_id) {
            None => {
                assert(self@.advertised.remove(client_id) =~= self@.advertised);
                false
            },
            Some(i) => {
                self.take_advertised(i);
                true
            },
        }
    }

    /// Remove the lobby entry at position `i`, and hand it out.
    fn take_advertised(&mut self, i: usize) -> (r: ClientInfo)
        requires
            old(self).wf(),
            i < old(self).partial_clients.len(),
        ensures
            final(self).wf(),
            r@ == old(self).partial_clients@[i as int]@,
            old(self)@.advertised.contains_key(r.id),
            r@ == old(self)@.advertised[r.id],
            final(self)@ == (RelayView { advertised: old(self)@.advertised.remove(r.id), partners: old(self)@.partners }),
    {
        let ghost old_lobby = self.partial_clients@;
        let client = self.partial_clients.remove(i);
        self.lobby = Ghost(self.lobby@.remove(client.id));
        proof {
            let v = self.partial_clients@;
            assert forall|x: i32| #[trigger] self.lobby@.contains_key(x) implies exists|k: int|
                0 <= k < v.len() && v[k].id == x by {
                let j = choose|j: int| 0 <= j < old_lobby.len() && old_lobby[j].id == x;
                if j < i {
                    assert(v[j].id == x);
                } else {
                    assert(v[j - 1].id == x);
                }
            }
            assert forall|k: int| 0 <= k < v.len() implies self.lobby@.contains_key(#[trigger] v[k].id)
                && self.lobby@[v[k].id] == v[k]@ by {
                let k0 = if k < i { k } else { k + 1 };
                assert(old_lobby[k0] == v[k]);
                assert(old_lobby[k0].id != old_lobby[i as int].id);
            }
            assert forall|a: int, b: int| 0 <= a < v.len() && 0 <= b < v.len() && #[trigger] v[a].id == #[trigger] v[b].id implies a == b by {
                let a0 = if a < i { a } else { a + 1 };
                let b0 = if b < i { b } else { b + 1 };
                assert(old_lobby[a0].id == old_lobby[b0].id);
            }
            lemma_remove_advertised_consistent(old(self)@, client.id);
            assert(self@ == old(self)@.remove_advertised(client.id).0);
        }
        client
    }

    /// The advertised players, each once, in no particular order.
    pub fn get_partial_clients(&self) -> (r: Vec<ClientInfo>)
        requires
            self.wf(),
        ensures
            lists_exactly(r@, self@.advertised),
    {
        let mut r: Vec<ClientInfo> = Vec::new();
        let mut i: usize = 0;
        while i < self.partial_clients.len()
            invariant
                self.wf(),
                i <= self.partial_clients.len(),
                r.len() == i,
                forall|k: int| 0 <= k < i ==> (#[trigger] r@[k])@ == self.partial_clients@[k]@,
            decreases self.partial_clients.len() - i,
        {
            r.push(self.partial_clients[i].duplicate());
            i += 1;
        }
        proof {
            let v = self.partial_clients@;
            assert forall|a: int| 0 <= a < r.len() implies self@.advertised.contains_key(#[trigger] r@[a].id)
                && self@.advertised[r@[a].id] == r@[a]@ by {
                assert(v[a].id == r@[a].id);
            }
            assert forall|a: int, b: int| 0 <= a < r.len() && 0 <= b < r.len() && #[trigger] r@[a].id == #[trigger] r@[b].id implies a == b by {
                assert(v[a].id == v[b].id);
            }
            assert forall|x: i32| #[trigger] self@.advertised.contains_key(x) implies exists|k: int|
                0 <= k < r.len() && r@[k].id == x by {
                let j = choose|j: int| 0 <= j < v.len() && v[j].id == x;
                assert(r@[j].id == x);
            }
            let ids = r@.map_values(|c: ClientInfo| c.id);
            assert forall|a: int, b: int| 0 <= a < ids.len() && 0 <= b < ids.len() && a != b implies ids[a] != ids[b] by {
                assert(r@[a].id == ids[a] && r@[b].id == ids[b]);
            }
            ids.unique_seq_to_set();
            assert forall|x: i32| self@.advertised.dom().contains(x) <==> ids.to_set().contains(x) by {
                if self@.advertised.contains_key(x) {
                    let k = choose|k: int| 0 <= k < r.len() && r@[k].id == x;
                    assert(ids[k] == x);
                }
                if ids.contains(x) {
                    let k = choose|k: int| 0 <= k < ids.len() && ids[k] == x;
                    assert(r@[k].id == x);
                }
            }
            assert(self@.advertised.dom() =~= ids.to_set());
        }
        r
    }

    /// The partner of `client_id`, if it is paired.
    pub fn get_partner_client(&self, client_id: i32) -> (r: Option<ClientInfo>)
        requires
            self.wf(),
        ensures
            option_view(r) == self@.partner_of(client_id),
    {
        match self.find_channel(client_id) {
            None => None,
            Some(i) => {
                let c = &self.channels[i];
                if c.0.id == client_id {
                    Some(c.1.duplicate())
                } else {
                    Some(c.0.duplicate())
                }
            },
        }
    }

    /// Pair `client` with the advertised `partial_id`, which leaves the lobby.
    /// Refused, with nothing changed, where `client` is advertised or already
    /// paired, or `partial_id` is not advertised.
    pub fn connect(&mut self, client: ClientInfo, partial_id: i32) -> (r: bool)
        requires
            old(self).wf(),
        ensures
            final(self).wf(),
            (final(self)@, r) == old(self)@.pair(client@, partial_id),
    {
        if self.find_advertised(client.id).is_some() || self.find_channel(client.id).is_some() {
            return false;
        }
        match self.find_advertised(partial_id) {
            None => false,
            Some(i) => {
                let partial = self.take_advertised(i);
                let ghost mid = self.pairing@;
                let ghost old_channels = self.channels@;
                let ghost cv = client@;
                let ghost pv = partial@;
                self.channels.push((client, partial));
                self.pairing = Ghost(mid.insert(cv.id, pv).insert(pv.id, cv));
                proof {
                    lemma_pair_consistent(old(self)@, cv, partial_id);
                    assert(self@ == old(self)@.pair(cv, partial_id).0);
                    let c = self.channels@;
                    let m = self.pairing@;
                    let n = old_channels.len() as int;
                    assert forall|k: int| 0 <= k < c.len() implies {
                        &&& m.contains_key(#[trigger] c[k].0.id)
                        &&& m[c[k].0.id] == c[k].1@
                        &&& m.contains_key(c[k].1.id)
                        &&& m[c[k].1.id] == c[k].0@
                    } by {
                        if k < n {
                            assert(c[k] == old_channels[k]);
                            assert(mid.contains_key(c[k].0.id));
                            assert(mid.contains_key(c[k].1.id));
                        }
                    }
                    assert forall|a: int, b: int, x: i32| 0 <= a < c.len() && 0 <= b < c.len()
                        && #[trigger] pair_holds(c[a], x) && #[trigger] pair_holds(c[b], x) implies a == b by {
                        if a < n {
                            assert(c[a] == old_channels[a]);
                            assert(mid.contains_key(c[a].0.id));
                            assert(mid.contains_key(c[a].1.id));
                        }
                        if b < n {
                            assert(c[b] == old_channels[b]);
                            assert(mid.contains_key(c[b].0.id));
                            assert(mid.contains_key(c[b].1.id));
                        }
                        if a < n && b < n {
                            assert(pair_holds(old_channels[a], x) && pair_holds(old_channels[b], x));
                        }
                    }
                    assert forall|x: i32| #[trigger] m.contains_key(x) implies exists|k: int|
                        0 <= k < c.len() && pair_holds(c[k], x) by {
                        if x == cv.id || x == pv.id {
                            assert(pair_holds(c[n], x));
                        } else {
                            let j = choose|j: int| 0 <= j < old_channels.len() && pair_holds(old_channels[j], x);
                            assert(c[j] == old_channels[j]);
                        }
                    }
                }
                true
            },
        }
    }

    /// Remove the pairing at position `i`, and hand it out.
    fn take_channel(&mut self, i: usize) -> (r: (ClientInfo, ClientInfo))
        requires
            old(self).wf(),
            i < old(self).channels.len(),
        ensures
            final(self).wf(),
            r.0@ == old(self).channels@[i as int].0@,
            r.1@ == old(self).channels@[i as int].1@,
            old(self)@.partners.contains_key(r.0.id),
            old(self)@.partners[r.0.id] == r.1@,
            old(self)@.partners.contains_key(r.1.id),
            old(self)@.partners[r.1.id] == r.0@,
            final(self)@ == (RelayView {
                advertised: old(self)@.advertised,
                partners: old(self)@.partners.remove(r.0.id).remove(r.1.id),
            }),
    {
        let ghost old_channels = self.channels@;
        let pair = self.channels.remove(i);
        self.pairing = Ghost(self.pairing@.remove(pair.0.id).remove(pair.1.id));
        proof {
            lemma_drop_session_consistent(old(self)@, pair.0.id);
            assert(!old(self)@.advertised.contains_key(pair.0.id));
            assert(self@ == old(self)@.drop_session(pair.0.id).0);
            let c = self.channels@;
            let m = self.pairing@;
            assert(pair_holds(old_channels[i as int], pair.0.id));
            assert(pair_holds(old_channels[i as int], pair.1.id));
            assert forall|k: int| 0 <= k < c.len() implies {
                &&& m.contains_key(#[trigger] c[k].0.id)
                &&& m[c[k].0.id] == c[k].1@
                &&& m.contains_key(c[k].1.id)
                &&& m[c[k].1.id] == c[k].0@
            } by {
                let k0 = if k < i { k } else { k + 1 };
                assert(c[k] == old_channels[k0]);
                assert(pair_holds(old_channels[k0], c[k].0.id));
                assert(pair_holds(old_channels[k0], c[k].1.id));
                assert(c[k].0.id != pair.0.id && c[k].0.id != pair.1.id);
                assert(c[k].1.id != pair.0.id && c[k].1.id != pair.1.id);
            }
            assert forall|a: int, b: int, x: i32| 0 <= a < c.len() && 0 <= b < c.len()
                && #[trigger] pair_holds(c[a], x) && #[trigger] pair_holds(c[b], x) implies a == b by {
                let a0 = if a < i { a } else { a + 1 };
                let b0 = if b < i { b } else { b + 1 };
                assert(c[a] == old_channels[a0]);
                assert(c[b] == old_channels[b0]);
                assert(pair_holds(old_channels[a0], x) && pair_holds(old_channels[b0], x));
            }
            assert forall|x: i32| #[trigger] m.contains_key(x) implies exists|k: int|
                0 <= k < c.len() && pair_holds(c[k], x) by {
                let j = choose|j: int| 0 <= j < old_channels.len() && pair_holds(old_channels[j], x);
                assert(j != i);
                if j < i {
                    assert(c[j] == old_channels[j]);
                } else {
                    assert(c[j - 1] == old_channels[j]);
                }
            }
        }
        pair
    }

    /// Undo the pairing of `requester_id` with `target_id`, if it stands: the
    /// pairing goes and the target is advertised again. True iff it stood.
    pub fn unpair(&mut self, requester_id: i32, target_id: i32) -> (r: bool)
        requires
            old(self).wf(),
        ensures
            final(self).wf(),
            (final(self)@, r) == old(self)@.unpair(requester_id, target_id),
    {
        match self.find_channel(requester_id) {
            None => false,
            Some(i) => {
                let c = &self.channels[i];
                let partner_id = if c.0.id == requester_id { c.1.id } else { c.0.id };
                if partner_id != target_id {
                    return false;
                }
                let pair = self.take_channel(i);
                let target = if pair.0.id == target_id { pair.0 } else { pair.1 };
                let ghost mid = *self;
                let ghost old_lobby = self.partial_clients@;
                self.partial_clients.push(target);
                self.lobby = Ghost(self.lobby@.insert(target.id, target@));
                proof {
                    lemma_unpair_consistent(old(self)@, requester_id, target_id);
                    assert(target.id == target_id);
                    assert(target@ == old(self)@.partners[requester_id]);
                    assert(self@.partners =~= old(self)@.partners.remove(requester_id).remove(target_id));
                    assert(self@ == old(self)@.unpair(requester_id, target_id).0);
                    assert(!mid@.advertised.contains_key(target_id));
                    let v = self.partial_clients@;
                    assert forall|x: i32| #[trigger] self.lobby@.contains_key(x) implies exists|k: int|
                        0 <= k < v.len() && v[k].id == x by {
                        if x == target_id {
                            assert(v[old_lobby.len() as int].id == x);
                        } else {
                            let j = choose|j: int| 0 <= j < old_lobby.len() && old_lobby[j].id == x;
                            assert(v[j].id == x);
                        }
                    }
                }
                true
            },
        }
    }

    /// Take `client_id` out of the relay, and say what it was: advertised,
    /// paired (with whom), or absent. A pairing goes as a whole.
    pub fn client_disconnect(&mut self, client_id: i32) -> (r: DropOutcome)
        requires
            old(self).wf(),
        ensures
            final(self).wf(),
            (final(self)@, r@) == old(self)@.drop_session(client_id),
    {
        match self.find_advertised(client_id) {
            Some(i) => {
                self.take_advertised(i);
                DropOutcome::WasAdvertised
            },
            None => match self.find_channel(client_id) {
                Some(i) => {
                    let pair = self.take_channel(i);
                    let partner = if pair.0.id == client_id { pair.1 } else { pair.0 };
                    proof {
                        assert(self@.partners =~= old(self)@.partners.remove(client_id).remove(partner.id));
                    }
                    DropOutcome::WasPaired(partner)
                },
                None => DropOutcome::WasAbsent,
            },
        }
    }
}

} // verus!
