//! What each remote call does to the relay. A call that needs a round trip
//! to another session is split where the trip happens: a first function
//! says where the outbound call goes and with what, and a second takes the
//! reply that came back.
use vstd::prelude::*;
use crate::message::{relay_error, relay_error_text, unchained_error, unchained_text};
use crate::types::{
    lists_exactly, ClientInfo, ClientInfoView, DropOutcome, DropOutcomeView, RelayServer,
    RelayView,
};

verus! {

/// The parameters of `register_client`.
pub struct RegisterClient {
    pub nickname: String,
    pub staking_ckb: u64,
    pub bet_ckb: u64,
}

impl RegisterClient {
    /// The record that a registration of session `id` advertises.
    pub open spec fn info(self, id: i32) -> ClientInfoView {
        ClientInfoView {
            id,
            nickname: self.nickname@,
            staking_ckb: self.staking_ckb,
            bet_ckb: self.bet_ckb,
        }
    }
}

/// The parameters of `connect_client`: who asks, and the advertised
/// session it asks for.
pub struct ConnectClient {
    pub requester: ClientInfo,
    pub client_id: i32,
}

/// The notice that a session's partner has gone: it is sent to `partner_id`
/// and names the session `client_id` that left.
pub struct PartnerDisconnect {
    pub partner_id: i32,
    pub client_id: i32,
}

/// A pair-forwarding call to make: `params`, unchanged, to `partner_id`.
pub struct Forward<P> {
    pub partner_id: i32,
    pub params: P,
}

/// `register_client`: advertise the caller with what it supplied. False
/// where the caller is already advertised or paired.
pub fn register_client(server: &mut RelayServer, client_id: i32, request: RegisterClient) -> (r: bool)
    requires
        old(server).wf(),
    ensures
        final(server).wf(),
        (final(server)@, r) == old(server)@.add_advertised(client_id, request.info(client_id)),
{
    let info = ClientInfo {
        id: client_id,
        nickname: request.nickname,
        staking_ckb: request.staking_ckb,
        bet_ckb: request.bet_ckb,
    };
    server.add_partial_client(client_id, info)
}

/// `unregister_client`: withdraw the caller from the lobby; true iff it was
/// advertised.
pub fn unregister_client(server: &mut RelayServer, client_id: i32) -> (r: bool)
    requires
        old(server).wf(),
    ensures
        final(server).wf(),
        (final(server)@, r) == old(server)@.remove_advertised(client_id),
{
    server.remove_partial_client(client_id)
}

/// `fetch_clients`: the advertised players, each once.
pub fn fetch_clients(server: &RelayServer) -> (r: Vec<ClientInfo>)
    requires
        server.wf(),
    ensures
        lists_exactly(r@, server@.advertised),
{
    server.get_partial_clients()
}

/// `connect_client`, first step: pair the caller, under its own session id
/// whatever the request says, with the advertised target. True iff the
/// pairing was made; then `propose_connection` is to be sent to the target,
/// and its reply handed to `conclude_connect_client`.
pub fn connect_client(server: &mut RelayServer, client_id: i32, request: ConnectClient) -> (r: bool)
    requires
        old(server).wf(),
    ensures
        final(server).wf(),
        (final(server)@, r) == old(server)@.pair(request.requester@.with_id(client_id), request.client_id),
{
    let mut requester = request.requester;
    requester.id = client_id;
    server.connect(requester, request.client_id)
}

/// `connect_client`, second step: the target's reply to
/// `propose_connection`. Only an accepting reply keeps the pairing; a
/// refusal or a failed call undoes it, and the target is advertised again.
/// The result is the caller's answer.
pub fn conclude_connect_client(
    server: &mut RelayServer,
    client_id: i32,
    target_id: i32,
    reply: Result<bool, String>,
) -> (r: bool)
    requires
        old(server).wf(),
    ensures
        final(server).wf(),
        r == (reply matches Ok(accepted) && accepted),
        r ==> final(server)@ == old(server)@,
        !r ==> final(server)@ == old(server)@.unpair(client_id, target_id).0,
{
    match reply {
        Ok(true) => true,
        _ => {
            server.unpair(client_id, target_id);
            false
        },
    }
}

/// The notice that dropping a session owes, given what it was.
pub open spec fn notice_for(client_id: i32, outcome: DropOutcomeView) -> Option<(i32, i32)> {
    match outcome {
        DropOutcomeView::WasPaired(p) => Some((p.id, client_id)),
        _ => None,
    }
}

/// The view of an optional notice.
pub open spec fn notice_view(n: Option<PartnerDisconnect>) -> Option<(i32, i32)> {
    match n {
        Some(d) => Some((d.partner_id, d.client_id)),
        None => None,
    }
}

/// `disconnect_client`, and the loss of a session's connection: take the
/// session out of the relay. Where it was paired the pairing goes, and the
/// result is the one `partner_disconnect` notice owed to the partner.
pub fn disconnect_client(server: &mut RelayServer, client_id: i32) -> (r: Option<PartnerDisconnect>)
    requires
        old(server).wf(),
    ensures
        final(server).wf(),
        final(server)@ == old(server)@.drop_session(client_id).0,
        notice_view(r) == notice_for(client_id, old(server)@.drop_session(client_id).1),
{
    match server.client_disconnect(client_id) {
        DropOutcome::WasPaired(partner) => Some(PartnerDisconnect { partner_id: partner.id, client_id }),
        _ => None,
    }
}

/// The partner of `client_id`, to which its pair-forwarding calls for
/// `method` go; where it has none, the error that the call reports.
pub fn get_partner_id(server: &RelayServer, client_id: i32, method: &str) -> (r: Result<i32, String>)
    requires
        server.wf(),
    ensures
        match r {
            Ok(p) => server@.partner_of(client_id) is Some && p == server@.partner_of(client_id)->0.id,
            Err(e) => server@.partner_of(client_id) is None && e@ == unchained_text(method@, client_id as int),
        },
{
    match server.get_partner_client(client_id) {
        Some(partner) => Ok(partner.id),
        None => Err(unchained_error(method, client_id)),
    }
}

/// A pair-forwarding call for `method` from `client_id` in state `s` goes
/// with the same `params` to the partner, or fails where there is none.
pub open spec fn forwards<P>(
    s: RelayView,
    client_id: i32,
    method: Seq<char>,
    params: P,
    r: Result<Forward<P>, String>,
) -> bool {
    match r {
        Ok(f) => {
            &&& s.partner_of(client_id) is Some
            &&& f.partner_id == s.partner_of(client_id)->0.id
            &&& f.params == params
        },
        Err(e) => s.partner_of(client_id) is None && e@ == unchained_text(method, client_id as int),
    }
}

/// A pair-forwarding call for `method` from `client_id`: the same `params`
/// go to its partner, or the call fails where it has none.
pub fn forward<P>(server: &RelayServer, client_id: i32, method: &str, params: P) -> (r: Result<Forward<P>, String>)
    requires
        server.wf(),
    ensures
        forwards(server@, client_id, method@, params, r),
{
    match get_partner_id(server, client_id, method) {
        Ok(partner_id) => Ok(Forward { partner_id, params }),
        Err(e) => Err(e),
    }
}

/// What a pair-forwarding call for `method` answers, given the partner's
/// reply: the reply itself, or its failure under the relay's error text.
pub fn relay_reply<R>(method: &str, reply: Result<R, String>) -> (r: Result<R, String>)
    ensures
        match reply {
            Ok(v) => r == Ok::<R, String>(v),
            Err(cause) => r matches Err(e) && e@ == relay_error_text(method@, cause@),
        },
{
    match reply {
        Ok(v) => Ok(v),
        Err(cause) => Err(relay_error(method, cause.as_str())),
    }
}

/// `propose_channel_parameter`: relayed, unchanged, to the caller's partner.
pub fn propose_channel_parameter<P>(server: &RelayServer, client_id: i32, params: P) -> (r: Result<Forward<P>, String>)
    requires
        server.wf(),
    ensures
        forwards(server@, client_id, "propose_channel_parameter"@, params, r),
{
    forward(server, client_id, "propose_channel_parameter", params)
}

/// `prepare_kabletop_channel`: relayed, unchanged, to the caller's partner.
pub fn prepare_kabletop_channel<P>(server: &RelayServer, client_id: i32, params: P) -> (r: Result<Forward<P>, String>)
    requires
        server.wf(),
    ensures
        forwards(server@, client_id, "prepare_kabletop_channel"@, params, r),
{
    forward(server, client_id, "prepare_kabletop_channel", params)
}

/// `open_kabletop_channel`: relayed, unchanged, to the caller's partner.
pub fn open_kabletop_channel<P>(server: &RelayServer, client_id: i32, params: P) -> (r: Result<Forward<P>, String>)
    requires
        server.wf(),
    ensures
        forwards(server@, client_id, "open_kabletop_channel"@, params, r),
{
    forward(server, client_id, "open_kabletop_channel", params)
}

/// `close_kabletop_channel`: relayed, unchanged, to the caller's partner.
pub fn close_kabletop_channel<P>(server: &RelayServer, client_id: i32, params: P) -> (r: Result<Forward<P>, String>)
    requires
        server.wf(),
    ensures
        forwards(server@, client_id, "close_kabletop_channel"@, params, r),
{
    forward(server, client_id, "close_kabletop_channel", params)
}

/// `switch_round`: relayed, unchanged, to the caller's partner.
pub fn switch_round<P>(server: &RelayServer, client_id: i32, params: P) -> (r: Result<Forward<P>, String>)
    requires
        server.wf(),
    ensures
        forwards(server@, client_id, "switch_round"@, params, r),
{
    forward(server, client_id, "switch_round", params)
}

/// `sync_operation`: relayed, unchanged, to the caller's partner.
pub fn sync_operation<P>(server: &RelayServer, client_id: i32, params: P) -> (r: Result<Forward<P>, String>)
    requires
        server.wf(),
    ensures
        forwards(server@, client_id, "sync_operation"@, params, r),
{
    forward(server, client_id, "sync_operation", params)
}

/// `sync_p2p_message`: relayed, unchanged, to the caller's partner.
pub fn sync_p2p_message<P>(server: &RelayServer, client_id: i32, params: P) -> (r: Result<Forward<P>, String>)
    requires
        server.wf(),
    ensures
        forwards(server@, client_id, "sync_p2p_message"@, params, r),
{
    forward(server, client_id, "sync_p2p_message", params)
}

/// `notify_game_over`: relayed, unchanged, to the caller's partner.
pub fn notify_game_over<P>(server: &RelayServer, client_id: i32, params: P) -> (r: Result<Forward<P>, String>)
    requires
        server.wf(),
    ensures
        forwards(server@, client_id, "notify_game_over"@, params, r),
{
    forward(server, client_id, "notify_game_over", params)
}

} // verus!
