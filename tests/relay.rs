use kabletop_relay::message::{decimal_string, decode_error, relay_error, unchained_error};
use kabletop_relay::methods::{
    close_kabletop_channel, conclude_connect_client, connect_client, disconnect_client,
    fetch_clients, forward, get_partner_id, notify_game_over, open_kabletop_channel,
    prepare_kabletop_channel, propose_channel_parameter, register_client, relay_reply,
    switch_round, sync_operation, sync_p2p_message, unregister_client, ConnectClient,
    RegisterClient,
};
use kabletop_relay::types::{ClientInfo, DropOutcome, RelayServer};

fn registration(nickname: &str, staking_ckb: u64, bet_ckb: u64) -> RegisterClient {
    RegisterClient { nickname: nickname.to_string(), staking_ckb, bet_ckb }
}

fn request_for(target: i32) -> ConnectClient {
    ConnectClient {
        requester: ClientInfo { id: 0, nickname: "b".to_string(), staking_ckb: 100, bet_ckb: 10 },
        client_id: target,
    }
}

fn lobby_ids(server: &RelayServer) -> Vec<i32> {
    let mut ids: Vec<i32> = fetch_clients(server).iter().map(|c| c.id).collect();
    ids.sort();
    ids
}

/// Session 7 registers; session 8 pairs with it and 7 accepts.
fn paired_server() -> RelayServer {
    let mut server = RelayServer::new();
    assert!(register_client(&mut server, 7, registration("a", 100, 10)));
    assert!(connect_client(&mut server, 8, request_for(7)));
    assert!(conclude_connect_client(&mut server, 8, 7, Ok(true)));
    server
}

#[test]
fn lobby_listing_after_one_registration() {
    let mut server = RelayServer::new();
    assert!(register_client(&mut server, 7, registration("a", 100, 10)));
    let clients = fetch_clients(&server);
    assert_eq!(clients.len(), 1);
    assert_eq!(clients[0].id, 7);
    assert_eq!(clients[0].nickname, "a");
    assert_eq!(clients[0].staking_ckb, 100);
    assert_eq!(clients[0].bet_ckb, 10);
}

#[test]
fn successful_pairing_empties_lobby() {
    let server = paired_server();
    assert!(fetch_clients(&server).is_empty());
    assert_eq!(server.get_partner_client(8).map(|c| c.id), Some(7));
    assert_eq!(server.get_partner_client(7).map(|c| c.id), Some(8));
    // the requester is recorded under its own session id, not the one it sent
    assert_eq!(server.get_partner_client(7).map(|c| c.nickname), Some("b".to_string()));
}

#[test]
fn rejected_proposal_rolls_back() {
    let mut server = RelayServer::new();
    assert!(register_client(&mut server, 7, registration("a", 100, 10)));
    assert!(connect_client(&mut server, 8, request_for(7)));
    assert!(!conclude_connect_client(&mut server, 8, 7, Ok(false)));
    let clients = fetch_clients(&server);
    assert_eq!(clients.len(), 1);
    assert_eq!(clients[0].id, 7);
    assert_eq!(clients[0].nickname, "a");
    assert!(server.get_partner_client(7).is_none());
    assert!(server.get_partner_client(8).is_none());
}

#[test]
fn failed_proposal_rolls_back() {
    let mut server = RelayServer::new();
    assert!(register_client(&mut server, 7, registration("a", 100, 10)));
    assert!(connect_client(&mut server, 8, request_for(7)));
    assert!(!conclude_connect_client(&mut server, 8, 7, Err("timeout".to_string())));
    assert_eq!(lobby_ids(&server), vec![7]);
    assert!(server.get_partner_client(8).is_none());
}

#[test]
fn forwarding_preserves_payload() {
    let server = paired_server();
    let f = sync_operation(&server, 7, "OP-42".to_string()).unwrap();
    assert_eq!(f.partner_id, 8);
    assert_eq!(f.params, "OP-42");
    let reply: Result<String, String> = Ok("ack OP-42".to_string());
    assert_eq!(relay_reply("sync_operation", reply), Ok("ack OP-42".to_string()));
}

#[test]
fn forwarding_goes_both_ways() {
    let server = paired_server();
    assert_eq!(switch_round(&server, 8, 1u8).unwrap().partner_id, 7);
    assert_eq!(switch_round(&server, 7, 1u8).unwrap().partner_id, 8);
}

#[test]
fn partner_disconnect_notifies_once() {
    let mut server = paired_server();
    let notice = disconnect_client(&mut server, 7).unwrap();
    assert_eq!(notice.partner_id, 8);
    assert_eq!(notice.client_id, 7);
    assert_eq!(
        sync_operation(&server, 8, ()).err(),
        Some("relay sync_operation error: unchained client_id(8)".to_string())
    );
    // the partner's own disconnect then owes no notice
    assert!(disconnect_client(&mut server, 8).is_none());
}

#[test]
fn unpaired_forwarding_is_rejected() {
    let server = RelayServer::new();
    assert_eq!(
        switch_round(&server, 9, ()).err(),
        Some("relay switch_round error: unchained client_id(9)".to_string())
    );
}

#[test]
fn every_forwarding_method_names_itself() {
    let server = RelayServer::new();
    let cases: Vec<(&str, Option<String>)> = vec![
        ("propose_channel_parameter", propose_channel_parameter(&server, 3, ()).err()),
        ("prepare_kabletop_channel", prepare_kabletop_channel(&server, 3, ()).err()),
        ("open_kabletop_channel", open_kabletop_channel(&server, 3, ()).err()),
        ("close_kabletop_channel", close_kabletop_channel(&server, 3, ()).err()),
        ("switch_round", switch_round(&server, 3, ()).err()),
        ("sync_operation", sync_operation(&server, 3, ()).err()),
        ("sync_p2p_message", sync_p2p_message(&server, 3, ()).err()),
        ("notify_game_over", notify_game_over(&server, 3, ()).err()),
    ];
    for (method, err) in cases {
        assert_eq!(err, Some(format!("relay {} error: unchained client_id(3)", method)));
    }
}

#[test]
fn register_twice_is_refused() {
    let mut server = RelayServer::new();
    assert!(register_client(&mut server, 5, registration("x", 1, 2)));
    assert!(!register_client(&mut server, 5, registration("y", 3, 4)));
    let clients = fetch_clients(&server);
    assert_eq!(clients.len(), 1);
    assert_eq!(clients[0].nickname, "x");
    assert_eq!(clients[0].staking_ckb, 1);
}

#[test]
fn register_unregister_register() {
    let mut server = RelayServer::new();
    assert!(register_client(&mut server, 5, registration("x", 1, 2)));
    assert!(unregister_client(&mut server, 5));
    assert!(fetch_clients(&server).is_empty());
    assert!(register_client(&mut server, 5, registration("x", 1, 2)));
    let clients = fetch_clients(&server);
    assert_eq!(clients.len(), 1);
    assert_eq!(clients[0].id, 5);
    assert_eq!(clients[0].nickname, "x");
}

#[test]
fn unregister_unknown_is_false() {
    let mut server = RelayServer::new();
    assert!(!unregister_client(&mut server, 4));
}

#[test]
fn paired_session_cannot_register() {
    let mut server = paired_server();
    assert!(!register_client(&mut server, 8, registration("c", 1, 1)));
    assert!(!register_client(&mut server, 7, registration("c", 1, 1)));
    assert!(fetch_clients(&server).is_empty());
}

#[test]
fn connect_to_unadvertised_target_is_refused() {
    let mut server = RelayServer::new();
    assert!(register_client(&mut server, 7, registration("a", 100, 10)));
    assert!(!connect_client(&mut server, 8, request_for(6)));
    assert_eq!(lobby_ids(&server), vec![7]);
    assert!(server.get_partner_client(8).is_none());
}

#[test]
fn connect_from_paired_requester_is_refused() {
    let mut server = paired_server();
    assert!(register_client(&mut server, 9, registration("c", 1, 1)));
    assert!(!connect_client(&mut server, 8, request_for(9)));
    assert_eq!(lobby_ids(&server), vec![9]);
    assert_eq!(server.get_partner_client(8).map(|c| c.id), Some(7));
}

#[test]
fn connect_from_advertised_requester_is_refused() {
    let mut server = RelayServer::new();
    assert!(register_client(&mut server, 7, registration("a", 100, 10)));
    assert!(register_client(&mut server, 8, registration("b", 100, 10)));
    assert!(!connect_client(&mut server, 8, request_for(7)));
    assert_eq!(lobby_ids(&server), vec![7, 8]);
}

#[test]
fn lobby_lists_every_advertised_once() {
    let mut server = RelayServer::new();
    for id in [3, 1, 2] {
        assert!(register_client(&mut server, id, registration("p", id as u64, 0)));
    }
    assert!(unregister_client(&mut server, 1));
    assert_eq!(lobby_ids(&server), vec![2, 3]);
}

#[test]
fn drop_outcomes() {
    let mut server = paired_server();
    assert!(register_client(&mut server, 4, registration("d", 0, 0)));
    assert!(matches!(server.client_disconnect(4), DropOutcome::WasAdvertised));
    assert!(matches!(server.client_disconnect(4), DropOutcome::WasAbsent));
    match server.client_disconnect(8) {
        DropOutcome::WasPaired(p) => assert_eq!(p.id, 7),
        _ => panic!("session 8 was paired"),
    }
    assert!(server.get_partner_client(7).is_none());
    assert!(matches!(server.client_disconnect(7), DropOutcome::WasAbsent));
}

#[test]
fn unpair_needs_the_right_target() {
    let mut server = paired_server();
    assert!(!server.unpair(8, 9));
    assert!(server.unpair(8, 7));
    assert_eq!(lobby_ids(&server), vec![7]);
    assert!(!server.unpair(8, 7));
}

#[test]
fn partner_of_unknown_is_error() {
    let server = paired_server();
    assert_eq!(get_partner_id(&server, 8, "m"), Ok(7));
    assert_eq!(
        get_partner_id(&server, -12, "m"),
        Err("relay m error: unchained client_id(-12)".to_string())
    );
}

#[test]
fn forward_unchanged_params() {
    let server = paired_server();
    let f = forward(&server, 8, "anything", vec![1u8, 2, 3]).unwrap();
    assert_eq!(f.partner_id, 7);
    assert_eq!(f.params, vec![1u8, 2, 3]);
}

#[test]
fn relay_reply_wraps_failure() {
    let reply: Result<u8, String> = Err("peer gone".to_string());
    assert_eq!(
        relay_reply("open_kabletop_channel", reply),
        Err("relay open_kabletop_channel error: peer gone".to_string())
    );
}

#[test]
fn message_texts() {
    assert_eq!(relay_error("switch_round", "x"), "relay switch_round error: x");
    assert_eq!(unchained_error("switch_round", 9), "relay switch_round error: unchained client_id(9)");
    assert_eq!(decode_error("RegisterClient", "missing field"), "deserialize RegisterClient -> missing field");
}

#[test]
fn decimal_numerals() {
    assert_eq!(decimal_string(0), "0");
    assert_eq!(decimal_string(7), "7");
    assert_eq!(decimal_string(10), "10");
    assert_eq!(decimal_string(11550), "11550");
    assert_eq!(decimal_string(-5), "-5");
    assert_eq!(decimal_string(i32::MAX), "2147483647");
    assert_eq!(decimal_string(i32::MIN), "-2147483648");
}

#[test]
fn duplicate_keeps_fields() {
    let c = ClientInfo { id: 3, nickname: "n".to_string(), staking_ckb: 5, bet_ckb: 6 };
    let d = c.duplicate();
    assert_eq!((d.id, d.nickname.as_str(), d.staking_ckb, d.bet_ckb), (3, "n", 5, 6));
}

#[test]
fn advertised_under_session_id() {
    let mut server = RelayServer::new();
    let info = ClientInfo { id: 99, nickname: "q".to_string(), staking_ckb: 1, bet_ckb: 2 };
    assert!(server.add_partial_client(5, info));
    let clients = server.get_partial_clients();
    assert_eq!(clients.len(), 1);
    assert_eq!(clients[0].id, 5);
    assert!(server.remove_partial_client(5));
    assert!(!server.remove_partial_client(5));
}
