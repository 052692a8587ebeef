use tempest::dispatcher::{
    AuthIntraMessage, DispatchEffect, GameServerStateUpdate, ServerGameCommand,
    ServerIntraMessage, TempestServer,
};
use tempest::game::{GameEffect, ServerUno};
use tempest::records::{
    ClientAuthedCommand, ClientGameCommand, ClientMessage, GameStartState, GameType, ServerMessage,
};
use tempest::session::{auth_first_record, route_inbound, AuthGate};

fn auth(addr: u64, user_id: u32, message: ClientAuthedCommand) -> AuthIntraMessage {
    AuthIntraMessage { addr, user_id, message }
}

#[test]
fn auth_and_lobby_visibility() {
    let mut hub = TempestServer::new();
    // alice connects and authenticates
    let fx = hub.register_user("alice".to_string(), 11);
    assert_eq!(fx.len(), 2);
    match &fx[0] {
        DispatchEffect::ToUser(uid, ServerMessage::AuthResponse(id)) => {
            assert_eq!(*uid, 1);
            assert_eq!(*id, 1);
        }
        other => panic!("expected the auth response, got {other:?}"),
    }
    assert!(matches!(&fx[1], DispatchEffect::Requeue(ServerIntraMessage::UpdateUserLobbies)));
    let fx = hub.update_user_lobbies();
    assert_eq!(fx.len(), 1);
    match &fx[0] {
        DispatchEffect::ToUser(uid, ServerMessage::LobbyState(snap)) => {
            assert_eq!(*uid, 1);
            assert_eq!(snap.player_count, 1);
            assert!(snap.games.is_empty());
        }
        other => panic!("expected a lobby snapshot, got {other:?}"),
    }
    // bob connects; both see the two-player lobby
    let fx = hub.register_user("bob".to_string(), 22);
    match &fx[0] {
        DispatchEffect::ToUser(_, ServerMessage::AuthResponse(id)) => assert_eq!(*id, 2),
        other => panic!("expected the auth response, got {other:?}"),
    }
    let fx = hub.update_user_lobbies();
    assert_eq!(fx.len(), 2);
    for (k, effect) in fx.iter().enumerate() {
        match effect {
            DispatchEffect::ToUser(uid, ServerMessage::LobbyState(snap)) => {
                assert_eq!(*uid, (k + 1) as u32);
                assert_eq!(snap.player_count, 2);
                assert!(snap.games.is_empty());
            }
            other => panic!("expected a lobby snapshot, got {other:?}"),
        }
    }
}

#[test]
fn create_join_start() {
    let mut hub = TempestServer::new();
    hub.register_user("alice".to_string(), 11);
    hub.register_user("bob".to_string(), 22);
    // alice creates the game; the hub asks for an actor to be spawned
    let fx = hub.handle_auth(auth(11, 1, ClientAuthedCommand::CreateGame("g1".to_string(), GameType::Uno)));
    assert_eq!(fx.len(), 2);
    let (game_id, host, lobby_name) = match &fx[0] {
        DispatchEffect::SpawnUno(gid, host_id, host, name) => {
            assert_eq!(*host_id, 1);
            assert_eq!(host.name, "alice");
            assert_eq!(name, "g1");
            (*gid, host.clone(), name.clone())
        }
        other => panic!("expected a spawn request, got {other:?}"),
    };
    assert_eq!(game_id, 3);
    let draws: Vec<u8> = vec![32, 0, 1, 2, 3, 4, 5, 6, 7, 8, 9];
    let (mut game, gfx) = ServerUno::create(game_id, 1, &host, lobby_name, &draws);
    match &gfx[0] {
        GameEffect::Message(uid, ServerMessage::JoinedGame(name, GameType::Uno)) => {
            assert_eq!(*uid, 1);
            assert_eq!(name, "g1");
        }
        other => panic!("expected the joined-game greeting, got {other:?}"),
    }
    // bob, still in the lobby, sees the one open game
    let fx = hub.update_user_lobbies();
    assert_eq!(fx.len(), 1);
    match &fx[0] {
        DispatchEffect::ToUser(uid, ServerMessage::LobbyState(snap)) => {
            assert_eq!(*uid, 2);
            assert_eq!(snap.player_count, 2);
            assert_eq!(snap.games.len(), 1);
            assert_eq!(snap.games[0].id, game_id);
            assert_eq!(snap.games[0].name, "g1");
            assert_eq!(snap.games[0].active_players, 1);
        }
        other => panic!("expected a lobby snapshot, got {other:?}"),
    }
    // bob joins: the hub forwards the request, the game seats him
    let fx = hub.handle_auth(auth(22, 2, ClientAuthedCommand::JoinGame(game_id)));
    assert_eq!(fx.len(), 1);
    let joiner = match &fx[0] {
        DispatchEffect::ToGame(gid, msg) => {
            assert_eq!(*gid, game_id);
            assert_eq!(msg.user_id, 2);
            match &msg.command {
                ServerGameCommand::UserJoin(p) => p.clone(),
                other => panic!("expected a join command, got {other:?}"),
            }
        }
        other => panic!("expected a game-bound message, got {other:?}"),
    };
    let jfx = game.handle_join(2, joiner, &vec![20, 21, 22, 23, 24, 25, 26, 27, 28, 29]);
    match &jfx[0] {
        GameEffect::Message(uid, ServerMessage::JoinedGame(name, GameType::Uno)) => {
            assert_eq!(*uid, 2);
            assert_eq!(name, "g1");
        }
        other => panic!("expected the joined-game greeting, got {other:?}"),
    }
    hub.user_joined_game(2, game_id);
    // the host starts the game; both players hear it is Active
    let fx = hub.handle_auth(auth(11, 1, ClientAuthedCommand::Game(ClientGameCommand::Start)));
    assert_eq!(fx.len(), 1);
    match &fx[0] {
        DispatchEffect::ToGame(gid, msg) => {
            assert_eq!(*gid, game_id);
            assert!(matches!(msg.command, ServerGameCommand::Cmd(ClientGameCommand::Start)));
        }
        other => panic!("expected a game-bound message, got {other:?}"),
    }
    let sfx = game.handle_start(1);
    assert_eq!(sfx.len(), 3);
    let mut broadcast_targets = Vec::new();
    for effect in sfx.iter().skip(1) {
        match effect {
            GameEffect::State(uid, tempest::records::ServerUnoCommand::GameState(_, st)) => {
                assert_eq!(st.game_state, GameStartState::Active);
                broadcast_targets.push(*uid);
            }
            other => panic!("expected a state broadcast, got {other:?}"),
        }
    }
    assert_eq!(broadcast_targets, vec![1, 2]);
}

#[test]
fn commands_from_the_wrong_address_are_dropped() {
    let mut hub = TempestServer::new();
    hub.register_user("alice".to_string(), 11);
    let fx = hub.handle_auth(auth(99, 1, ClientAuthedCommand::CreateGame("g1".to_string(), GameType::Uno)));
    assert!(fx.is_empty());
}

#[test]
fn creating_or_joining_while_in_a_game_is_rejected() {
    let mut hub = TempestServer::new();
    hub.register_user("alice".to_string(), 11);
    hub.register_user("bob".to_string(), 22);
    let fx = hub.handle_auth(auth(11, 1, ClientAuthedCommand::CreateGame("g1".to_string(), GameType::Uno)));
    assert_eq!(fx.len(), 2);
    // alice is now inside game 3
    assert!(hub.handle_auth(auth(11, 1, ClientAuthedCommand::CreateGame("g2".to_string(), GameType::Uno))).is_empty());
    assert!(hub.handle_auth(auth(11, 1, ClientAuthedCommand::JoinGame(3))).is_empty());
    // joining an unknown game is also rejected
    assert!(hub.handle_auth(auth(22, 2, ClientAuthedCommand::JoinGame(77))).is_empty());
}

#[test]
fn game_commands_without_a_game_are_dropped() {
    let mut hub = TempestServer::new();
    hub.register_user("alice".to_string(), 11);
    let fx = hub.handle_auth(auth(11, 1, ClientAuthedCommand::Game(ClientGameCommand::Leave)));
    assert!(fx.is_empty());
}

#[test]
fn disconnecting_removes_the_users_at_that_address() {
    let mut hub = TempestServer::new();
    hub.register_user("alice".to_string(), 11);
    hub.register_user("bob".to_string(), 22);
    hub.disconnected(11);
    let fx = hub.update_user_lobbies();
    assert_eq!(fx.len(), 1);
    match &fx[0] {
        DispatchEffect::ToUser(uid, ServerMessage::LobbyState(snap)) => {
            assert_eq!(*uid, 2);
            assert_eq!(snap.player_count, 1);
        }
        other => panic!("expected a lobby snapshot, got {other:?}"),
    }
}

#[test]
fn registry_updates_drive_the_lobby_listing() {
    let mut hub = TempestServer::new();
    hub.register_user("alice".to_string(), 11);
    hub.register_user("bob".to_string(), 22);
    hub.handle_auth(auth(11, 1, ClientAuthedCommand::CreateGame("g1".to_string(), GameType::Uno)));
    // a full game disappears from the lobby
    let fx = hub.update_game_server(
        3,
        GameServerStateUpdate {
            name: "g1".to_string(),
            player_count: 4,
            game_type: GameType::Uno,
            start_state: GameStartState::Setup,
        },
    );
    assert_eq!(fx.len(), 1);
    let fx = hub.update_user_lobbies();
    match &fx[0] {
        DispatchEffect::ToUser(_, ServerMessage::LobbyState(snap)) => {
            assert!(snap.games.is_empty());
        }
        other => panic!("expected a lobby snapshot, got {other:?}"),
    }
    // so does a finished one
    hub.game_finished(3);
    hub.user_left_game(1, 3);
    let fx = hub.update_user_lobbies();
    assert_eq!(fx.len(), 2);
}

#[test]
fn the_first_record_must_authenticate() {
    match auth_first_record(ClientMessage::Authenticate("alice".to_string())) {
        AuthGate::Accept(name) => assert_eq!(name, "alice"),
        AuthGate::Reject => panic!("an authenticate record must be accepted"),
    }
    let early = ClientMessage::Authed(1, ClientAuthedCommand::JoinGame(3));
    assert!(matches!(auth_first_record(early), AuthGate::Reject));
}

#[test]
fn inbound_records_route_to_the_hub() {
    let routed = route_inbound(11, ClientMessage::Authed(1, ClientAuthedCommand::JoinGame(3)));
    match routed {
        Some(ServerIntraMessage::Auth(msg)) => {
            assert_eq!(msg.addr, 11);
            assert_eq!(msg.user_id, 1);
            assert!(matches!(msg.message, ClientAuthedCommand::JoinGame(3)));
        }
        other => panic!("expected a routed auth event, got {other:?}"),
    }
    // a stray authenticate is dropped
    assert!(route_inbound(11, ClientMessage::Authenticate("mallory".to_string())).is_none());
}
