use tempest::card::{UnoCard, UnoCardColour};
use tempest::deck::UnoDeck;
use tempest::dispatcher::PlayerState;
use tempest::game::{GameEffect, ServerUno, SubmitError};
use tempest::records::{
    GameStartState, ServerMessage, ServerUnoCommand, UnoAction, UnoClientAction,
};

fn player(name: &str, addr: u64) -> PlayerState {
    PlayerState { name: name.to_string(), addr, game_id: None }
}

/// A two-player game in the Active phase: the initial top card comes from
/// `last_pos`, alice (handle 1) is dealt the slots in `a_hand`, bob
/// (handle 2) the slots in `b_hand`.
fn two_player_game(last_pos: u8, a_hand: [u8; 10], b_hand: [u8; 10]) -> ServerUno {
    let mut draws = vec![last_pos];
    draws.extend_from_slice(&a_hand);
    let (mut game, effects) =
        ServerUno::create(7, 1, &player("alice", 11), "g1".to_string(), &draws);
    assert_eq!(effects.len(), 2);
    let join_effects = game.handle_join(2, player("bob", 22), &b_hand.to_vec());
    assert!(!join_effects.is_empty());
    let start_effects = game.handle_start(1);
    assert!(!start_effects.is_empty());
    assert_eq!(game.start_state, GameStartState::Active);
    game
}

#[test]
fn illegal_play_changes_nothing() {
    // last card Red 5; bob holds Blue 7 and plays it out of turn
    let mut game = two_player_game(
        32,
        [0, 1, 2, 3, 5, 6, 7, 8, 9, 10],
        [40, 41, 42, 43, 44, 45, 46, 47, 48, 49],
    );
    let blue7 = UnoCard::encode(false, UnoCardColour::Blue, 7);
    let effects = game.handle_action(2, UnoClientAction::PlayCard(blue7), &vec![90, 91, 92, 93, 94]);
    assert!(effects.is_empty());
    assert_eq!(game.active_users[1].cards.len(), 10);
    assert_eq!(game.last_card, UnoCard::encode(false, UnoCardColour::Red, 5));
    assert_eq!(game.user_turn, 0);
}

#[test]
fn submit_reports_each_rejection_exactly() {
    let mut game = two_player_game(
        32,
        [0, 1, 2, 3, 5, 6, 7, 8, 9, 10],
        [40, 41, 42, 43, 44, 45, 46, 47, 48, 49],
    );
    // a power card with value 31 is not a card at all
    assert_eq!(game.submit_card(2, UnoCard(0b1_00_11111)), Err(SubmitError::InvalidCard));
    // Blue 7 on Red 5: neither colour nor value matches
    let blue7 = UnoCard::encode(false, UnoCardColour::Blue, 7);
    assert_eq!(game.submit_card(2, blue7), Err(SubmitError::CardNotAllowed));
    // Red 6 would be legal, but it is alice's turn
    let red6 = UnoCard::encode(false, UnoCardColour::Red, 6);
    assert_eq!(game.submit_card(2, red6), Err(SubmitError::NotUsersTurn));
    // alice does not hold Red 9
    let red9 = UnoCard::encode(false, UnoCardColour::Red, 9);
    assert_eq!(game.submit_card(1, red9), Err(SubmitError::CardNotHeld));
    // rejections left the game alone
    assert_eq!(game.active_users[0].cards.len(), 10);
    assert_eq!(game.active_users[1].cards.len(), 10);
}

#[test]
fn plus_two_chain_feeds_the_next_player_and_skips_them() {
    // last card Red 3; alice holds the Red PlusTwo (slot 76)
    let mut game = two_player_game(
        16,
        [76, 0, 1, 2, 3, 5, 6, 7, 8, 9],
        [40, 41, 42, 43, 44, 45, 46, 47, 48, 49],
    );
    let plus_two = UnoCard::encode(true, UnoCardColour::Red, 0);
    let effects =
        game.handle_action(1, UnoClientAction::PlayCard(plus_two), &vec![90, 91, 92, 93, 94]);
    // bob gained two cards, and the turn skipped past bob back to alice
    assert_eq!(game.active_users[1].cards.len(), 12);
    assert_eq!(game.active_users[0].cards.len(), 9);
    assert_eq!(game.user_turn, 0);
    // the broadcast log reads: alice placed the PlusTwo, bob picked up two
    assert_eq!(effects.len(), 2);
    match &effects[0] {
        GameEffect::State(uid, ServerUnoCommand::GameState(_, st)) => {
            assert_eq!(*uid, 1);
            assert_eq!(st.action.len(), 2);
            match &st.action[0] {
                UnoAction::UserPlaceCard(name, card) => {
                    assert_eq!(name, "alice");
                    assert_eq!(*card, plus_two);
                }
                other => panic!("unexpected first log entry: {other:?}"),
            }
            match &st.action[1] {
                UnoAction::UserPickup(name, n) => {
                    assert_eq!(name, "bob");
                    assert_eq!(*n, 2);
                }
                other => panic!("unexpected second log entry: {other:?}"),
            }
        }
        other => panic!("expected a state broadcast, got {other:?}"),
    }
}

#[test]
fn wild_colour_change_carries_the_chosen_colour() {
    // alice holds a ClrChange wild (slot 104), stored Red
    let mut game = two_player_game(
        32,
        [104, 0, 1, 2, 3, 5, 6, 7, 8, 9],
        [49, 40, 41, 42, 43, 44, 45, 46, 47, 48],
    );
    let wild_as_blue = UnoCard::encode(true, UnoCardColour::Blue, 4);
    let effects =
        game.handle_action(1, UnoClientAction::PlayCard(wild_as_blue), &vec![90, 91, 92, 93, 94]);
    assert_eq!(effects.len(), 2);
    // the top of discard carries the chosen colour; alice lost one card
    assert_eq!(game.last_card, wild_as_blue);
    assert_eq!(game.active_users[0].cards.len(), 9);
    assert_eq!(game.user_turn, 1);
    // a red card is no longer legal for bob...
    let red6 = UnoCard::encode(false, UnoCardColour::Red, 6);
    assert_eq!(game.submit_card(2, red6), Err(SubmitError::CardNotAllowed));
    // ...but Blue 7 is
    let blue7 = UnoCard::encode(false, UnoCardColour::Blue, 7);
    let effects = game.handle_action(2, UnoClientAction::PlayCard(blue7), &vec![95, 96, 97, 98, 99]);
    assert!(!effects.is_empty());
    assert_eq!(game.last_card, blue7);
    assert_eq!(game.active_users[1].cards.len(), 9);
}

#[test]
fn two_reverses_restore_the_direction() {
    // alice holds the Red Reverse (slot 92), bob the Blue Reverse (slot 93)
    let mut game = two_player_game(
        32,
        [92, 0, 1, 2, 3, 5, 6, 7, 8, 9],
        [93, 40, 41, 42, 43, 44, 45, 46, 47, 48],
    );
    assert!(game.is_ord);
    let red5 = UnoCard::encode(false, UnoCardColour::Red, 5);
    assert_eq!(game.last_card, red5);
    let red_rev = UnoCard::encode(true, UnoCardColour::Red, 2);
    let fx = game.handle_action(1, UnoClientAction::PlayCard(red_rev), &vec![90, 91, 92, 93, 94]);
    assert!(!fx.is_empty());
    assert!(!game.is_ord);
    assert_eq!(game.user_turn, 1);
    let blue_rev = UnoCard::encode(true, UnoCardColour::Blue, 2);
    let fx = game.handle_action(2, UnoClientAction::PlayCard(blue_rev), &vec![95, 96, 97, 98, 99]);
    assert!(!fx.is_empty());
    assert!(game.is_ord);
    assert_eq!(game.user_turn, 0);
}

#[test]
fn overfed_hands_bust_after_a_play() {
    // alice holds every PlusTwo; six of them push bob past twenty cards
    let mut game = two_player_game(
        16,
        [76, 77, 78, 79, 80, 81, 82, 83, 0, 1],
        [40, 41, 42, 43, 44, 45, 46, 47, 48, 49],
    );
    for k in 0..6u8 {
        let colour = match k % 4 {
            0 => UnoCardColour::Red,
            1 => UnoCardColour::Blue,
            2 => UnoCardColour::Green,
            _ => UnoCardColour::Yellow,
        };
        let card = UnoCard::encode(true, colour, 0);
        let fx = game.handle_action(
            1,
            UnoClientAction::PlayCard(card),
            &vec![100u8.wrapping_add(k), 50, 51, 52, 53],
        );
        assert!(!fx.is_empty(), "play {k} was rejected");
    }
    // bob reached 22 cards and was evicted; with one player left the game ended
    assert_eq!(game.bust_users.len(), 1);
    assert_eq!(game.bust_users[0].0, 2);
    assert_eq!(game.bust_users[0].1, "bob");
    assert_eq!(game.start_state, GameStartState::Ending);
    assert!(game.active_users.is_empty());
    assert_eq!(game.finished_users.len(), 1);
    assert_eq!(game.finished_users[0].0, 1);
    // no active player holds more than twenty cards afterwards
    for u in game.active_users.iter() {
        assert!(u.cards.len() <= 20);
    }
}

#[test]
fn emptying_a_hand_finishes_the_player() {
    // alice's hand is all red, so every card of it is always legal
    let a_hand: [u8; 10] = [0, 4, 8, 12, 24, 28, 36, 44, 52, 72];
    let mut game = two_player_game(32, a_hand, [41, 45, 49, 53, 57, 61, 65, 69, 73, 77]);
    for k in 0..10usize {
        let card = UnoDeck::pos_to_card(a_hand[k]);
        let fx = game.handle_action(1, UnoClientAction::PlayCard(card), &vec![60, 61, 62, 63, 64]);
        assert!(!fx.is_empty(), "play {k} was rejected");
        if k < 9 {
            let fx = game.handle_action(2, UnoClientAction::PickupCard, &vec![90, 91, 92, 93, 94]);
            assert!(!fx.is_empty(), "pickup {k} was rejected");
        }
    }
    // alice finished first; bob was drained in as the game ended
    assert_eq!(game.start_state, GameStartState::Ending);
    assert!(game.active_users.is_empty());
    assert!(game.bust_users.is_empty());
    assert_eq!(game.finished_users.len(), 2);
    assert_eq!(game.finished_users[0], (1, "alice".to_string()));
    assert_eq!(game.finished_users[1].0, 2);
}

#[test]
fn pickup_feeds_the_requester_and_passes_the_turn() {
    let mut game = two_player_game(
        32,
        [0, 1, 2, 3, 5, 6, 7, 8, 9, 10],
        [40, 41, 42, 43, 44, 45, 46, 47, 48, 49],
    );
    // bob cannot draw out of turn
    let fx = game.handle_action(2, UnoClientAction::PickupCard, &vec![90, 91, 92, 93, 94]);
    assert!(fx.is_empty());
    // alice draws one card and the turn moves on
    let fx = game.handle_action(1, UnoClientAction::PickupCard, &vec![90, 91, 92, 93, 94]);
    assert_eq!(fx.len(), 2);
    assert_eq!(game.active_users[0].cards.len(), 11);
    assert_eq!(game.user_turn, 1);
}

#[test]
fn leaving_an_active_game_busts_the_leaver() {
    let mut game = two_player_game(
        32,
        [0, 1, 2, 3, 5, 6, 7, 8, 9, 10],
        [40, 41, 42, 43, 44, 45, 46, 47, 48, 49],
    );
    let fx = game.handle_leave(2);
    assert_eq!(fx.len(), 2);
    assert_eq!(game.bust_users.len(), 1);
    assert_eq!(game.bust_users[0], (2, "bob".to_string()));
    // one player left: the game ends and alice moves to finished
    assert_eq!(game.start_state, GameStartState::Ending);
    assert!(game.active_users.is_empty());
    assert_eq!(game.finished_users.len(), 1);
    assert_eq!(game.finished_users[0].0, 1);
    assert!(!game.connected.contains(&2));
    assert!(game.should_exit() == false);
}

#[test]
fn card_count_is_conserved_across_play() {
    let mut game = two_player_game(
        16,
        [76, 0, 1, 2, 3, 5, 6, 7, 8, 9],
        [40, 41, 42, 43, 44, 45, 46, 47, 48, 49],
    );
    let count = |g: &ServerUno| -> usize {
        let hands: usize = g.active_users.iter().map(|u| u.cards.len()).sum();
        g.deck.main_count() + g.deck.discard_count() + hands + 1
    };
    assert_eq!(count(&game), 108);
    let plus_two = UnoCard::encode(true, UnoCardColour::Red, 0);
    let fx = game.handle_action(1, UnoClientAction::PlayCard(plus_two), &vec![90, 91, 92, 93, 94]);
    assert!(!fx.is_empty());
    assert_eq!(count(&game), 108);
    let fx = game.handle_action(1, UnoClientAction::PickupCard, &vec![95, 96, 97, 98, 99]);
    assert!(!fx.is_empty());
    assert_eq!(count(&game), 108);
}

#[test]
fn a_colliding_discard_loses_exactly_one_card() {
    // alice holds both copies of Red 5 (slots 32 and 36); a red card's
    // retry offset is zero, so the second discard finds its only slot taken
    let mut game = two_player_game(
        16,
        [32, 36, 0, 1, 2, 3, 5, 6, 7, 8],
        [40, 41, 42, 43, 44, 45, 46, 47, 48, 49],
    );
    let count = |g: &ServerUno| -> usize {
        let hands: usize = g.active_users.iter().map(|u| u.cards.len()).sum();
        g.deck.main_count() + g.deck.discard_count() + hands + 1
    };
    assert_eq!(count(&game), 108);
    let red5 = UnoCard::encode(false, UnoCardColour::Red, 5);
    let fx = game.handle_action(1, UnoClientAction::PlayCard(red5), &vec![90, 91, 92, 93, 94]);
    assert!(!fx.is_empty());
    assert_eq!(count(&game), 108);
    let fx = game.handle_action(2, UnoClientAction::PickupCard, &vec![95, 96, 97, 98, 99]);
    assert!(!fx.is_empty());
    let fx = game.handle_action(1, UnoClientAction::PlayCard(red5), &vec![90, 91, 92, 93, 94]);
    assert!(!fx.is_empty());
    // the second copy had nowhere to go: one card moved to the loss ledger
    assert_eq!(count(&game), 107);
    assert_eq!(game.deck.discard_count(), 1);
}

#[test]
fn rebroadcast_without_changes_describes_the_same_state() {
    let draws: Vec<u8> = vec![32, 0, 1, 2, 3, 4, 5, 6, 7, 8, 9];
    let (mut game, _) = ServerUno::create(7, 1, &player("alice", 11), "g1".to_string(), &draws);
    let fx1 = game.update_user_state();
    let fx2 = game.update_user_state();
    let take = |fx: &Vec<GameEffect>| -> (u32, Vec<UnoCard>, String) {
        match &fx[0] {
            GameEffect::State(uid, ServerUnoCommand::GameState(cards, st)) => {
                assert!(st.action.is_empty());
                (
                    *uid,
                    cards.clone(),
                    format!(
                        "{:?}|{:?}|{:?}|{:?}|{}|{}|{}|{:?}",
                        st.game_state,
                        st.finished_users,
                        st.bust_users,
                        st.active_users,
                        st.host_user,
                        st.user_turn,
                        st.is_ord,
                        st.last_card
                    ),
                )
            }
            other => panic!("expected a state broadcast, got {other:?}"),
        }
    };
    let (u1, c1, s1) = take(&fx1);
    let (u2, c2, s2) = take(&fx2);
    assert_eq!(u1, u2);
    assert_eq!(c1, c2);
    assert_eq!(s1, s2);
}

#[test]
fn join_is_rejected_when_full_or_started() {
    let mut draws = vec![32u8];
    draws.extend_from_slice(&[0, 1, 2, 3, 4, 5, 6, 7, 8]);
    draws.push(9);
    let (mut game, _) = ServerUno::create(7, 1, &player("alice", 11), "g1".to_string(), &draws);
    assert!(!game.handle_join(2, player("bob", 22), &vec![20, 21, 22, 23, 24, 25, 26, 27, 28, 29]).is_empty());
    assert!(!game.handle_join(3, player("carol", 33), &vec![30, 31, 32, 33, 34, 35, 36, 37, 38, 39]).is_empty());
    assert!(!game.handle_join(4, player("dave", 44), &vec![40, 41, 42, 43, 44, 45, 46, 47, 48, 49]).is_empty());
    // a fifth seat does not exist
    assert!(game.handle_join(5, player("eve", 55), &vec![50, 51, 52, 53, 54, 55, 56, 57, 58, 59]).is_empty());
    assert_eq!(game.active_users.len(), 4);
    // a known handle cannot join twice
    assert!(game.handle_join(2, player("bob", 22), &vec![60, 61, 62, 63, 64, 65, 66, 67, 68, 69]).is_empty());
    // and nobody joins once the game started
    assert!(!game.handle_start(1).is_empty());
    assert!(game.handle_join(6, player("fred", 66), &vec![70, 71, 72, 73, 74, 75, 76, 77, 78, 79]).is_empty());
}

#[test]
fn only_the_host_starts_and_only_with_company() {
    let draws: Vec<u8> = vec![32, 0, 1, 2, 3, 4, 5, 6, 7, 8, 9];
    let (mut game, _) = ServerUno::create(7, 1, &player("alice", 11), "g1".to_string(), &draws);
    // alone: no start
    assert!(game.handle_start(1).is_empty());
    assert_eq!(game.start_state, GameStartState::Setup);
    assert!(!game.handle_join(2, player("bob", 22), &vec![20, 21, 22, 23, 24, 25, 26, 27, 28, 29]).is_empty());
    // bob is not the host
    assert!(game.handle_start(2).is_empty());
    assert_eq!(game.start_state, GameStartState::Setup);
    // the host with two players may start
    assert!(!game.handle_start(1).is_empty());
    assert_eq!(game.start_state, GameStartState::Active);
    // starting twice does nothing
    assert!(game.handle_start(1).is_empty());
}

#[test]
fn created_games_greet_their_host() {
    let draws: Vec<u8> = vec![32, 0, 1, 2, 3, 4, 5, 6, 7, 8, 9];
    let (game, effects) = ServerUno::create(7, 1, &player("alice", 11), "g1".to_string(), &draws);
    assert_eq!(game.host_user, 1);
    assert_eq!(game.active_users.len(), 1);
    assert_eq!(game.active_users[0].cards.len(), 10);
    assert_eq!(effects.len(), 2);
    match &effects[0] {
        GameEffect::Message(uid, ServerMessage::JoinedGame(name, _)) => {
            assert_eq!(*uid, 1);
            assert_eq!(name, "g1");
        }
        other => panic!("expected the joined-game greeting, got {other:?}"),
    }
    match &effects[1] {
        GameEffect::State(uid, ServerUnoCommand::GameState(cards, st)) => {
            assert_eq!(*uid, 1);
            // hands are private until the game is Active
            assert!(cards.is_empty());
            assert_eq!(st.game_state, GameStartState::Setup);
            assert_eq!(st.action.len(), 1);
            assert!(matches!(st.action[0], UnoAction::Init));
        }
        other => panic!("expected the opening broadcast, got {other:?}"),
    }
}
