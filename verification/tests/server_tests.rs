use eins::card::{Card, CardColor, ColorableType};
use eins::client::{update_server_state, ClientError, ServerData};
use eins::protocol::{ErrorResponse, ServerToClient};
use eins::server::{ServerError, ServerState};

fn names(state: &ServerState) -> Vec<String> {
    state.usernames().clone()
}

#[test]
fn host_is_registered() {
    let state = ServerState::new("host".into(), 7);
    let seen = state.get_user_server_state(&"host".into()).unwrap();
    assert_eq!(seen.client_username, "host");
    assert_eq!(seen.usernames, vec!["host".to_string()]);
    assert!(seen.game_state.is_none());
    assert!(state.get_user_server_state(&"nobody".into()).is_none());
}

#[test]
fn register_errors() {
    let mut state = ServerState::new("host".into(), 0);
    assert_eq!(state.register_username(1, &"host".into()), Err(ErrorResponse::UsernameInUse));
    assert_eq!(state.register_username(0, &"other".into()), Err(ErrorResponse::InvalidAction));
    assert_eq!(state.register_username(1, &"alice".into()), Ok(()));
    assert_eq!(names(&state), vec!["host".to_string(), "alice".to_string()]);
    assert_eq!(state.start_game(), Ok(()));
    assert_eq!(state.start_game(), Err(ErrorResponse::GameAlreadyStarted));
    assert_eq!(state.register_username(2, &"late".into()), Err(ErrorResponse::GameHasBegun));
}

#[test]
fn leave_before_start_forgets_name() {
    let mut state = ServerState::new("host".into(), 0);
    assert_eq!(state.register_username(5, &"alice".into()), Ok(()));
    assert_eq!(state.remove_sender(5), Ok(()));
    assert_eq!(names(&state), vec!["host".to_string()]);
    assert!(state.get_user_server_state(&"alice".into()).is_none());
    assert_eq!(state.remove_sender(5), Err(ErrorResponse::NotInGame));
    // The name is free again.
    assert_eq!(state.register_username(6, &"alice".into()), Ok(()));
}

#[test]
fn leave_after_start_keeps_seat_and_no_one_joins() {
    let mut state = ServerState::new("host".into(), 0);
    assert_eq!(state.register_username(5, &"alice".into()), Ok(()));
    assert_eq!(state.start_game(), Ok(()));
    assert_eq!(state.remove_sender(5), Ok(()));
    assert_eq!(names(&state), vec!["host".to_string(), "alice".to_string()]);
    assert!(state.get_user_server_state(&"alice".into()).is_none());
    // Once the game has begun, every registration is refused, a returning name included.
    assert_eq!(state.register_username(9, &"alice".into()), Err(ErrorResponse::GameHasBegun));
    assert_eq!(state.register_username(9, &"newcomer".into()), Err(ErrorResponse::GameHasBegun));
    assert!(state.get_user_server_state(&"alice".into()).is_none());
    let seen = state.get_user_server_state(&"host".into()).unwrap();
    let game = seen.game_state.unwrap();
    assert_eq!(game.player_order, vec!["host".to_string(), "alice".to_string()]);
    assert_eq!(game.current_player, "host");
    assert_eq!(game.card_counts, vec![("host".to_string(), 6), ("alice".to_string(), 6)]);
    assert_eq!(game.hand.iter().map(|e| e.1).sum::<i64>(), 6);
}

#[test]
fn play_and_draw_errors() {
    let mut state = ServerState::new("host".into(), 0);
    let card = Card::Colored(CardColor::Blue, ColorableType::One);
    assert_eq!(state.draw_card(3), Err(ErrorResponse::NotInGame));
    assert_eq!(state.play_card(3, &card), Err(ErrorResponse::NotInGame));
    assert_eq!(state.draw_card(0), Err(ErrorResponse::GameNotStarted));
    assert_eq!(state.play_card(0, &card), Err(ErrorResponse::GameNotStarted));
    assert_eq!(state.register_username(1, &"alice".into()), Ok(()));
    assert_eq!(state.start_game(), Ok(()));
    // It is the host's turn, so alice may not draw.
    assert_eq!(state.draw_card(1), Err(ErrorResponse::InvalidAction));
    assert_eq!(state.draw_card(0), Ok(()));
    let seen = state.get_user_server_state(&"host".into()).unwrap().game_state.unwrap();
    assert_eq!(seen.current_player, "alice");
    assert_eq!(seen.card_counts[0].1, 7);
}

#[test]
fn update_messages_reach_every_connection_or_the_source() {
    let mut state = ServerState::new("host".into(), 0);
    assert_eq!(state.register_username(4, &"alice".into()), Ok(()));
    let mut ids: Vec<usize> = state.update_messages(None, &Ok(())).iter().map(|m| m.0).collect();
    ids.sort();
    assert_eq!(ids, vec![0, 4]);
    for (id, message) in state.update_messages(Some(4), &Ok(())) {
        match message {
            ServerToClient::StateUpdate(seen) => {
                assert_eq!(seen.client_username, if id == 0 { "host" } else { "alice" });
            }
            ServerToClient::Error(_) => panic!("no error expected"),
        }
    }
    let errors = state.update_messages(Some(4), &Err(ErrorResponse::InvalidAction));
    assert_eq!(errors.len(), 1);
    assert_eq!(errors[0].0, 4);
    assert!(matches!(errors[0].1, ServerToClient::Error(ErrorResponse::InvalidAction)));
    assert!(state.update_messages(None, &Err(ErrorResponse::InvalidAction)).is_empty());
}

#[test]
fn default_server_is_empty() {
    let mut state = ServerState::default();
    assert!(names(&state).is_empty());
    assert!(!state.has_game());
    assert!(state.update_messages(None, &Ok(())).is_empty());
    assert_eq!(state.register_username(1, &"solo".into()), Ok(()));
    assert!(state.counts_fit());
}

#[test]
fn client_keeps_last_state_and_error() {
    let mut data = ServerData::default();
    let state = ServerState::new("host".into(), 0);
    let seen = state.get_user_server_state(&"host".into()).unwrap();
    update_server_state(&mut data, ServerToClient::StateUpdate(seen));
    update_server_state(&mut data, ServerToClient::Error(ErrorResponse::GameIsFull));
    assert_eq!(data.server_state.as_ref().unwrap().client_username, "host");
    assert!(matches!(data.last_error, Some(ErrorResponse::GameIsFull)));
}

#[test]
fn error_messages_name_the_error() {
    assert_eq!(ClientError::FailedToConnect.message(), "FailedToConnect");
    assert_eq!(ClientError::FailedToCreateServer.message(), "FailedToCreateServer");
    assert_eq!(ServerError::FailedToBind.message(), "FailedToBind");
    assert_eq!(ServerError::FailedToAccept.message(), "FailedToAccept");
    assert_eq!(ServerError::FailedToSerialize.message(), "FailedToSerialize");
}
