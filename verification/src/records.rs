//! The wire record catalogue: the plain data shapes that clients and the
//! server exchange, and the per-game Uno records nested inside `GameState`
//! frames. Their binary encoding lives outside this crate; here they are
//! ordinary values.
use crate::card::UnoCard;
use vstd::prelude::*;

verus! {

/// The kinds of game the lobby can host.
#[derive(Debug, Clone, Copy, PartialEq, Eq, Structural)]
pub enum GameType {
    Uno,
}

/// The phase a game instance is in.
#[derive(Debug, Clone, Copy, PartialEq, Eq, Structural)]
pub enum GameStartState {
    Setup,
    Active,
    Ending,
}

/// How a user relates to a game.
#[derive(Debug, Clone, Copy, PartialEq, Eq, Structural)]
pub enum GameUserState {
    Active,
    Disconnected,
    Left,
    Spectator,
}

/// A user handle paired with a display name.
#[derive(Debug, Clone)]
pub struct NamedUser(pub u32, pub String);

/// A record a user's connection node can carry about itself.
#[derive(Debug)]
pub enum UserCommand {
    Name(String),
    SelfId(u32),
}

/// What a client may send before and after authentication.
#[derive(Debug)]
pub enum ClientMessage {
    Authenticate(String),
    Authed(u32, ClientAuthedCommand),
}

/// The commands an authenticated client can issue.
#[derive(Debug)]
pub enum ClientAuthedCommand {
    CreateGame(String, GameType),
    Game(ClientGameCommand),
    JoinGame(u32),
}

/// The commands a client can address to the game it is in.
#[derive(Debug)]
pub enum ClientGameCommand {
    Start,
    Leave,
    Raw(Vec<u8>),
}

/// What the server sends back to a client.
#[derive(Debug)]
pub enum ServerMessage {
    AuthResponse(u32),
    LobbyState(ClientLobbyState),
    NewPlayerCount(usize),
    JoinedGame(String, GameType),
    GameState(Vec<u8>),
}

/// The lobby as a client sees it.
#[derive(Debug)]
pub struct ClientLobbyState {
    pub player_count: usize,
    pub games: Vec<LobbyGame>,
}

/// One joinable game in the lobby view.
#[derive(Debug)]
pub struct LobbyGame {
    pub name: String,
    pub id: u32,
    pub game_type: GameType,
    pub start_state: GameStartState,
    pub active_players: u32,
}

/// One entry of the per-game action log clients replay.
#[derive(Debug)]
pub enum UnoAction {
    Init,
    InitialCard(UnoCard),
    UserPlaceCard(String, UnoCard),
    UserPickup(String, u8),
    UserJoined(String),
    UserLeft(String),
    UserFinished(String),
    UserBust(String),
    GameEnded,
}

/// The public summary of one active player.
#[derive(Debug)]
pub struct UnoActiveUser {
    pub id: u32,
    pub name: String,
    pub card_count: u32,
}

/// The per-player snapshot of a game a broadcast describes.
#[derive(Debug)]
pub struct UnoClientGameState {
    pub game_state: GameStartState,
    pub action: Vec<UnoAction>,
    pub finished_users: Vec<(u32, String)>,
    pub bust_users: Vec<(u32, String)>,
    pub active_users: Vec<UnoActiveUser>,
    pub host_user: u32,
    pub user_turn: u8,
    pub is_ord: bool,
    pub last_card: UnoCard,
}

/// What a game actor sends to its players: the recipient's private hand and
/// the shared snapshot.
#[derive(Debug)]
pub enum ServerUnoCommand {
    GameState(Vec<UnoCard>, UnoClientGameState),
}

/// What a player asks the Uno engine to do.
#[derive(Debug)]
pub enum UnoClientAction {
    PickupCard,
    PlayCard(UnoCard),
}

/// A player-level Uno command, by raw card byte.
#[derive(Debug)]
pub enum PlayerUnoCommand {
    PlayCard(u8),
    PickupCard,
}

} // verus!
