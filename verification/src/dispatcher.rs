//! The lobby hub: the singleton that owns the user table, the game registry
//! and the global id counter, routes authenticated commands, and publishes
//! lobby snapshots.
//!
//! The hub is a state machine: one event in, a list of effects out. The
//! surrounding I/O layer owns the channels and connection identities; a
//! connection is named here by an opaque numeric token derived from its
//! remote address.
use crate::records::{
    ClientAuthedCommand, ClientGameCommand, ClientLobbyState, GameStartState, GameType, LobbyGame,
    ServerMessage,
};
use vstd::prelude::*;

verus! {

/// One authenticated user as the hub tracks them. The outbox capability
/// itself stays with the I/O layer, keyed by the user's handle.
#[derive(Debug, Clone)]
pub struct PlayerState {
    pub name: String,
    pub addr: u64,
    pub game_id: Option<u32>,
}

/// One registered game as the hub tracks it. The game's inbox capability
/// stays with the I/O layer, keyed by the game's handle.
#[derive(Debug)]
pub struct GameServerState {
    pub name: String,
    pub player_count: u32,
    pub game_type: GameType,
    pub start_state: GameStartState,
}

/// A registry refresh a game actor reports about itself.
#[derive(Debug)]
pub struct GameServerStateUpdate {
    pub name: String,
    pub player_count: u32,
    pub game_type: GameType,
    pub start_state: GameStartState,
}

/// A command addressed to one game actor.
#[derive(Debug)]
pub struct GameServerMessage {
    pub user_id: u32,
    pub command: ServerGameCommand,
}

/// What a game actor can be asked to do.
#[derive(Debug)]
pub enum ServerGameCommand {
    UserJoin(PlayerState),
    Cmd(ClientGameCommand),
}

/// An intra-server event the hub processes, one at a time.
#[derive(Debug)]
pub enum ServerIntraMessage {
    RegisterUser(String, u64),
    Auth(AuthIntraMessage),
    UpdateUserLobbies,
    Disconnected(u64),
    UpdateGameServer(u32, GameServerStateUpdate),
    UserJoinedGame(u32, u32),
    UserLeftGame(u32, u32),
    GameFinished(u32),
}

/// An authenticated command with its origin, as forwarded by a connection
/// node.
#[derive(Debug)]
pub struct AuthIntraMessage {
    pub addr: u64,
    pub user_id: u32,
    pub message: ClientAuthedCommand,
}

/// What the hub asks its surroundings to do after one event.
#[derive(Debug)]
pub enum DispatchEffect {
    /// Enqueue a record on this user's outbox.
    ToUser(u32, ServerMessage),
    /// Enqueue a command on this game's inbox.
    ToGame(u32, GameServerMessage),
    /// Start a new Uno game actor with this handle, host and lobby name.
    SpawnUno(u32, u32, PlayerState, String),
    /// Feed this event back into the hub's own queue.
    Requeue(ServerIntraMessage),
}

/// Whether a game is shown in the lobby: still in Setup with a free seat.
pub open spec fn lobby_listed(g: GameServerState) -> bool {
    g.start_state == GameStartState::Setup && g.player_count < 4
}

/// Whether one lobby line reports the given game.
pub open spec fn lobby_game_of(id: u32, g: GameServerState, lg: LobbyGame) -> bool {
    &&& lg.name == g.name
    &&& lg.id == id
    &&& lg.game_type == g.game_type
    &&& lg.start_state == g.start_state
    &&& lg.active_players == g.player_count
}

/// The hub itself: the user table, the game registry and the id counter.
/// Both tables are association lists in insertion order; handles are
/// assigned from the monotone counter and never reused.
pub struct TempestServer {
    pub users: Vec<(u32, PlayerState)>,
    pub games: Vec<(u32, GameServerState)>,
    pub last_id: u32,
}

impl TempestServer {
    /// Handles are unique in each table and never exceed the counter.
    pub open spec fn wf(self) -> bool {
        &&& forall|i: int, j: int|
            0 <= i < self.users@.len() && 0 <= j < self.users@.len() && i != j
                ==> self.users@[i].0 != self.users@[j].0
        &&& forall|i: int, j: int|
            0 <= i < self.games@.len() && 0 <= j < self.games@.len() && i != j
                ==> self.games@[i].0 != self.games@[j].0
        &&& forall|i: int| #![auto] 0 <= i < self.users@.len() ==> self.users@[i].0 <= self.last_id
        &&& forall|i: int| #![auto] 0 <= i < self.games@.len() ==> self.games@[i].0 <= self.last_id
    }

    /// Whether some user holds this handle.
    pub open spec fn has_user(self, id: u32) -> bool {
        exists|i: int| 0 <= i < self.users@.len() && self.users@[i].0 == id
    }

    /// The table index of the user with this handle.
    pub open spec fn user_idx(self, id: u32) -> int {
        choose|i: int| 0 <= i < self.users@.len() && self.users@[i].0 == id
    }

    /// Whether some game holds this handle.
    pub open spec fn has_game(self, id: u32) -> bool {
        exists|i: int| 0 <= i < self.games@.len() && self.games@[i].0 == id
    }

    /// The table index of the game with this handle.
    pub open spec fn game_idx(self, id: u32) -> int {
        choose|i: int| 0 <= i < self.games@.len() && self.games@[i].0 == id
    }

    /// An empty hub: no users, no games, the counter at zero.
    pub fn new() -> (s: TempestServer)
        ensures
            s.wf(),
            s.users@.len() == 0,
            s.games@.len() == 0,
            s.last_id == 0,
    {
        TempestServer { users: Vec::new(), games: Vec::new(), last_id: 0 }
    }

    /// Finds a user's table index by handle.
    fn find_user(&self, id: u32) -> (r: Option<usize>)
        ensures
            r is Some ==> self.has_user(id) && 0 <= r->Some_0 < self.users@.len()
                && self.users@[r->Some_0 as int].0 == id,
            r is None ==> !self.has_user(id),
    {
        let n = self.users.len();
        let mut i: usize = 0;
        while i < n && self.users[i].0 != id
            invariant
                n == self.users@.len(),
                i <= n,
                forall|j: int| 0 <= j < i ==> self.users@[j].0 != id,
            decreases n - i,
        {
            i = i + 1;
        }
        if i < n {
            Option::Some(i)
        } else {
            Option::None
        }
    }

    /// Finds a game's table index by handle.
    fn find_game(&self, id: u32) -> (r: Option<usize>)
        ensures
            r is Some ==> self.has_game(id) && 0 <= r->Some_0 < self.games@.len()
                && self.games@[r->Some_0 as int].0 == id,
            r is None ==> !self.has_game(id),
    {
        let n = self.games.len();
        let mut i: usize = 0;
        while i < n && self.games[i].0 != id
            invariant
                n == self.games@.len(),
                i <= n,
                forall|j: int| 0 <= j < i ==> self.games@[j].0 != id,
            decreases n - i,
        {
            i = i + 1;
        }
        if i < n {
            Option::Some(i)
        } else {
            Option::None
        }
    }

    /// Registers a freshly authenticated connection: allocates the next
    /// handle, stores the user, answers with their handle and refreshes the
    /// lobby. A counter at its ceiling drops the registration.
    pub fn register_user(&mut self, name: String, addr: u64) -> (effects: Vec<DispatchEffect>)
        requires
            old(self).wf(),
        ensures
            final(self).wf(),
            old(self).last_id == u32::MAX ==> *final(self) == *old(self) && effects@.len() == 0,
            old(self).last_id < u32::MAX ==> {
                let id = (old(self).last_id + 1) as u32;
                &&& final(self).last_id == id
                &&& final(self).games == old(self).games
                &&& final(self).users@.len() == old(self).users@.len() + 1
                &&& forall|i: int|
                    #![auto]
                    0 <= i < old(self).users@.len() ==> final(self).users@[i] == old(self).users@[i]
                &&& final(self).users@.last().0 == id
                &&& final(self).users@.last().1.name == name
                &&& final(self).users@.last().1.addr == addr
                &&& final(self).users@.last().1.game_id is None
                &&& effects@.len() == 2
                &&& effects@[0] == DispatchEffect::ToUser(id, ServerMessage::AuthResponse(id))
                &&& effects@[1] == DispatchEffect::Requeue(ServerIntraMessage::UpdateUserLobbies)
            },
    {
        if self.last_id == u32::MAX {
            return Vec::new();
        }
        self.last_id = self.last_id + 1;
        let id = self.last_id;
        self.users.push((id, PlayerState { name, addr, game_id: Option::None }));
        let mut effects: Vec<DispatchEffect> = Vec::new();
        effects.push(DispatchEffect::ToUser(id, ServerMessage::AuthResponse(id)));
        effects.push(DispatchEffect::Requeue(ServerIntraMessage::UpdateUserLobbies));
        effects
    }

    /// Removes every user connected from the given address.
    pub fn disconnected(&mut self, addr: u64)
        requires
            old(self).wf(),
        ensures
            final(self).wf(),
            final(self).games == old(self).games,
            final(self).last_id == old(self).last_id,
            final(self).users@ == old(self).users@.filter(
                |p: (u32, PlayerState)| p.1.addr != addr,
            ),
    {
        let ghost pred = |p: (u32, PlayerState)| p.1.addr != addr;
        let n = self.users.len();
        let mut kept: Vec<(u32, PlayerState)> = Vec::new();
        let mut i: usize = 0;
        proof {
            reveal(Seq::filter);
            assert(old(self).users@.take(0).filter(pred) =~= Seq::<(u32, PlayerState)>::empty());
        }
        while i < n
            invariant
                n == self.users@.len(),
                i <= n,
                *self == *old(self),
                kept@ == old(self).users@.take(i as int).filter(
                    |p: (u32, PlayerState)| p.1.addr != addr,
                ),
            decreases n - i,
        {
            let keep = self.users[i].1.addr != addr;
            if keep {
                let id = self.users[i].0;
                let name = self.users[i].1.name.clone();
                let uaddr = self.users[i].1.addr;
                let gid = match self.users[i].1.game_id {
                    Option::Some(g) => Option::Some(g),
                    Option::None => Option::None,
                };
                kept.push((id, PlayerState { name, addr: uaddr, game_id: gid }));
            }
            proof {
                reveal(Seq::filter);
                let prefix = old(self).users@.take(i as int);
                let prefix1 = old(self).users@.take(i as int + 1);
                assert(prefix1.drop_last() =~= prefix);
                assert(prefix1.last() == old(self).users@[i as int]);
                assert(kept@ == prefix1.filter(|p: (u32, PlayerState)| p.1.addr != addr));
            }
            i = i + 1;
        }
        proof {
            assert(old(self).users@.take(n as int) =~= old(self).users@);
        }
        self.users = kept;
        proof {
            let fusers = final(self).users@;
            broadcast use vstd::seq_lib::group_filter_ensures;

            assert forall|a: int, b: int|
                0 <= a < fusers.len() && 0 <= b < fusers.len() && a != b implies fusers[a].0
                != fusers[b].0 by {
                lemma_filter_keeps_distinct(
                    old(self).users@,
                    |p: (u32, PlayerState)| p.1.addr != addr,
                    a,
                    b,
                );
            }
            assert forall|a: int| #![auto] 0 <= a < fusers.len() implies fusers[a].0 <= final(self).last_id by {
                lemma_filter_member(
                    old(self).users@,
                    |p: (u32, PlayerState)| p.1.addr != addr,
                    a,
                );
            }
        }
    }

    /// Applies a game's own registry refresh and schedules a lobby update.
    /// A refresh for an unknown game changes nothing.
    pub fn update_game_server(&mut self, id: u32, updated: GameServerStateUpdate) -> (effects: Vec<
        DispatchEffect,
    >)
        requires
            old(self).wf(),
        ensures
            final(self).wf(),
            final(self).users == old(self).users,
            final(self).last_id == old(self).last_id,
            !old(self).has_game(id) ==> *final(self) == *old(self) && effects@.len() == 0,
            old(self).has_game(id) ==> {
                let gi = old(self).game_idx(id);
                &&& final(self).games@.len() == old(self).games@.len()
                &&& forall|i: int|
                    #![auto]
                    0 <= i < old(self).games@.len() && i != gi ==> final(self).games@[i] == old(self).games@[i]
                &&& final(self).games@[gi].0 == id
                &&& final(self).games@[gi].1.name == updated.name
                &&& final(self).games@[gi].1.player_count == updated.player_count
                &&& final(self).games@[gi].1.start_state == updated.start_state
                &&& final(self).games@[gi].1.game_type == old(self).games@[gi].1.game_type
                &&& effects@.len() == 1
                &&& effects@[0] == DispatchEffect::Requeue(ServerIntraMessage::UpdateUserLobbies)
            },
    {
        let gi = match self.find_game(id) {
            Option::Some(gi) => gi,
            Option::None => {
                return Vec::new();
            },
        };
        proof {
            assert(old(self).game_idx(id) == gi as int);
        }
        let game_type = self.games[gi].1.game_type;
        self.games[gi] = (
            id,
            GameServerState {
                name: updated.name,
                player_count: updated.player_count,
                game_type,
                start_state: updated.start_state,
            },
        );
        let mut effects: Vec<DispatchEffect> = Vec::new();
        effects.push(DispatchEffect::Requeue(ServerIntraMessage::UpdateUserLobbies));
        effects
    }

    /// Records that a user entered a game. Unknown users are ignored.
    pub fn user_joined_game(&mut self, user_id: u32, game_id: u32)
        requires
            old(self).wf(),
        ensures
            final(self).wf(),
            final(self).games == old(self).games,
            final(self).last_id == old(self).last_id,
            !old(self).has_user(user_id) ==> *final(self) == *old(self),
            old(self).has_user(user_id) ==> {
                let ui = old(self).user_idx(user_id);
                &&& final(self).users@.len() == old(self).users@.len()
                &&& forall|i: int|
                    #![auto]
                    0 <= i < old(self).users@.len() && i != ui ==> final(self).users@[i] == old(self).users@[i]
                &&& final(self).users@[ui].0 == user_id
                &&& final(self).users@[ui].1.name == old(self).users@[ui].1.name
                &&& final(self).users@[ui].1.addr == old(self).users@[ui].1.addr
                &&& final(self).users@[ui].1.game_id == Option::Some(game_id)
            },
    {
        let ui = match self.find_user(user_id) {
            Option::Some(ui) => ui,
            Option::None => {
                return ;
            },
        };
        proof {
            assert(old(self).user_idx(user_id) == ui as int);
        }
        let id = self.users[ui].0;
        let name = self.users[ui].1.name.clone();
        let addr = self.users[ui].1.addr;
        self.users[ui] = (id, PlayerState { name, addr, game_id: Option::Some(game_id) });
    }

    /// Records that a user left their game. Unknown users are ignored.
    pub fn user_left_game(&mut self, user_id: u32, _game_id: u32)
        requires
            old(self).wf(),
        ensures
            final(self).wf(),
            final(self).games == old(self).games,
            final(self).last_id == old(self).last_id,
            !old(self).has_user(user_id) ==> *final(self) == *old(self),
            old(self).has_user(user_id) ==> {
                let ui = old(self).user_idx(user_id);
                &&& final(self).users@.len() == old(self).users@.len()
                &&& forall|i: int|
                    #![auto]
                    0 <= i < old(self).users@.len() && i != ui ==> final(self).users@[i] == old(self).users@[i]
                &&& final(self).users@[ui].0 == user_id
                &&& final(self).users@[ui].1.name == old(self).users@[ui].1.name
                &&& final(self).users@[ui].1.addr == old(self).users@[ui].1.addr
                &&& final(self).users@[ui].1.game_id is None
            },
    {
        let ui = match self.find_user(user_id) {
            Option::Some(ui) => ui,
            Option::None => {
                return ;
            },
        };
        proof {
            assert(old(self).user_idx(user_id) == ui as int);
        }
        let id = self.users[ui].0;
        let name = self.users[ui].1.name.clone();
        let addr = self.users[ui].1.addr;
        self.users[ui] = (id, PlayerState { name, addr, game_id: Option::None });
    }

    /// Whether a lobby snapshot reports this hub state: the user count and
    /// one line per joinable game, in registry order.
    pub open spec fn lobby_snapshot_matches(self, snap: ClientLobbyState) -> bool {
        let listed = self.games@.filter(|p: (u32, GameServerState)| lobby_listed(p.1));
        &&& snap.player_count == self.users@.len()
        &&& snap.games@.len() == listed.len()
        &&& forall|i: int|
            #![auto]
            0 <= i < listed.len() ==> lobby_game_of(listed[i].0, listed[i].1, snap.games@[i])
    }

    /// The joinable games, one lobby line each, in registry order.
    fn build_lobby_games(&self) -> (r: Vec<LobbyGame>)
        ensures
            ({
                let listed = self.games@.filter(|p: (u32, GameServerState)| lobby_listed(p.1));
                &&& r@.len() == listed.len()
                &&& forall|i: int|
                    #![auto]
                    0 <= i < listed.len() ==> lobby_game_of(listed[i].0, listed[i].1, r@[i])
            }),
    {
        let ghost pred = |p: (u32, GameServerState)| lobby_listed(p.1);
        let n = self.games.len();
        let mut r: Vec<LobbyGame> = Vec::new();
        let mut i: usize = 0;
        proof {
            reveal(Seq::filter);
            assert(self.games@.take(0).filter(pred) =~= Seq::<(u32, GameServerState)>::empty());
        }
        while i < n
            invariant
                n == self.games@.len(),
                i <= n,
                ({
                    let listed = self.games@.take(i as int).filter(
                        |p: (u32, GameServerState)| lobby_listed(p.1),
                    );
                    &&& r@.len() == listed.len()
                    &&& forall|k: int|
                        #![auto]
                        0 <= k < listed.len() ==> lobby_game_of(listed[k].0, listed[k].1, r@[k])
                }),
            decreases n - i,
        {
            let keep = {
                let is_setup = match self.games[i].1.start_state {
                    GameStartState::Setup => true,
                    _ => false,
                };
                is_setup && self.games[i].1.player_count < 4
            };
            if keep {
                let lg = LobbyGame {
                    name: self.games[i].1.name.clone(),
                    id: self.games[i].0,
                    game_type: self.games[i].1.game_type,
                    start_state: self.games[i].1.start_state,
                    active_players: self.games[i].1.player_count,
                };
                r.push(lg);
            }
            proof {
                reveal(Seq::filter);
                let prefix = self.games@.take(i as int);
                let prefix1 = self.games@.take(i as int + 1);
                assert(prefix1.drop_last() =~= prefix);
                assert(prefix1.last() == self.games@[i as int]);
            }
            i = i + 1;
        }
        proof {
            assert(self.games@.take(n as int) =~= self.games@);
        }
        r
    }

    /// Rebuilds a lobby line list value for value.
    fn clone_lobby_games(v: &Vec<LobbyGame>) -> (r: Vec<LobbyGame>)
        ensures
            r@ == v@,
    {
        let mut r: Vec<LobbyGame> = Vec::new();
        let mut k: usize = 0;
        while k < v.len()
            invariant
                k <= v@.len(),
                r@.len() == k,
                forall|i: int| #![auto] 0 <= i < k ==> r@[i] == v@[i],
            decreases v@.len() - k,
        {
            let lg = LobbyGame {
                name: v[k].name.clone(),
                id: v[k].id,
                game_type: v[k].game_type,
                start_state: v[k].start_state,
                active_players: v[k].active_players,
            };
            r.push(lg);
            k = k + 1;
        }
        proof {
            assert(r@ =~= v@);
        }
        r
    }

    /// Sends the current lobby view to every user who is not in a game, in
    /// table order. The hub itself does not change.
    #[verifier::loop_isolation(false)]
    pub fn update_user_lobbies(&mut self) -> (effects: Vec<DispatchEffect>)
        requires
            old(self).wf(),
        ensures
            *final(self) == *old(self),
            ({
                let lobby_users = old(self).users@.filter(
                    |p: (u32, PlayerState)| p.1.game_id is None,
                );
                &&& effects@.len() == lobby_users.len()
                &&& forall|k: int|
                    0 <= k < effects@.len() ==> ((#[trigger] effects@[k])
                        matches DispatchEffect::ToUser(uid, m) && uid == lobby_users[k].0 && (
                    m matches ServerMessage::LobbyState(snap) && old(self).lobby_snapshot_matches(
                        snap,
                    )))
            }),
    {
        let ghost pred = |p: (u32, PlayerState)| p.1.game_id is None;
        let lobby_games = self.build_lobby_games();
        let n = self.users.len();
        let mut effects: Vec<DispatchEffect> = Vec::new();
        let mut i: usize = 0;
        proof {
            reveal(Seq::filter);
            assert(self.users@.take(0).filter(pred) =~= Seq::<(u32, PlayerState)>::empty());
        }
        while i < n
            invariant
                i <= n,
                ({
                    let lobby_users = self.users@.take(i as int).filter(
                        |p: (u32, PlayerState)| p.1.game_id is None,
                    );
                    &&& effects@.len() == lobby_users.len()
                    &&& forall|k: int|
                        0 <= k < effects@.len() ==> ((#[trigger] effects@[k])
                            matches DispatchEffect::ToUser(uid, m) && uid == lobby_users[k].0 && (
                        m matches ServerMessage::LobbyState(snap) && self.lobby_snapshot_matches(
                            snap,
                        )))
                }),
            decreases n - i,
        {
            let send_here = match self.users[i].1.game_id {
                Option::None => true,
                Option::Some(_) => false,
            };
            if send_here {
                let snap = ClientLobbyState {
                    player_count: self.users.len(),
                    games: Self::clone_lobby_games(&lobby_games),
                };
                effects.push(
                    DispatchEffect::ToUser(self.users[i].0, ServerMessage::LobbyState(snap)),
                );
            }
            proof {
                reveal(Seq::filter);
                let prefix = self.users@.take(i as int);
                let prefix1 = self.users@.take(i as int + 1);
                assert(prefix1.drop_last() =~= prefix);
                assert(prefix1.last() == self.users@[i as int]);
            }
            i = i + 1;
        }
        proof {
            assert(self.users@.take(n as int) =~= self.users@);
        }
        effects
    }

    /// Routes one authenticated command, after checking that it arrives
    /// from the address its user registered with.
    ///
    /// Creating a game allocates its handle, registers it and asks for the
    /// actor to be spawned; the creator must not already be in a game.
    /// Joining forwards the request to the game actor, which enforces the
    /// seat limit and phase. A plain game command is forwarded to the
    /// sender's current game.
    pub fn handle_auth(&mut self, msg: AuthIntraMessage) -> (effects: Vec<DispatchEffect>)
        requires
            old(self).wf(),
        ensures
            final(self).wf(),
            (!old(self).has_user(msg.user_id) || old(self).users@[old(self).user_idx(
                msg.user_id,
            )].1.addr != msg.addr) ==> *final(self) == *old(self) && effects@.len() == 0,
            (old(self).has_user(msg.user_id) && old(self).users@[old(self).user_idx(
                msg.user_id,
            )].1.addr == msg.addr) ==> {
                let ui = old(self).user_idx(msg.user_id);
                let user = old(self).users@[ui].1;
                match msg.message {
                    ClientAuthedCommand::CreateGame(name, kind) => {
                        if user.game_id is Some || old(self).last_id == u32::MAX {
                            *final(self) == *old(self) && effects@.len() == 0
                        } else {
                            let gid = (old(self).last_id + 1) as u32;
                            &&& final(self).last_id == gid
                            &&& final(self).games@.len() == old(self).games@.len() + 1
                            &&& forall|i: int|
                                #![auto]
                                0 <= i < old(self).games@.len() ==> final(self).games@[i] == old(self).games@[i]
                            &&& final(self).games@.last().0 == gid
                            &&& final(self).games@.last().1.name == name
                            &&& final(self).games@.last().1.player_count == 1
                            &&& final(self).games@.last().1.game_type == kind
                            &&& final(self).games@.last().1.start_state == GameStartState::Setup
                            &&& final(self).users@.len() == old(self).users@.len()
                            &&& forall|i: int|
                                #![auto]
                                0 <= i < old(self).users@.len() && i != ui ==> final(self).users@[i] == old(self).users@[i]
                            &&& final(self).users@[ui].0 == msg.user_id
                            &&& final(self).users@[ui].1.name == user.name
                            &&& final(self).users@[ui].1.addr == user.addr
                            &&& final(self).users@[ui].1.game_id == Option::Some(gid)
                            &&& effects@.len() == 2
                            &&& (effects@[0] matches DispatchEffect::SpawnUno(g, h, p, nm) && g
                                == gid && h == msg.user_id && p.name == user.name && p.addr
                                == user.addr && p.game_id is None && nm == name)
                            &&& effects@[1] == DispatchEffect::Requeue(
                                ServerIntraMessage::UpdateUserLobbies,
                            )
                        }
                    },
                    ClientAuthedCommand::Game(cmd) => {
                        if user.game_id matches Some(gid) && old(self).has_game(gid) {
                            &&& *final(self) == *old(self)
                            &&& effects@.len() == 1
                            &&& (effects@[0] matches DispatchEffect::ToGame(g, gm) && Option::Some(
                                g,
                            ) == user.game_id && gm.user_id == msg.user_id && gm.command
                                == ServerGameCommand::Cmd(cmd))
                        } else {
                            *final(self) == *old(self) && effects@.len() == 0
                        }
                    },
                    ClientAuthedCommand::JoinGame(gid) => {
                        if user.game_id is None && old(self).has_game(gid) {
                            &&& *final(self) == *old(self)
                            &&& effects@.len() == 1
                            &&& (effects@[0] matches DispatchEffect::ToGame(g, gm) && g == gid
                                && gm.user_id == msg.user_id && (
                            gm.command matches ServerGameCommand::UserJoin(p) && p.name
                                == user.name && p.addr == user.addr && p.game_id is None))
                        } else {
                            *final(self) == *old(self) && effects@.len() == 0
                        }
                    },
                }
            },
    {
        let ui = match self.find_user(msg.user_id) {
            Option::Some(ui) => ui,
            Option::None => {
                return Vec::new();
            },
        };
        proof {
            assert(old(self).user_idx(msg.user_id) == ui as int);
        }
        if self.users[ui].1.addr != msg.addr {
            return Vec::new();
        }
        match msg.message {
            ClientAuthedCommand::CreateGame(name, kind) => {
                let in_game = match self.users[ui].1.game_id {
                    Option::Some(_) => true,
                    Option::None => false,
                };
                if in_game || self.last_id == u32::MAX {
                    return Vec::new();
                }
                self.last_id = self.last_id + 1;
                let gid = self.last_id;
                let host = PlayerState {
                    name: self.users[ui].1.name.clone(),
                    addr: self.users[ui].1.addr,
                    game_id: Option::None,
                };
                let entry = GameServerState {
                    name: name.clone(),
                    player_count: 1,
                    game_type: kind,
                    start_state: GameStartState::Setup,
                };
                self.games.push((gid, entry));
                let uid = self.users[ui].0;
                let uname = self.users[ui].1.name.clone();
                let uaddr = self.users[ui].1.addr;
                self.users[ui] = (
                    uid,
                    PlayerState { name: uname, addr: uaddr, game_id: Option::Some(gid) },
                );
                let mut effects: Vec<DispatchEffect> = Vec::new();
                effects.push(DispatchEffect::SpawnUno(gid, msg.user_id, host, name));
                effects.push(DispatchEffect::Requeue(ServerIntraMessage::UpdateUserLobbies));
                effects
            },
            ClientAuthedCommand::Game(cmd) => {
                let gid = match self.users[ui].1.game_id {
                    Option::Some(gid) => gid,
                    Option::None => {
                        return Vec::new();
                    },
                };
                if self.find_game(gid).is_none() {
                    return Vec::new();
                }
                let mut effects: Vec<DispatchEffect> = Vec::new();
                effects.push(
                    DispatchEffect::ToGame(
                        gid,
                        GameServerMessage {
                            user_id: msg.user_id,
                            command: ServerGameCommand::Cmd(cmd),
                        },
                    ),
                );
                effects
            },
            ClientAuthedCommand::JoinGame(gid) => {
                let in_game = match self.users[ui].1.game_id {
                    Option::Some(_) => true,
                    Option::None => false,
                };
                if in_game {
                    return Vec::new();
                }
                if self.find_game(gid).is_none() {
                    return Vec::new();
                }
                let p = PlayerState {
                    name: self.users[ui].1.name.clone(),
                    addr: self.users[ui].1.addr,
                    game_id: Option::None,
                };
                let mut effects: Vec<DispatchEffect> = Vec::new();
                effects.push(
                    DispatchEffect::ToGame(
                        gid,
                        GameServerMessage {
                            user_id: msg.user_id,
                            command: ServerGameCommand::UserJoin(p),
                        },
                    ),
                );
                effects
            },
        }
    }

    /// Drops a finished game from the registry and refreshes the lobby.
    pub fn game_finished(&mut self, id: u32) -> (effects: Vec<DispatchEffect>)
        requires
            old(self).wf(),
        ensures
            final(self).wf(),
            final(self).users == old(self).users,
            final(self).last_id == old(self).last_id,
            !old(self).has_game(id) ==> final(self).games == old(self).games,
            old(self).has_game(id) ==> final(self).games@ == old(self).games@.remove(
                old(self).game_idx(id),
            ),
            effects@.len() == 1,
            effects@[0] == DispatchEffect::Requeue(ServerIntraMessage::UpdateUserLobbies),
    {
        let mut effects: Vec<DispatchEffect> = Vec::new();
        effects.push(DispatchEffect::Requeue(ServerIntraMessage::UpdateUserLobbies));
        let gi = match self.find_game(id) {
            Option::Some(gi) => gi,
            Option::None => {
                return effects;
            },
        };
        proof {
            assert(old(self).game_idx(id) == gi as int);
        }
        let _ = self.games.remove(gi);
        proof {
            assert forall|a: int, b: int|
                0 <= a < self.games@.len() && 0 <= b < self.games@.len() && a != b implies self
                .games@[a].0 != self.games@[b].0 by {
                let oa = if a < gi as int {
                    a
                } else {
                    a + 1
                };
                let ob = if b < gi as int {
                    b
                } else {
                    b + 1
                };
                assert(self.games@[a] == old(self).games@[oa]);
                assert(self.games@[b] == old(self).games@[ob]);
            }
            assert forall|a: int| #![auto] 0 <= a < self.games@.len() implies self.games@[a].0
                <= self.last_id by {
                if a < gi as int {
                    assert(self.games@[a] == old(self).games@[a]);
                } else {
                    assert(self.games@[a] == old(self).games@[a + 1]);
                }
            }
        }
        effects
    }
}

/// Distinct entries of a filtered table stay distinct.
proof fn lemma_filter_keeps_distinct(
    s: Seq<(u32, PlayerState)>,
    pred: spec_fn((u32, PlayerState)) -> bool,
    a: int,
    b: int,
)
    requires
        forall|i: int, j: int| 0 <= i < s.len() && 0 <= j < s.len() && i != j ==> s[i].0 != s[j].0,
        0 <= a < s.filter(pred).len(),
        0 <= b < s.filter(pred).len(),
        a != b,
    ensures
        s.filter(pred)[a].0 != s.filter(pred)[b].0,
    decreases s.len(),
{
    reveal(Seq::filter);
    if s.len() > 0 {
        let f = s.filter(pred);
        let f0 = s.drop_last().filter(pred);
        if pred(s.last()) {
            if a < f.len() - 1 && b < f.len() - 1 {
                lemma_filter_keeps_distinct(s.drop_last(), pred, a, b);
            } else {
                let c = if a < f.len() - 1 {
                    a
                } else {
                    b
                };
                lemma_filter_member(s.drop_last(), pred, c);
            }
        } else {
            lemma_filter_keeps_distinct(s.drop_last(), pred, a, b);
        }
    }
}

/// Every entry of a filtered table comes from the table.
proof fn lemma_filter_member(
    s: Seq<(u32, PlayerState)>,
    pred: spec_fn((u32, PlayerState)) -> bool,
    a: int,
)
    requires
        0 <= a < s.filter(pred).len(),
    ensures
        exists|i: int| 0 <= i < s.len() && s[i] == #[trigger] s.filter(pred)[a],
    decreases s.len(),
{
    reveal(Seq::filter);
    if s.len() > 0 {
        let f = s.filter(pred);
        if pred(s.last()) && a == f.len() - 1 {
            assert(s[s.len() - 1] == f[a]);
        } else {
            lemma_filter_member(s.drop_last(), pred, a);
            let i = choose|i: int|
                0 <= i < s.drop_last().len() && s.drop_last()[i] == s.drop_last().filter(pred)[a];
            assert(s[i] == f[a]);
        }
    }
}

} // verus!
