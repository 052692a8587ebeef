//! The per-game authoritative Uno state machine.
//!
//! One instance owns a game's full state and processes player commands in
//! strict serial order. Everything here maps plain values to plain values:
//! channels, sockets and the binary encoding of broadcasts live outside the
//! crate. Where play draws random deck slots, the caller passes the drawn
//! slots in, so every rule below is deterministic.
use crate::card::{
    spec_colour, spec_encode, spec_is_black, spec_is_power, spec_valid, spec_value, UnoCard,
    UnoCardColour,
};
use crate::deck::{dealt_from, discard_slot, spec_discard_fits, UnoDeck};
use crate::dispatcher::{GameServerStateUpdate, PlayerState, ServerIntraMessage};
use crate::records::{
    GameStartState, GameType, ServerMessage, ServerUnoCommand, UnoAction, UnoActiveUser,
    UnoClientAction, UnoClientGameState,
};
use vstd::prelude::*;

verus! {

broadcast use vstd::set::group_set_axioms, vstd::seq_lib::group_filter_ensures;

/// One active player: identity and private hand.
#[derive(Debug)]
pub struct UnoUser {
    pub id: u32,
    pub name: String,
    pub cards: Vec<UnoCard>,
}

/// What a game hands back to its surroundings after a step: records to send
/// to users and events for the dispatcher.
#[derive(Debug)]
pub enum GameEffect {
    /// A per-player game snapshot for this user, to be encoded and framed.
    State(u32, ServerUnoCommand),
    /// A plain server record for this user.
    Message(u32, ServerMessage),
    /// An intra-server event for the dispatcher.
    Service(ServerIntraMessage),
}

/// Why a played card was rejected.
#[derive(Debug, Clone, Copy, PartialEq, Eq, Structural)]
pub enum SubmitError {
    InvalidCard,
    CardNotAllowed,
    NotUsersTurn,
    CardNotHeld,
}

impl SubmitError {
    /// A short description of the rejection, for logs.
    pub fn message(&self) -> &'static str {
        match self {
            SubmitError::InvalidCard => "Invalid Card",
            SubmitError::CardNotAllowed => "Card not allowed",
            SubmitError::NotUsersTurn => "Not this user's turn",
            SubmitError::CardNotHeld => "User does not have card",
        }
    }
}

/// The cards held across a sequence of players' hands.
pub open spec fn hands_total(users: Seq<UnoUser>) -> int
    decreases users.len(),
{
    if users.len() == 0 {
        0
    } else {
        hands_total(users.drop_last()) + users.last().cards@.len()
    }
}

/// Appending a player adds exactly their hand to the total.
pub proof fn lemma_hands_total_push(users: Seq<UnoUser>, u: UnoUser)
    ensures
        hands_total(users.push(u)) == hands_total(users) + u.cards@.len(),
{
    assert(users.push(u).drop_last() =~= users);
    assert(users.push(u).last() == u);
}

/// Concatenating two player lists adds their hand totals.
pub proof fn lemma_hands_total_concat(a: Seq<UnoUser>, b: Seq<UnoUser>)
    ensures
        hands_total(a + b) == hands_total(a) + hands_total(b),
    decreases b.len(),
{
    if b.len() == 0 {
        assert(a + b =~= a);
    } else {
        lemma_hands_total_concat(a, b.drop_last());
        assert((a + b).drop_last() =~= a + b.drop_last());
        assert((a + b).last() == b.last());
    }
}

/// A filter whose test fails on every player keeps nobody.
proof fn lemma_filter_none(s: Seq<UnoUser>, pred: spec_fn(UnoUser) -> bool)
    requires
        forall|i: int| 0 <= i < s.len() ==> !pred(#[trigger] s[i]),
    ensures
        s.filter(pred) == Seq::<UnoUser>::empty(),
    decreases s.len(),
{
    reveal(Seq::filter);
    if s.len() > 0 {
        lemma_filter_none(s.drop_last(), pred);
    }
}

/// A filter whose test holds on every player keeps everyone.
proof fn lemma_filter_all(s: Seq<UnoUser>, pred: spec_fn(UnoUser) -> bool)
    requires
        forall|i: int| 0 <= i < s.len() ==> pred(#[trigger] s[i]),
    ensures
        s.filter(pred) == s,
    decreases s.len(),
{
    reveal(Seq::filter);
    if s.len() > 0 {
        lemma_filter_all(s.drop_last(), pred);
        assert(s.filter(pred) =~= s);
    }
}

/// Replacing one player swaps their hand's share of the total.
pub proof fn lemma_hands_total_update(users: Seq<UnoUser>, i: int, u: UnoUser)
    requires
        0 <= i < users.len(),
    ensures
        hands_total(users.update(i, u)) == hands_total(users) - users[i].cards@.len()
            + u.cards@.len(),
    decreases users.len(),
{
    if i == users.len() - 1 {
        assert(users.update(i, u).drop_last() =~= users.drop_last());
        assert(users.update(i, u).last() == u);
    } else {
        lemma_hands_total_update(users.drop_last(), i, u);
        assert(users.update(i, u).drop_last() =~= users.drop_last().update(i, u));
        assert(users.update(i, u).last() == users.last());
    }
}

/// Removing one player takes exactly their hand out of the total.
pub proof fn lemma_hands_total_remove(users: Seq<UnoUser>, i: int)
    requires
        0 <= i < users.len(),
    ensures
        hands_total(users.remove(i)) == hands_total(users) - users[i].cards@.len(),
    decreases users.len(),
{
    if i == users.len() - 1 {
        assert(users.remove(i) =~= users.drop_last());
    } else {
        lemma_hands_total_remove(users.drop_last(), i);
        assert(users.remove(i).drop_last() =~= users.drop_last().remove(i));
        assert(users.remove(i).last() == users.last());
    }
}

/// Every hand is part of the total, and the total never goes negative.
pub proof fn lemma_hands_total_bounds(users: Seq<UnoUser>, i: int)
    requires
        0 <= i < users.len(),
    ensures
        hands_total(users) >= 0,
        users[i].cards@.len() <= hands_total(users),
    decreases users.len(),
{
    lemma_hands_total_nonneg(users.drop_last());
    if i == users.len() - 1 {
    } else {
        lemma_hands_total_bounds(users.drop_last(), i);
    }
}

/// The hand total is never negative.
pub proof fn lemma_hands_total_nonneg(users: Seq<UnoUser>)
    ensures
        hands_total(users) >= 0,
    decreases users.len(),
{
    if users.len() > 0 {
        lemma_hands_total_nonneg(users.drop_last());
    }
}

/// Rebuilds an action log value for value: the copy's view equals the
/// original's.
fn clone_actions(v: &Vec<UnoAction>) -> (r: Vec<UnoAction>)
    ensures
        r@ == v@,
{
    let mut r: Vec<UnoAction> = Vec::new();
    let mut k: usize = 0;
    while k < v.len()
        invariant
            k <= v@.len(),
            r@.len() == k,
            forall|i: int| #![auto] 0 <= i < k ==> r@[i] == v@[i],
        decreases v@.len() - k,
    {
        let a = match &v[k] {
            UnoAction::Init => UnoAction::Init,
            UnoAction::InitialCard(c) => UnoAction::InitialCard(*c),
            UnoAction::UserPlaceCard(n, c) => UnoAction::UserPlaceCard(n.clone(), *c),
            UnoAction::UserPickup(n, m) => UnoAction::UserPickup(n.clone(), *m),
            UnoAction::UserJoined(n) => UnoAction::UserJoined(n.clone()),
            UnoAction::UserLeft(n) => UnoAction::UserLeft(n.clone()),
            UnoAction::UserFinished(n) => UnoAction::UserFinished(n.clone()),
            UnoAction::UserBust(n) => UnoAction::UserBust(n.clone()),
            UnoAction::GameEnded => UnoAction::GameEnded,
        };
        r.push(a);
        k = k + 1;
    }
    proof {
        assert(r@ =~= v@);
    }
    r
}

/// Copies a list of (handle, name) pairs; the copy's view equals the
/// original's.
fn clone_pairs(v: &Vec<(u32, String)>) -> (r: Vec<(u32, String)>)
    ensures
        r@ == v@,
{
    let mut r: Vec<(u32, String)> = Vec::new();
    let mut k: usize = 0;
    while k < v.len()
        invariant
            k <= v@.len(),
            r@.len() == k,
            forall|i: int| #![auto] 0 <= i < k ==> r@[i] == v@[i],
        decreases v@.len() - k,
    {
        let id = v[k].0;
        let name = v[k].1.clone();
        r.push((id, name));
        k = k + 1;
    }
    proof {
        assert(r@ =~= v@);
    }
    r
}

/// Copies a hand of cards; the copy's view equals the original's.
fn copy_cards(v: &Vec<UnoCard>) -> (r: Vec<UnoCard>)
    ensures
        r@ == v@,
{
    let mut r: Vec<UnoCard> = Vec::new();
    let mut k: usize = 0;
    while k < v.len()
        invariant
            k <= v@.len(),
            r@.len() == k,
            forall|i: int| #![auto] 0 <= i < k ==> r@[i] == v@[i],
        decreases v@.len() - k,
    {
        let c = v[k];
        r.push(c);
        k = k + 1;
    }
    proof {
        assert(r@ =~= v@);
    }
    r
}

impl UnoUser {
    /// A freshly joining player: identity plus a ten-card hand dealt from
    /// the deck at the supplied slots.
    pub fn new_joiner(deck: &mut UnoDeck, user_id: u32, user: PlayerState, draws: &Vec<u8>) -> (u:
        UnoUser)
        requires
            old(deck).wf(),
            draws@.len() == 10,
            old(deck).main_set().len() >= 10,
        ensures
            final(deck).wf(),
            final(deck).discard_deck == old(deck).discard_deck,
            final(deck).main_set().len() == old(deck).main_set().len() - 10,
            final(deck).main_set().subset_of(old(deck).main_set()),
            u.id == user_id,
            u.name == user.name,
            u.cards@.len() == 10,
            forall|j: int|
                #![auto]
                0 <= j < 10 ==> spec_valid(u.cards@[j].0) && crate::card::spec_canonical(
                    u.cards@[j].0,
                ),
            forall|j: int|
                0 <= j < 10 ==> dealt_from(
                    old(deck).main_set(),
                    final(deck).main_set(),
                    (#[trigger] u.cards@[j]).0,
                ),
    {
        let cards = deck.get_new_hand(draws);
        UnoUser { id: user_id, name: user.name, cards }
    }
}

/// The index whose turn comes after `t` among `n` players, respecting the
/// direction flag.
pub open spec fn next_turn_idx(is_ord: bool, t: int, n: int) -> int {
    if is_ord {
        if t == n - 1 {
            0
        } else {
            t + 1
        }
    } else {
        if t == 0 {
            n - 1
        } else {
            t - 1
        }
    }
}

/// The canonical storage form of a played card: wilds fold to Red.
pub open spec fn canonical_form(raw: u8) -> u8 {
    if spec_is_power(raw) && (spec_value(raw) == 3 || spec_value(raw) == 4) {
        spec_encode(true, UnoCardColour::Red, spec_value(raw))
    } else {
        raw
    }
}

/// Whether a card may be played on the given last card: wilds always may,
/// otherwise colour or value must match.
pub open spec fn play_legal(last: u8, raw: u8) -> bool {
    ||| spec_is_black(canonical_form(raw))
    ||| spec_colour(raw) == spec_colour(last)
    ||| spec_value(raw) == spec_value(last)
}

/// The direction flag after a card is committed: only a (coloured) Reverse
/// flips it.
pub open spec fn dir_after_play(raw: u8, is_ord: bool) -> bool {
    if spec_is_power(raw) && spec_value(raw) == 2 {
        !is_ord
    } else {
        is_ord
    }
}

/// A Reverse play toggles the direction exactly once, and two consecutive
/// Reverse plays restore it; any other card leaves the direction alone.
pub proof fn lemma_reverse_toggles(raw: u8, is_ord: bool)
    ensures
        spec_is_power(raw) && spec_value(raw) == 2 ==> dir_after_play(raw, is_ord) == !is_ord,
        !(spec_is_power(raw) && spec_value(raw) == 2) ==> dir_after_play(raw, is_ord) == is_ord,
        dir_after_play(raw, dir_after_play(raw, is_ord)) == is_ord,
{
}

/// One game instance's full authoritative state.
///
/// `connected` holds the ids whose outbox is still registered; the outbox
/// capabilities themselves live with the I/O layer, keyed by these ids. `lost` is a ledger of cards dropped by failed discards and by
/// leavers whose hands were not returned to the deck; it makes the card
/// count an invariant a prover can hold on to.
pub struct ServerUno {
    pub id: u32,
    pub lobby_name: String,
    pub deck: UnoDeck,
    pub active_users: Vec<UnoUser>,
    pub finished_users: Vec<(u32, String)>,
    pub bust_users: Vec<(u32, String)>,
    pub connected: Vec<u32>,
    pub last_card: UnoCard,
    pub host_user: u32,
    pub user_turn: u8,
    pub is_ord: bool,
    pub start_state: GameStartState,
    pub action: Vec<UnoAction>,
    pub lost: Ghost<int>,
}

impl ServerUno {
    /// The turn index stays inside the active list whenever anyone is
    /// active, and rests at zero in an emptied game.
    pub open spec fn turn_ok(self) -> bool {
        &&& self.active_users@.len() > 0 ==> (self.user_turn as int) < self.active_users@.len()
        &&& self.active_users@.len() == 0 ==> self.user_turn == 0
    }

    /// Every player stands in exactly one of active, finished and bust, and
    /// each connected outbox is registered once.
    pub open spec fn lists_wf(self) -> bool {
        &&& forall|i: int, j: int|
            0 <= i < self.connected@.len() && 0 <= j < self.connected@.len() && i != j
                ==> self.connected@[i] != self.connected@[j]
        &&& forall|i: int, j: int|
            0 <= i < self.active_users@.len() && 0 <= j < self.active_users@.len() && i != j
                ==> self.active_users@[i].id != self.active_users@[j].id
        &&& forall|i: int, j: int|
            0 <= i < self.finished_users@.len() && 0 <= j < self.finished_users@.len() && i != j
                ==> self.finished_users@[i].0 != self.finished_users@[j].0
        &&& forall|i: int, j: int|
            0 <= i < self.bust_users@.len() && 0 <= j < self.bust_users@.len() && i != j
                ==> self.bust_users@[i].0 != self.bust_users@[j].0
        &&& forall|i: int, j: int|
            0 <= i < self.active_users@.len() && 0 <= j < self.finished_users@.len()
                ==> self.active_users@[i].id != self.finished_users@[j].0
        &&& forall|i: int, j: int|
            0 <= i < self.active_users@.len() && 0 <= j < self.bust_users@.len()
                ==> self.active_users@[i].id != self.bust_users@[j].0
        &&& forall|i: int, j: int|
            0 <= i < self.finished_users@.len() && 0 <= j < self.bust_users@.len()
                ==> self.finished_users@[i].0 != self.bust_users@[j].0
    }

    /// Hands hold valid cards in canonical storage form, and the last-card
    /// slot holds a valid card.
    pub open spec fn cards_wf(self) -> bool {
        &&& spec_valid(self.last_card.0)
        &&& forall|i: int, j: int|
            #![auto]
            0 <= i < self.active_users@.len() && 0 <= j < self.active_users@[i].cards@.len()
                ==> spec_valid(self.active_users@[i].cards@[j].0) && crate::card::spec_canonical(
                self.active_users@[i].cards@[j].0,
            )
    }

    /// The fixed card count: deck piles, hands, the last-card slot and the
    /// loss ledger always account for the whole 108-card universe.
    pub open spec fn conserved(self) -> bool {
        self.deck.total() + hands_total(self.active_users@) + 1 + self.lost@ == 108
    }

    /// The structural invariant every public step preserves.
    pub open spec fn wf(self) -> bool {
        &&& self.deck.wf()
        &&& self.active_users@.len() <= 4
        &&& self.turn_ok()
        &&& (self.start_state == GameStartState::Active ==> self.active_users@.len() >= 2)
        &&& self.lists_wf()
        &&& self.cards_wf()
        &&& self.lost@ >= 0
        &&& self.conserved()
    }

    /// No active hand exceeds the bust threshold of 20 cards.
    pub open spec fn hands_bounded(self) -> bool {
        forall|i: int|
            #![auto]
            0 <= i < self.active_users@.len() ==> self.active_users@[i].cards@.len() <= 20
    }

    /// The well-formedness pieces every internal step carries along; the
    /// full `wf` adds the turn bound and the Active player minimum.
    pub open spec fn core_wf(self) -> bool {
        &&& self.deck.wf()
        &&& self.active_users@.len() <= 4
        &&& self.lists_wf()
        &&& self.cards_wf()
        &&& self.lost@ >= 0
        &&& self.conserved()
    }

    /// The index of the player with the given id, where one exists.
    pub open spec fn idx_of(users: Seq<UnoUser>, id: u32) -> int {
        choose|i: int| 0 <= i < users.len() && users[i].id == id
    }

    /// Whether a (handle, name) list holds an entry for the given handle.
    pub open spec fn pair_has(pairs: Seq<(u32, String)>, id: u32) -> bool {
        exists|i: int| 0 <= i < pairs.len() && pairs[i].0 == id
    }

    /// The name a (handle, name) list records for the given handle.
    pub open spec fn pair_name(pairs: Seq<(u32, String)>, id: u32) -> String {
        pairs[choose|i: int| 0 <= i < pairs.len() && pairs[i].0 == id].1
    }

    /// Ends the game once at most one player is left: any remainder moves to
    /// the finished list (their cards are dropped to the ledger), the log
    /// gains the end marker, and the phase becomes Ending.
    fn check_over(&mut self)
        requires
            old(self).core_wf(),
            old(self).turn_ok(),
        ensures
            final(self).core_wf(),
            final(self).turn_ok(),
            final(self).deck == old(self).deck,
            final(self).connected == old(self).connected,
            final(self).id == old(self).id,
            final(self).lobby_name == old(self).lobby_name,
            final(self).host_user == old(self).host_user,
            final(self).last_card == old(self).last_card,
            final(self).is_ord == old(self).is_ord,
            old(self).active_users@.len() > 1 ==> final(self).user_turn == old(self).user_turn,
            final(self).bust_users == old(self).bust_users,
            old(self).active_users@.len() > 1 ==> *final(self) == *old(self),
            old(self).active_users@.len() <= 1 ==> {
                &&& final(self).active_users@.len() == 0
                &&& final(self).start_state == GameStartState::Ending
                &&& final(self).action@ == old(self).action@.push(UnoAction::GameEnded)
                &&& final(self).finished_users@ == old(self).finished_users@
                    + old(self).active_users@.map_values(|u: UnoUser| (u.id, u.name))
            },
    {
        if self.active_users.len() <= 1 {
            if self.active_users.len() == 1 {
                let u = self.active_users.remove(0);
                proof {
                    lemma_hands_total_remove(old(self).active_users@, 0);
                }
                let ghost dropped = u.cards@.len() as int;
                self.lost = Ghost(self.lost@ + dropped);
                self.finished_users.push((u.id, u.name));
            }
            self.action.push(UnoAction::GameEnded);
            self.start_state = GameStartState::Ending;
            self.user_turn = 0;
            proof {
                assert(final(self).finished_users@ =~= old(self).finished_users@ + old(self).active_users@.map_values(|u: UnoUser| (u.id, u.name)));
            }
        }
    }

    /// The turn index after the player at `idx` left a list now `len` long.
    pub open spec fn leaver_turn(t: int, len: int, idx: int) -> int {
        if len == 0 {
            0
        } else if t == len {
            len - 1
        } else if t > idx {
            t - 1
        } else {
            t
        }
    }

    /// Repairs the turn index after the player at `user_idx` left, then
    /// checks whether the game is over.
    fn turn_from_leaver(&mut self, user_idx: usize)
        requires
            old(self).core_wf(),
            old(self).user_turn as int <= old(self).active_users@.len(),
        ensures
            final(self).core_wf(),
            final(self).turn_ok(),
            final(self).deck == old(self).deck,
            final(self).connected == old(self).connected,
            final(self).id == old(self).id,
            final(self).lobby_name == old(self).lobby_name,
            final(self).host_user == old(self).host_user,
            final(self).last_card == old(self).last_card,
            final(self).is_ord == old(self).is_ord,
            final(self).bust_users == old(self).bust_users,
            final(self).user_turn as int == Self::leaver_turn(
                old(self).user_turn as int,
                old(self).active_users@.len() as int,
                user_idx as int,
            ),
            old(self).active_users@.len() > 1 ==> {
                &&& final(self).active_users == old(self).active_users
                &&& final(self).finished_users == old(self).finished_users
                &&& final(self).action == old(self).action
                &&& final(self).start_state == old(self).start_state
                &&& final(self).lost == old(self).lost
            },
            old(self).active_users@.len() <= 1 ==> {
                &&& final(self).active_users@.len() == 0
                &&& final(self).start_state == GameStartState::Ending
                &&& final(self).action@ == old(self).action@.push(UnoAction::GameEnded)
                &&& final(self).finished_users@ == old(self).finished_users@
                    + old(self).active_users@.map_values(|u: UnoUser| (u.id, u.name))
            },
    {
        let curr_idx = self.user_turn as usize;
        if self.active_users.len() == 0 {
            self.user_turn = 0;
        } else if curr_idx == self.active_users.len() {
            self.user_turn = (curr_idx - 1) as u8;
        } else if curr_idx > user_idx {
            self.user_turn = self.user_turn - 1;
        }
        self.check_over();
    }

    /// Moves a player whose hand emptied into the finished list, logs it and
    /// repairs the turn.
    pub fn user_finished(&mut self, user_id: u32)
        requires
            old(self).wf(),
            exists|i: int|
                0 <= i < old(self).active_users@.len() && old(self).active_users@[i].id == user_id,
        ensures
            final(self).core_wf(),
            final(self).turn_ok(),
            final(self).deck == old(self).deck,
            final(self).connected == old(self).connected,
            final(self).id == old(self).id,
            final(self).lobby_name == old(self).lobby_name,
            final(self).host_user == old(self).host_user,
            final(self).last_card == old(self).last_card,
            final(self).is_ord == old(self).is_ord,
            final(self).bust_users == old(self).bust_users,
            ({
                let i = Self::idx_of(old(self).active_users@, user_id);
                let shrunk = old(self).active_users@.remove(i);
                let f1 = old(self).finished_users@.push(
                    (user_id, old(self).active_users@[i].name),
                );
                let a1 = old(self).action@.push(
                    UnoAction::UserFinished(old(self).active_users@[i].name),
                );
                if old(self).active_users@.len() > 2 {
                    &&& final(self).active_users@ == shrunk
                    &&& final(self).finished_users@ == f1
                    &&& final(self).action@ == a1
                    &&& final(self).start_state == old(self).start_state
                } else {
                    &&& final(self).active_users@.len() == 0
                    &&& final(self).start_state == GameStartState::Ending
                    &&& final(self).action@ == a1.push(UnoAction::GameEnded)
                    &&& final(self).finished_users@ == f1 + shrunk.map_values(
                        |u: UnoUser| (u.id, u.name),
                    )
                }
            }),
    {
        let ghost gi = Self::idx_of(old(self).active_users@, user_id);
        let mut user_idx: usize = 0;
        let n = self.active_users.len();
        while user_idx < n && self.active_users[user_idx].id != user_id
            invariant
                n == self.active_users@.len(),
                0 <= user_idx <= n,
                *self == *old(self),
                exists|i: int| user_idx <= i < n && self.active_users@[i].id == user_id,
                forall|i: int| 0 <= i < user_idx ==> self.active_users@[i].id != user_id,
            decreases n - user_idx,
        {
            user_idx = user_idx + 1;
        }
        proof {
            assert(user_idx < n && self.active_users@[user_idx as int].id == user_id);
            assert(gi == user_idx as int);
        }
        let rm_user = self.active_users.remove(user_idx);
        proof {
            lemma_hands_total_remove(old(self).active_users@, user_idx as int);
        }
        let ghost dropped = rm_user.cards@.len() as int;
        self.lost = Ghost(self.lost@ + dropped);
        let name_for_log = rm_user.name.clone();
        self.finished_users.push((user_id, rm_user.name));
        self.action.push(UnoAction::UserFinished(name_for_log));
        proof {
            assert forall|a: int, b: int|
                0 <= a < self.active_users@.len() && 0 <= b
                    < self.active_users@[a].cards@.len() implies #[trigger] spec_valid(
                self.active_users@[a].cards@[b].0,
            ) && crate::card::spec_canonical(self.active_users@[a].cards@[b].0) by {
                if a < user_idx as int {
                    assert(self.active_users@[a] == old(self).active_users@[a]);
                } else {
                    assert(self.active_users@[a] == old(self).active_users@[a + 1]);
                }
            }
            assert(self.cards_wf());
        }
        self.turn_from_leaver(user_idx);
    }

    /// Validates and applies one played card up to, but not including, its
    /// power effect: encoding check, wild canonicalisation, legality against
    /// the last card, turn check, hand removal, discard and logging.
    ///
    /// On rejection nothing changes and the error says exactly why; on
    /// success the remaining hand size comes back.
    #[verifier::rlimit(100)]
    pub fn submit_card(&mut self, user: u32, card: UnoCard) -> (r: Result<usize, SubmitError>)
        requires
            old(self).wf(),
            old(self).active_users@.len() >= 1,
        ensures
            final(self).core_wf(),
            final(self).turn_ok(),
            final(self).deck.main_deck == old(self).deck.main_deck,
            final(self).connected == old(self).connected,
            final(self).id == old(self).id,
            final(self).lobby_name == old(self).lobby_name,
            final(self).host_user == old(self).host_user,
            final(self).last_card == old(self).last_card,
            final(self).is_ord == old(self).is_ord,
            final(self).user_turn == old(self).user_turn,
            final(self).start_state == old(self).start_state,
            final(self).finished_users == old(self).finished_users,
            final(self).bust_users == old(self).bust_users,
            final(self).active_users@.len() == old(self).active_users@.len(),
            ({
                let raw = card.0;
                let canon = canonical_form(raw);
                let t = old(self).user_turn as int;
                let hand = old(self).active_users@[t].cards@;
                if !spec_valid(raw) {
                    r == Result::<usize, SubmitError>::Err(SubmitError::InvalidCard) && *final(self)
                        == *old(self)
                } else if !play_legal(old(self).last_card.0, raw) {
                    r == Result::<usize, SubmitError>::Err(SubmitError::CardNotAllowed)
                        && *final(self) == *old(self)
                } else if old(self).active_users@[t].id != user {
                    r == Result::<usize, SubmitError>::Err(SubmitError::NotUsersTurn)
                        && *final(self) == *old(self)
                } else if !hand.contains(UnoCard(canon)) {
                    r == Result::<usize, SubmitError>::Err(SubmitError::CardNotHeld)
                        && *final(self) == *old(self)
                } else {
                    &&& r == Result::<usize, SubmitError>::Ok((hand.len() - 1) as usize)
                    &&& exists|k: int|
                        #![auto]
                        0 <= k < hand.len() && hand[k] == UnoCard(canon)
                            && final(self).active_users@[t].cards@ == hand.remove(k)
                    &&& forall|i: int|
                        #![auto]
                        0 <= i < old(self).active_users@.len() && i != t
                            ==> final(self).active_users@[i] == old(self).active_users@[i]
                    &&& final(self).active_users@[t].id == old(self).active_users@[t].id
                    &&& final(self).active_users@[t].name == old(self).active_users@[t].name
                    &&& final(self).action@ == old(self).action@.push(
                        UnoAction::UserPlaceCard(old(self).active_users@[t].name, UnoCard(canon)),
                    )
                    &&& final(self).deck.total() + final(self).lost@ == old(self).deck.total()
                        + old(self).lost@ + 1
                    &&& (spec_discard_fits(old(self).deck.discard_set(), canon) ==> final(self).deck.discard_set() == old(self).deck.discard_set().insert(
                        discard_slot(old(self).deck.discard_set(), canon),
                    ) && final(self).lost == old(self).lost)
                    &&& (!spec_discard_fits(old(self).deck.discard_set(), canon) ==> final(self).deck.discard_set() == old(self).deck.discard_set() && final(self).lost@
                        == old(self).lost@ + 1)
                }
            }),
    {
        if !card.validate() {
            return Result::Err(SubmitError::InvalidCard);
        }
        let (is_power, _, value) = card.decode();
        let c = if is_power && (value == 3 || value == 4) {
            UnoCard::encode(true, UnoCardColour::Red, value)
        } else {
            card
        };
        proof {
            crate::card::lemma_black_characterisation(c.0);
            assert(c.0 == canonical_form(card.0));
        }
        let (_, colour, _) = c.decode();
        let (_, curr_colour, curr_value) = self.last_card.decode();
        if !c.is_black() && !(curr_colour == colour) && curr_value != value {
            return Result::Err(SubmitError::CardNotAllowed);
        }
        let t = self.user_turn as usize;
        if self.active_users[t].id != user {
            return Result::Err(SubmitError::NotUsersTurn);
        }
        let ghost hand = self.active_users@[t as int].cards@;
        let m = self.active_users[t].cards.len();
        let mut k: usize = 0;
        while k < m && !(self.active_users[t].cards[k] == c)
            invariant
                *self == *old(self),
                t == old(self).user_turn as usize,
                t < self.active_users@.len(),
                m == self.active_users@[t as int].cards@.len(),
                0 <= k <= m,
                forall|j: int| 0 <= j < k ==> self.active_users@[t as int].cards@[j] != c,
            decreases m - k,
        {
            k = k + 1;
        }
        if k == m {
            proof {
                assert(!hand.contains(UnoCard(canonical_form(card.0))));
            }
            return Result::Err(SubmitError::CardNotHeld);
        }
        proof {
            assert(hand[k as int] == UnoCard(canonical_form(card.0)));
            assert(hand.contains(UnoCard(canonical_form(card.0))));
        }
        let _removed = self.active_users[t].cards.remove(k);
        proof {
            lemma_hands_total_update(
                old(self).active_users@,
                t as int,
                self.active_users@[t as int],
            );
        }
        let placed = self.deck.discard(c);
        if !placed {
            self.lost = Ghost(self.lost@ + 1);
        }
        let name_for_log = self.active_users[t].name.clone();
        self.action.push(UnoAction::UserPlaceCard(name_for_log, c));
        let left = self.active_users[t].cards.len();
        proof {
            assert forall|a: int, b: int|
                0 <= a < self.active_users@.len() && 0 <= b < self.active_users@.len() && a != b
                    implies self.active_users@[a].id != self.active_users@[b].id by {
                assert(self.active_users@[a].id == old(self).active_users@[a].id);
                assert(self.active_users@[b].id == old(self).active_users@[b].id);
            }
            assert(self.lists_wf());
            assert forall|a: int, b: int|
                0 <= a < self.active_users@.len() && 0 <= b
                    < self.active_users@[a].cards@.len() implies #[trigger] spec_valid(
                self.active_users@[a].cards@[b].0,
            ) && crate::card::spec_canonical(self.active_users@[a].cards@[b].0) by {
                if a == t as int {
                    assert(self.active_users@[a].cards@ == hand.remove(k as int));
                    if b < k as int {
                        assert(self.active_users@[a].cards@[b] == hand[b]);
                        assert(hand[b] == old(self).active_users@[a].cards@[b]);
                    } else {
                        assert(self.active_users@[a].cards@[b] == hand[b + 1]);
                        assert(hand[b + 1] == old(self).active_users@[a].cards@[b + 1]);
                    }
                } else {
                    assert(self.active_users@[a] == old(self).active_users@[a]);
                }
            }
            assert(self.cards_wf());
        }
        Result::Ok(left)
    }

    /// The last card as broadcasts show it: a sentinel Red zero outside the
    /// Active phase.
    pub open spec fn masked_last_card(self) -> UnoCard {
        match self.start_state {
            GameStartState::Active => self.last_card,
            _ => UnoCard(spec_encode(false, UnoCardColour::Red, 0)),
        }
    }

    /// Whether a snapshot describes this game state, carrying the given
    /// action log.
    pub open spec fn snapshot_matches(self, actions: Seq<UnoAction>, s: UnoClientGameState) -> bool {
        &&& self.snapshot_describes(s)
        &&& s.action@ == actions
    }

    /// Whether a snapshot describes this game state, whatever action log it
    /// carries.
    pub open spec fn snapshot_describes(self, s: UnoClientGameState) -> bool {
        &&& s.game_state == self.start_state
        &&& s.finished_users@ == self.finished_users@
        &&& s.bust_users@ == self.bust_users@
        &&& s.active_users@.len() == self.active_users@.len()
        &&& forall|i: int|
            #![auto]
            0 <= i < self.active_users@.len() ==> s.active_users@[i].id == self.active_users@[i].id
                && s.active_users@[i].name == self.active_users@[i].name
                && s.active_users@[i].card_count as int == self.active_users@[i].cards@.len()
        &&& s.host_user == self.host_user
        &&& s.user_turn == self.user_turn
        &&& s.is_ord == self.is_ord
        &&& s.last_card == self.masked_last_card()
    }

    /// The hand a broadcast shows the given user: their own cards during the
    /// Active phase, nothing otherwise.
    pub open spec fn visible_hand(self, uid: u32) -> Seq<UnoCard> {
        if self.start_state == GameStartState::Active && (exists|i: int|
            0 <= i < self.active_users@.len() && self.active_users@[i].id == uid) {
            self.active_users@[Self::idx_of(self.active_users@, uid)].cards@
        } else {
            Seq::empty()
        }
    }

    /// The public per-player summaries of the active list.
    fn build_active_summaries(&self) -> (r: Vec<UnoActiveUser>)
        requires
            self.core_wf(),
        ensures
            r@.len() == self.active_users@.len(),
            forall|i: int|
                #![auto]
                0 <= i < self.active_users@.len() ==> r@[i].id == self.active_users@[i].id
                    && r@[i].name == self.active_users@[i].name && r@[i].card_count as int
                    == self.active_users@[i].cards@.len(),
    {
        let mut r: Vec<UnoActiveUser> = Vec::new();
        let mut k: usize = 0;
        while k < self.active_users.len()
            invariant
                self.core_wf(),
                k <= self.active_users@.len(),
                r@.len() == k,
                forall|i: int|
                    #![auto]
                    0 <= i < k ==> r@[i].id == self.active_users@[i].id && r@[i].name
                        == self.active_users@[i].name && r@[i].card_count as int
                        == self.active_users@[i].cards@.len(),
            decreases self.active_users@.len() - k,
        {
            proof {
                lemma_hands_total_bounds(self.active_users@, k as int);
            }
            let count = self.active_users[k].cards.len() as u32;
            let name = self.active_users[k].name.clone();
            let id = self.active_users[k].id;
            r.push(UnoActiveUser { id, name, card_count: count });
            k = k + 1;
        }
        r
    }

    /// Builds one per-player broadcast for every connected user and drains
    /// the action log. Each snapshot describes the state as it stands; the
    /// recipient's private hand rides along only during the Active phase.
    pub fn update_user_state(&mut self) -> (effects: Vec<GameEffect>)
        requires
            old(self).core_wf(),
        ensures
            final(self).core_wf(),
            final(self).action@ == Seq::<UnoAction>::empty(),
            final(self).id == old(self).id,
            final(self).lobby_name == old(self).lobby_name,
            final(self).deck == old(self).deck,
            final(self).active_users == old(self).active_users,
            final(self).finished_users == old(self).finished_users,
            final(self).bust_users == old(self).bust_users,
            final(self).connected == old(self).connected,
            final(self).last_card == old(self).last_card,
            final(self).host_user == old(self).host_user,
            final(self).user_turn == old(self).user_turn,
            final(self).is_ord == old(self).is_ord,
            final(self).start_state == old(self).start_state,
            final(self).lost == old(self).lost,
            effects@.len() == old(self).connected@.len(),
            forall|k: int|
                0 <= k < effects@.len() ==> ((#[trigger] effects@[k]) matches GameEffect::State(uid, cmd)
                    && uid == old(self).connected@[k] && (cmd matches ServerUnoCommand::GameState(
                    cards,
                    st,
                ) && cards@ == old(self).visible_hand(old(self).connected@[k]) && old(self).snapshot_matches(old(self).action@, st))),
    {
        let actions0 = clone_actions(&self.action);
        self.action = Vec::new();
        let mut effects: Vec<GameEffect> = Vec::new();
        let mut k: usize = 0;
        while k < self.connected.len()
            invariant
                *self == (ServerUno { action: self.action, ..*old(self) }),
                self.action@ == Seq::<UnoAction>::empty(),
                self.core_wf(),
                actions0@ == old(self).action@,
                k <= self.connected@.len(),
                effects@.len() == k,
                forall|j: int|
                    0 <= j < k ==> ((#[trigger] effects@[j]) matches GameEffect::State(uid, cmd) && uid == old(self).connected@[j] && (cmd matches ServerUnoCommand::GameState(cards, st)
                        && cards@ == old(self).visible_hand(old(self).connected@[j]) && old(self).snapshot_matches(old(self).action@, st))),
            decreases self.connected@.len() - k,
        {
            let uid = self.connected[k];
            let is_active_phase = match self.start_state {
                GameStartState::Active => true,
                _ => false,
            };
            let mut cards: Vec<UnoCard> = Vec::new();
            if is_active_phase {
                let n = self.active_users.len();
                let mut i: usize = 0;
                while i < n && self.active_users[i].id != uid
                    invariant
                        n == self.active_users@.len(),
                        0 <= i <= n,
                        forall|j: int| 0 <= j < i ==> self.active_users@[j].id != uid,
                    decreases n - i,
                {
                    i = i + 1;
                }
                if i < n {
                    proof {
                        assert(self.active_users@[i as int].id == uid);
                        assert(Self::idx_of(self.active_users@, uid) == i as int);
                    }
                    cards = copy_cards(&self.active_users[i].cards);
                } else {
                    proof {
                        assert(forall|j: int|
                            0 <= j < self.active_users@.len() ==> self.active_users@[j].id != uid);
                    }
                }
            }
            let last = match self.start_state {
                GameStartState::Active => self.last_card,
                _ => UnoCard::encode(false, UnoCardColour::Red, 0),
            };
            let st = UnoClientGameState {
                game_state: self.start_state,
                action: clone_actions(&actions0),
                finished_users: clone_pairs(&self.finished_users),
                bust_users: clone_pairs(&self.bust_users),
                active_users: self.build_active_summaries(),
                host_user: self.host_user,
                user_turn: self.user_turn,
                is_ord: self.is_ord,
                last_card: last,
            };
            proof {
                assert(old(self).snapshot_matches(old(self).action@, st));
                assert(cards@ == old(self).visible_hand(uid));
            }
            effects.push(GameEffect::State(uid, ServerUnoCommand::GameState(cards, st)));
            k = k + 1;
        }
        effects
    }

    /// The registry refresh this game reports to the hub.
    pub fn service_update_state(&self) -> (m: ServerIntraMessage)
        requires
            self.active_users@.len() <= 4,
        ensures
            (m matches ServerIntraMessage::UpdateGameServer(gid, upd) && gid == self.id
                && upd.name == self.lobby_name && upd.player_count as int
                == self.active_users@.len() && upd.game_type == GameType::Uno && upd.start_state
                == self.start_state),
    {
        ServerIntraMessage::UpdateGameServer(
            self.id,
            GameServerStateUpdate {
                name: self.lobby_name.clone(),
                player_count: self.active_users.len() as u32,
                game_type: GameType::Uno,
                start_state: self.start_state,
            },
        )
    }

    /// Whether the actor should stop: nobody is connected any more.
    pub fn should_exit(&self) -> (r: bool)
        ensures
            r == (self.connected@.len() == 0),
    {
        self.connected.len() == 0
    }

    /// Whether this id belongs to an active player.
    pub open spec fn player_in_active(self, user_id: u32) -> bool {
        exists|i: int| 0 <= i < self.active_users@.len() && self.active_users@[i].id == user_id
    }

    /// Whether a draw request would be taken: the game is Active and it is
    /// the requesting player's turn.
    pub open spec fn pickup_accepted(self, user_id: u32) -> bool {
        &&& self.start_state == GameStartState::Active
        &&& self.player_in_active(user_id)
        &&& self.active_users@[self.user_turn as int].id == user_id
    }

    /// Whether a played card would be taken: the game is Active, the card is
    /// well formed and legal on the last card, it is the player's turn, and
    /// their hand holds the card in canonical form.
    pub open spec fn play_accepted(self, user_id: u32, card: UnoCard) -> bool {
        &&& self.start_state == GameStartState::Active
        &&& self.player_in_active(user_id)
        &&& spec_valid(card.0)
        &&& play_legal(self.last_card.0, card.0)
        &&& self.active_users@[self.user_turn as int].id == user_id
        &&& self.active_users@[self.user_turn as int].cards@.contains(
            UnoCard(canonical_form(card.0)),
        )
    }

    /// Carries out one decoded player action.
    ///
    /// A draw adds one card to the requester's hand and passes the turn; a
    /// play runs the submit and commit steps, retires an emptied hand,
    /// evicts busted hands and broadcasts. A request out of phase, out of
    /// turn or otherwise rejected changes nothing and answers nothing; the
    /// next broadcast is the implicit refusal.
    #[verifier::loop_isolation(false)]
    #[verifier::rlimit(100)]
    #[verifier::spinoff_prover]
    pub fn handle_action(&mut self, user_id: u32, action: UnoClientAction, draws: &Vec<u8>) -> (
        effects: Vec<GameEffect>)
        requires
            old(self).wf(),
            draws@.len() >= 5,
        ensures
            final(self).wf(),
            ({
                match action {
                    UnoClientAction::PickupCard => {
                        if !old(self).pickup_accepted(user_id) {
                            *final(self) == *old(self) && effects@.len() == 0
                        } else {
                            let t = old(self).user_turn as int;
                            let n = old(self).active_users@.len() as int;
                            let got = if old(self).deck.total() >= 1 {
                                1int
                            } else {
                                0int
                            };
                            &&& final(self).active_users@.len() == n
                            &&& final(self).active_users@[t].cards@.len() == old(self).active_users@[t].cards@.len() + got
                            &&& final(self).user_turn as int == next_turn_idx(
                                old(self).is_ord,
                                t,
                                n,
                            )
                            &&& final(self).is_ord == old(self).is_ord
                            &&& final(self).last_card == old(self).last_card
                            &&& final(self).start_state == old(self).start_state
                            &&& final(self).connected == old(self).connected
                            &&& final(self).finished_users == old(self).finished_users
                            &&& final(self).bust_users == old(self).bust_users
                            &&& final(self).action@ == Seq::<UnoAction>::empty()
                            &&& effects@.len() == final(self).connected@.len()
                            &&& forall|k: int|
                                0 <= k < effects@.len() ==> ((#[trigger] effects@[k])
                                    matches GameEffect::State(uid, cmd) && uid == final(self).connected@[k] && (cmd matches ServerUnoCommand::GameState(
                                    cards,
                                    st,
                                ) && cards@ == final(self).visible_hand(uid) && final(self).snapshot_matches(
                                    old(self).action@.push(
                                        UnoAction::UserPickup(
                                            old(self).active_users@[t].name,
                                            1,
                                        ),
                                    ),
                                    st,
                                )))
                        }
                    },
                    UnoClientAction::PlayCard(card) => {
                        if !old(self).play_accepted(user_id, card) {
                            *final(self) == *old(self) && effects@.len() == 0
                        } else {
                            &&& play_legal(old(self).last_card.0, card.0)
                            &&& final(self).hands_bounded()
                            &&& final(self).last_card == card
                            &&& final(self).is_ord == dir_after_play(card.0, old(self).is_ord)
                            &&& final(self).connected == old(self).connected
                            &&& final(self).action@ == Seq::<UnoAction>::empty()
                            &&& effects@.len() == final(self).connected@.len()
                            &&& forall|k: int|
                                0 <= k < effects@.len() ==> ((#[trigger] effects@[k])
                                    matches GameEffect::State(uid, cmd) && uid == final(self).connected@[k] && (cmd matches ServerUnoCommand::GameState(
                                    cards,
                                    st,
                                ) && cards@ == final(self).visible_hand(uid) && final(self).snapshot_describes(st)))
                        }
                    },
                }
            }),
    {
        let is_active_phase = match self.start_state {
            GameStartState::Active => true,
            _ => false,
        };
        match action {
            UnoClientAction::PickupCard => {
                if !is_active_phase {
                    return Vec::new();
                }
                let n = self.active_users.len();
                let mut user_idx: usize = 0;
                while user_idx < n && self.active_users[user_idx].id != user_id
                    invariant
                        user_idx <= n,
                        forall|j: int| 0 <= j < user_idx ==> self.active_users@[j].id != user_id,
                    decreases n - user_idx,
                {
                    user_idx = user_idx + 1;
                }
                if user_idx == n {
                    return Vec::new();
                }
                if self.user_turn as usize != user_idx {
                    proof {
                        assert(!old(self).pickup_accepted(user_id));
                    }
                    return Vec::new();
                }
                self.draw_to_current(1, draws);
                let t = self.user_turn as usize;
                let name_for_log = self.active_users[t].name.clone();
                self.action.push(UnoAction::UserPickup(name_for_log, 1));
                self.push_turn();
                let effects = self.update_user_state();
                effects
            },
            UnoClientAction::PlayCard(card) => {
                if !is_active_phase {
                    return Vec::new();
                }
                let n = self.active_users.len();
                let mut user_idx: usize = 0;
                while user_idx < n && self.active_users[user_idx].id != user_id
                    invariant
                        user_idx <= n,
                        forall|j: int| 0 <= j < user_idx ==> self.active_users@[j].id != user_id,
                    decreases n - user_idx,
                {
                    user_idx = user_idx + 1;
                }
                if user_idx == n {
                    return Vec::new();
                }
                match self.submit_card(user_id, card) {
                    Result::Err(_) => Vec::new(),
                    Result::Ok(cards_left) => {
                        self.commit_card(card, draws);
                        if cards_left == 0 {
                            self.user_finished(user_id);
                        }
                        self.check_user_bust();
                        let effects = self.update_user_state();
                        effects
                    },
                }
            },
        }
    }

    /// Whether a join request for this id would be taken: the game must be
    /// in Setup with a free seat, the deck must still cover a fresh hand,
    /// and the id must be new to the game.
    pub open spec fn join_allowed(self, user_id: u32) -> bool {
        &&& self.start_state == GameStartState::Setup
        &&& self.active_users@.len() < 4
        &&& self.deck.main_set().len() >= 10
        &&& forall|i: int|
            0 <= i < self.active_users@.len() ==> self.active_users@[i].id != user_id
        &&& forall|i: int|
            0 <= i < self.finished_users@.len() ==> self.finished_users@[i].0 != user_id
        &&& forall|i: int| 0 <= i < self.bust_users@.len() ==> self.bust_users@[i].0 != user_id
        &&& forall|i: int| 0 <= i < self.connected@.len() ==> self.connected@[i] != user_id
    }

    /// Whether the given id is unknown to every list of this game.
    fn id_is_fresh(&self, user_id: u32) -> (r: bool)
        ensures
            r == ((forall|i: int|
                0 <= i < self.active_users@.len() ==> self.active_users@[i].id != user_id) && (
            forall|i: int|
                0 <= i < self.finished_users@.len() ==> self.finished_users@[i].0 != user_id) && (
            forall|i: int| 0 <= i < self.bust_users@.len() ==> self.bust_users@[i].0 != user_id)
                && (forall|i: int|
                0 <= i < self.connected@.len() ==> self.connected@[i] != user_id)),
    {
        let mut i: usize = 0;
        while i < self.active_users.len()
            invariant
                i <= self.active_users@.len(),
                forall|j: int| 0 <= j < i ==> self.active_users@[j].id != user_id,
            decreases self.active_users@.len() - i,
        {
            if self.active_users[i].id == user_id {
                return false;
            }
            i = i + 1;
        }
        let mut i: usize = 0;
        while i < self.finished_users.len()
            invariant
                i <= self.finished_users@.len(),
                forall|j: int| 0 <= j < i ==> self.finished_users@[j].0 != user_id,
            decreases self.finished_users@.len() - i,
        {
            if self.finished_users[i].0 == user_id {
                return false;
            }
            i = i + 1;
        }
        let mut i: usize = 0;
        while i < self.bust_users.len()
            invariant
                i <= self.bust_users@.len(),
                forall|j: int| 0 <= j < i ==> self.bust_users@[j].0 != user_id,
            decreases self.bust_users@.len() - i,
        {
            if self.bust_users[i].0 == user_id {
                return false;
            }
            i = i + 1;
        }
        let mut i: usize = 0;
        while i < self.connected.len()
            invariant
                i <= self.connected@.len(),
                forall|j: int| 0 <= j < i ==> self.connected@[j] != user_id,
            decreases self.connected@.len() - i,
        {
            if self.connected[i] == user_id {
                return false;
            }
            i = i + 1;
        }
        true
    }

    /// Seats a joining player: deals them ten cards, registers their outbox,
    /// logs the join, broadcasts, and reports the join to the hub. A full
    /// table, a game past Setup, a drained deck or a known id changes
    /// nothing.
    #[verifier::loop_isolation(false)]
    pub fn handle_join(&mut self, user_id: u32, user: PlayerState, draws: &Vec<u8>) -> (effects:
        Vec<GameEffect>)
        requires
            old(self).wf(),
            draws@.len() == 10,
        ensures
            final(self).wf(),
            !old(self).join_allowed(user_id) ==> *final(self) == *old(self) && effects@.len() == 0,
            old(self).join_allowed(user_id) ==> {
                &&& final(self).active_users@.len() == old(self).active_users@.len() + 1
                &&& final(self).active_users@.last().id == user_id
                &&& final(self).active_users@.last().name == user.name
                &&& final(self).active_users@.last().cards@.len() == 10
                &&& forall|i: int|
                    #![auto]
                    0 <= i < old(self).active_users@.len() ==> final(self).active_users@[i] == old(self).active_users@[i]
                &&& final(self).connected@ == old(self).connected@.push(user_id)
                &&& final(self).start_state == GameStartState::Setup
                &&& final(self).host_user == old(self).host_user
                &&& final(self).user_turn == old(self).user_turn
                &&& final(self).is_ord == old(self).is_ord
                &&& final(self).last_card == old(self).last_card
                &&& final(self).finished_users == old(self).finished_users
                &&& final(self).bust_users == old(self).bust_users
                &&& final(self).action@ == Seq::<UnoAction>::empty()
                &&& final(self).deck.main_set().len() == old(self).deck.main_set().len() - 10
                &&& effects@.len() == 3 + final(self).connected@.len()
                &&& (effects@[0] matches GameEffect::Message(uid, m) && uid == user_id && (
                m matches ServerMessage::JoinedGame(nm, gt) && nm == old(self).lobby_name && gt
                    == GameType::Uno))
                &&& forall|k: int|
                    1 <= k < 1 + final(self).connected@.len() ==> ((#[trigger] effects@[k])
                        matches GameEffect::State(uid, cmd) && uid == final(self).connected@[k - 1]
                        && (cmd matches ServerUnoCommand::GameState(cards, st) && cards@ == final(self).visible_hand(uid) && final(self).snapshot_matches(
                        old(self).action@.push(UnoAction::UserJoined(user.name)),
                        st,
                    )))
                &&& effects@[effects@.len() - 2] == GameEffect::Service(
                    ServerIntraMessage::UserJoinedGame(user_id, old(self).id),
                )
                &&& (effects@.last() matches GameEffect::Service(m2) && (
                m2 matches ServerIntraMessage::UpdateGameServer(gid, upd) && gid == old(self).id
                    && upd.player_count as int == old(self).active_users@.len() + 1
                    && upd.start_state == GameStartState::Setup))
            },
    {
        let n = self.active_users.len();
        let is_setup = match self.start_state {
            GameStartState::Setup => true,
            _ => false,
        };
        if n >= 4 || !is_setup || self.deck.main_count() < 10 || !self.id_is_fresh(user_id) {
            return Vec::new();
        }
        let joiner_name = user.name.clone();
        let joiner = UnoUser::new_joiner(&mut self.deck, user_id, user, draws);
        proof {
            lemma_hands_total_push(old(self).active_users@, joiner);
        }
        let mut effects: Vec<GameEffect> = Vec::new();
        effects.push(
            GameEffect::Message(
                user_id,
                ServerMessage::JoinedGame(self.lobby_name.clone(), GameType::Uno),
            ),
        );
        self.connected.push(user_id);
        self.action.push(UnoAction::UserJoined(joiner_name));
        self.active_users.push(joiner);
        let ghost mid = *self;
        let mut casts = self.update_user_state();
        let ghost casts0 = casts@;
        let cl = casts.len();
        proof {
            assert(cl == casts0.len());
        }
        let mut k: usize = 0;
        while casts.len() > 0
            invariant
                casts@ == casts0.skip(k as int),
                k <= casts0.len(),
                casts0.len() <= usize::MAX as int,
                effects@.len() == 1 + k,
                effects@[0] == (GameEffect::Message(
                    user_id,
                    ServerMessage::JoinedGame(mid.lobby_name, GameType::Uno),
                )),
                forall|j: int| #![auto] 1 <= j < effects@.len() ==> effects@[j] == casts0[j - 1],
            decreases casts@.len(),
        {
            let e = casts.remove(0);
            proof {
                assert(casts@ =~= casts0.skip(k as int + 1));
            }
            effects.push(e);
            k = k + 1;
        }
        effects.push(
            GameEffect::Service(ServerIntraMessage::UserJoinedGame(user_id, self.id)),
        );
        effects.push(GameEffect::Service(self.service_update_state()));
        proof {
            assert forall|j: int| 1 <= j < 1 + self.connected@.len() implies ((
            #[trigger] effects@[j]) matches GameEffect::State(uid, cmd) && uid
                == self.connected@[j - 1] && (cmd matches ServerUnoCommand::GameState(cards, st)
                && cards@ == self.visible_hand(uid) && self.snapshot_matches(
                old(self).action@.push(UnoAction::UserJoined(user.name)),
                st,
            ))) by {
                assert(effects@[j] == casts0[j - 1]);
            }
        }
        effects
    }

    /// The standing invariants of a well-formed game, spelled out: the
    /// deck piles, the active hands, the last-card slot and the loss ledger
    /// always total the fixed 108-card universe; the turn index stays inside
    /// the active list; and every player stands in exactly one of the
    /// active, finished and bust lists. Every public step of the game
    /// returns a well-formed state, so these hold in every reachable one.
    pub proof fn lemma_game_invariants(self)
        requires
            self.wf(),
        ensures
            self.deck.total() + hands_total(self.active_users@) + 1 + self.lost@ == 108,
            self.active_users@.len() > 0 ==> (self.user_turn as int) < self.active_users@.len(),
            self.lists_wf(),
    {
    }

    /// Broadcasting after no state change is safe: once the log is drained,
    /// any two snapshots of the same state describe it identically, entry
    /// for entry.
    pub proof fn lemma_rebroadcast_stable(
        self,
        s1: UnoClientGameState,
        s2: UnoClientGameState,
    )
        requires
            self.snapshot_matches(Seq::<UnoAction>::empty(), s1),
            self.snapshot_matches(Seq::<UnoAction>::empty(), s2),
        ensures
            s1.game_state == s2.game_state,
            s1.action@ == s2.action@,
            s1.finished_users@ == s2.finished_users@,
            s1.bust_users@ == s2.bust_users@,
            s1.active_users@.len() == s2.active_users@.len(),
            forall|i: int|
                #![auto]
                0 <= i < s1.active_users@.len() ==> s1.active_users@[i].id == s2.active_users@[i].id
                    && s1.active_users@[i].name == s2.active_users@[i].name
                    && s1.active_users@[i].card_count == s2.active_users@[i].card_count,
            s1.host_user == s2.host_user,
            s1.user_turn == s2.user_turn,
            s1.is_ord == s2.is_ord,
            s1.last_card == s2.last_card,
    {
    }

    /// Builds a fresh game: a full deck, an initial top card drawn at the
    /// first slot, the host seated with a ten-card hand dealt at the next
    /// ten, and the opening broadcast already prepared. The host hears
    /// about the game they joined, then receives the first snapshot.
    #[verifier::loop_isolation(false)]
    pub fn create(
        game_id: u32,
        host_id: u32,
        host: &PlayerState,
        lobby_name: String,
        draws: &Vec<u8>,
    ) -> (r: (ServerUno, Vec<GameEffect>))
        requires
            draws@.len() >= 11,
        ensures
            r.0.wf(),
            r.0.hands_bounded(),
            r.0.id == game_id,
            r.0.host_user == host_id,
            r.0.lobby_name == lobby_name,
            r.0.start_state == GameStartState::Setup,
            r.0.active_users@.len() == 1,
            r.0.active_users@[0].id == host_id,
            r.0.active_users@[0].name == host.name,
            r.0.active_users@[0].cards@.len() == 10,
            r.0.connected@ == seq![host_id],
            r.0.user_turn == 0,
            r.0.is_ord == true,
            r.0.action@ == Seq::<UnoAction>::empty(),
            r.0.deck.main_set().len() == 97,
            r.0.lost@ == 0,
            r.1@.len() == 2,
            (r.1@[0] matches GameEffect::Message(uid, m) && uid == host_id && (
            m matches ServerMessage::JoinedGame(nm, gt) && nm == lobby_name && gt
                == GameType::Uno)),
            (r.1@[1] matches GameEffect::State(uid, cmd) && uid == host_id && (
            cmd matches ServerUnoCommand::GameState(cards, st) && cards@ == Seq::<
                UnoCard,
            >::empty() && r.0.snapshot_matches(seq![UnoAction::Init], st))),
    {
        let mut deck = UnoDeck::new();
        let last_card = match deck.pickup(draws[0]) {
            Option::Some(c) => c,
            Option::None => UnoCard::encode(false, UnoCardColour::Red, 0),
        };
        let mut hand_draws: Vec<u8> = Vec::new();
        let mut k: usize = 1;
        while k < 11
            invariant
                1 <= k <= 11,
                draws@.len() >= 11,
                hand_draws@.len() == k - 1,
            decreases 11 - k,
        {
            hand_draws.push(draws[k]);
            k = k + 1;
        }
        let host_name = host.name.clone();
        let host_player = UnoUser::new_joiner(
            &mut deck,
            host_id,
            PlayerState { name: host_name, addr: host.addr, game_id: host.game_id },
            &hand_draws,
        );
        proof {
            lemma_hands_total_push(Seq::<UnoUser>::empty(), host_player);
        }
        let mut active_users: Vec<UnoUser> = Vec::new();
        active_users.push(host_player);
        let mut connected: Vec<u32> = Vec::new();
        connected.push(host_id);
        let mut action: Vec<UnoAction> = Vec::new();
        action.push(UnoAction::Init);
        let mut server = ServerUno {
            id: game_id,
            lobby_name: lobby_name.clone(),
            deck,
            active_users,
            finished_users: Vec::new(),
            bust_users: Vec::new(),
            connected,
            last_card,
            host_user: host_id,
            user_turn: 0,
            is_ord: true,
            start_state: GameStartState::Setup,
            action,
            lost: Ghost(0int),
        };
        let mut effects: Vec<GameEffect> = Vec::new();
        effects.push(
            GameEffect::Message(host_id, ServerMessage::JoinedGame(lobby_name, GameType::Uno)),
        );
        let mut casts = server.update_user_state();
        proof {
            assert(casts@.len() == 1);
        }
        let first = casts.remove(0);
        effects.push(first);
        (server, effects)
    }

    /// Unregisters a user's outbox, leaving the rest alone.
    fn remove_connected(&mut self, user_id: u32)
        requires
            forall|i: int, j: int|
                0 <= i < old(self).connected@.len() && 0 <= j < old(self).connected@.len() && i
                    != j ==> old(self).connected@[i] != old(self).connected@[j],
        ensures
            *final(self) == (ServerUno { connected: final(self).connected, ..*old(self) }),
            !final(self).connected@.contains(user_id),
            old(self).connected@.contains(user_id) ==> exists|i: int|
                #![auto]
                0 <= i < old(self).connected@.len() && old(self).connected@[i] == user_id && final(self).connected@ == old(self).connected@.remove(i),
            !old(self).connected@.contains(user_id) ==> *final(self) == *old(self),
            forall|i: int, j: int|
                0 <= i < final(self).connected@.len() && 0 <= j < final(self).connected@.len() && i
                    != j ==> final(self).connected@[i] != final(self).connected@[j],
    {
        let n = self.connected.len();
        let mut i: usize = 0;
        while i < n && self.connected[i] != user_id
            invariant
                n == self.connected@.len(),
                i <= n,
                *self == *old(self),
                forall|j: int| 0 <= j < i ==> self.connected@[j] != user_id,
            decreases n - i,
        {
            i = i + 1;
        }
        if i < n {
            let _ = self.connected.remove(i);
            proof {
                assert forall|q: int|
                    0 <= q < self.connected@.len() implies self.connected@[q] != user_id by {
                    if q < i as int {
                        assert(self.connected@[q] == old(self).connected@[q]);
                    } else {
                        assert(self.connected@[q] == old(self).connected@[q + 1]);
                    }
                }
            }
        } else {
            proof {
                assert(!old(self).connected@.contains(user_id));
            }
        }
    }

    /// Removes a leaving user: an active leaver past Setup is busted, a
    /// finished or bust leaver is only logged. The leaver's outbox goes
    /// away, the game ends if at most one player remains, and the hub is
    /// told.
    #[verifier::loop_isolation(false)]
    pub fn handle_leave(&mut self, user_id: u32) -> (effects: Vec<GameEffect>)
        requires
            old(self).wf(),
        ensures
            final(self).wf(),
            !final(self).connected@.contains(user_id),
            final(self).deck.main_deck == old(self).deck.main_deck,
            final(self).last_card == old(self).last_card,
            final(self).is_ord == old(self).is_ord,
            final(self).host_user == old(self).host_user,
            old(self).player_in_active(user_id) ==> {
                let i = Self::idx_of(old(self).active_users@, user_id);
                let name = old(self).active_users@[i].name;
                &&& (forall|q: int|
                    0 <= q < final(self).active_users@.len() ==> final(self).active_users@[q].id
                        != user_id)
                &&& (old(self).start_state != GameStartState::Setup ==> final(self).bust_users@
                    == old(self).bust_users@.push((user_id, name)))
                &&& (old(self).start_state == GameStartState::Setup ==> final(self).bust_users@
                    == old(self).bust_users@)
                &&& (old(self).active_users@.len() > 2 ==> final(self).active_users@ == old(self).active_users@.remove(i) && final(self).start_state == old(self).start_state
                    && final(self).finished_users == old(self).finished_users && final(self).action@ == old(self).action@.push(UnoAction::UserLeft(name)))
                &&& (old(self).active_users@.len() <= 2 ==> final(self).active_users@.len() == 0
                    && final(self).start_state == GameStartState::Ending
                    && final(self).finished_users@ == old(self).finished_users@ + old(self).active_users@.remove(i).map_values(|u: UnoUser| (u.id, u.name))
                    && final(self).action@ == old(self).action@.push(UnoAction::UserLeft(name)).push(UnoAction::GameEnded))
            },
            !old(self).player_in_active(user_id) ==> {
                let base = if Self::pair_has(old(self).finished_users@, user_id) {
                    old(self).action@.push(UnoAction::UserLeft(Self::pair_name(old(self).finished_users@, user_id)))
                } else if Self::pair_has(old(self).bust_users@, user_id) {
                    old(self).action@.push(UnoAction::UserLeft(Self::pair_name(old(self).bust_users@, user_id)))
                } else {
                    old(self).action@
                };
                &&& final(self).bust_users@ == old(self).bust_users@
                &&& (old(self).active_users@.len() > 1 ==> final(self).active_users@ == old(self).active_users@ && final(self).start_state == old(self).start_state
                    && final(self).finished_users == old(self).finished_users
                    && final(self).action@ == base)
                &&& (old(self).active_users@.len() <= 1 ==> final(self).active_users@.len() == 0
                    && final(self).start_state == GameStartState::Ending
                    && final(self).finished_users@ == old(self).finished_users@ + old(self).active_users@.map_values(|u: UnoUser| (u.id, u.name))
                    && final(self).action@ == base.push(UnoAction::GameEnded))
            },
            effects@.len() == 2,
            effects@[0] == GameEffect::Service(
                ServerIntraMessage::UserLeftGame(user_id, old(self).id),
            ),
            (effects@[1] matches GameEffect::Service(m) && (
            m matches ServerIntraMessage::UpdateGameServer(gid, upd) && gid == old(self).id
                && upd.player_count as int == final(self).active_users@.len() && upd.start_state
                == final(self).start_state)),
    {
        let n = self.active_users.len();
        let mut user_idx: usize = 0;
        while user_idx < n && self.active_users[user_idx].id != user_id
            invariant
                user_idx <= n,
                forall|j: int| 0 <= j < user_idx ==> self.active_users@[j].id != user_id,
            decreases n - user_idx,
        {
            user_idx = user_idx + 1;
        }
        if user_idx < n {
            proof {
                assert(Self::idx_of(old(self).active_users@, user_id) == user_idx as int);
            }
            let u = self.active_users.remove(user_idx);
            proof {
                lemma_hands_total_remove(old(self).active_users@, user_idx as int);
                assert forall|a: int, b: int|
                    0 <= a < self.active_users@.len() && 0 <= b
                        < self.active_users@[a].cards@.len() implies #[trigger] spec_valid(
                    self.active_users@[a].cards@[b].0,
                ) && crate::card::spec_canonical(self.active_users@[a].cards@[b].0) by {
                    if a < user_idx as int {
                        assert(self.active_users@[a] == old(self).active_users@[a]);
                    } else {
                        assert(self.active_users@[a] == old(self).active_users@[a + 1]);
                    }
                }
            }
            let ghost dropped = u.cards@.len() as int;
            self.lost = Ghost(self.lost@ + dropped);
            let is_setup = match self.start_state {
                GameStartState::Setup => true,
                _ => false,
            };
            let name_for_log = u.name.clone();
            self.action.push(UnoAction::UserLeft(name_for_log));
            if !is_setup {
                self.bust_users.push((u.id, u.name));
            }
            self.remove_connected(user_id);
            self.turn_from_leaver(user_idx);
        } else {
            let m = self.finished_users.len();
            let mut fi: usize = 0;
            while fi < m && self.finished_users[fi].0 != user_id
                invariant
                    m == self.finished_users@.len(),
                    fi <= m,
                    forall|j: int| 0 <= j < fi ==> self.finished_users@[j].0 != user_id,
                decreases m - fi,
            {
                fi = fi + 1;
            }
            if fi < m {
                proof {
                    let ci = choose|i2: int|
                        0 <= i2 < old(self).finished_users@.len() && old(self).finished_users@[i2].0
                            == user_id;
                    assert(old(self).finished_users@[fi as int].0 == user_id);
                    assert(ci == fi as int);
                    assert(Self::pair_name(old(self).finished_users@, user_id)
                        == old(self).finished_users@[fi as int].1);
                }
                let name_for_log = self.finished_users[fi].1.clone();
                self.action.push(UnoAction::UserLeft(name_for_log));
            } else {
                proof {
                    assert(!Self::pair_has(old(self).finished_users@, user_id));
                }
                let b = self.bust_users.len();
                let mut bi: usize = 0;
                while bi < b && self.bust_users[bi].0 != user_id
                    invariant
                        b == self.bust_users@.len(),
                        bi <= b,
                        forall|j: int| 0 <= j < bi ==> self.bust_users@[j].0 != user_id,
                    decreases b - bi,
                {
                    bi = bi + 1;
                }
                if bi < b {
                    proof {
                        let ci = choose|i2: int|
                            0 <= i2 < old(self).bust_users@.len() && old(self).bust_users@[i2].0
                                == user_id;
                        assert(old(self).bust_users@[bi as int].0 == user_id);
                        assert(ci == bi as int);
                        assert(Self::pair_name(old(self).bust_users@, user_id)
                            == old(self).bust_users@[bi as int].1);
                    }
                    let name_for_log = self.bust_users[bi].1.clone();
                    self.action.push(UnoAction::UserLeft(name_for_log));
                } else {
                    proof {
                        assert(!Self::pair_has(old(self).bust_users@, user_id));
                    }
                }
            }
            self.remove_connected(user_id);
            self.check_over();
        }
        let mut effects: Vec<GameEffect> = Vec::new();
        effects.push(GameEffect::Service(ServerIntraMessage::UserLeftGame(user_id, self.id)));
        effects.push(GameEffect::Service(self.service_update_state()));
        effects
    }

    /// Moves the game from Setup to Active: only the host may do it, and
    /// only with at least two active players. Any other start request
    /// changes nothing.
    #[verifier::loop_isolation(false)]
    pub fn handle_start(&mut self, user_id: u32) -> (effects: Vec<GameEffect>)
        requires
            old(self).wf(),
        ensures
            final(self).wf(),
            ({
                let can = user_id == old(self).host_user && old(self).start_state
                    == GameStartState::Setup && old(self).active_users@.len() >= 2;
                if !can {
                    *final(self) == *old(self) && effects@.len() == 0
                } else {
                    &&& final(self).start_state == GameStartState::Active
                    &&& final(self).active_users == old(self).active_users
                    &&& final(self).connected == old(self).connected
                    &&& final(self).deck == old(self).deck
                    &&& final(self).last_card == old(self).last_card
                    &&& final(self).user_turn == old(self).user_turn
                    &&& final(self).is_ord == old(self).is_ord
                    &&& final(self).host_user == old(self).host_user
                    &&& final(self).finished_users == old(self).finished_users
                    &&& final(self).bust_users == old(self).bust_users
                    &&& final(self).action@ == Seq::<UnoAction>::empty()
                    &&& effects@.len() == 1 + final(self).connected@.len()
                    &&& (effects@[0] matches GameEffect::Service(m) && (
                    m matches ServerIntraMessage::UpdateGameServer(gid, upd) && gid == old(self).id
                        && upd.player_count as int == old(self).active_users@.len()
                        && upd.start_state == GameStartState::Active))
                    &&& forall|k: int|
                        1 <= k < effects@.len() ==> ((#[trigger] effects@[k])
                            matches GameEffect::State(uid, cmd) && uid == final(self).connected@[k
                            - 1] && (cmd matches ServerUnoCommand::GameState(cards, st)
                            && cards@ == final(self).visible_hand(uid) && final(self).snapshot_matches(old(self).action@, st)))
                }
            }),
    {
        let n = self.active_users.len();
        let is_setup = match self.start_state {
            GameStartState::Setup => true,
            _ => false,
        };
        if user_id != self.host_user || !is_setup || n < 2 {
            return Vec::new();
        }
        self.start_state = GameStartState::Active;
        let mut effects: Vec<GameEffect> = Vec::new();
        let svc = self.service_update_state();
        let ghost svc0 = svc;
        effects.push(GameEffect::Service(svc));
        proof {
            assert(effects@[0] == GameEffect::Service(svc0));
        }
        let ghost mid = *self;
        let mut casts = self.update_user_state();
        let ghost casts0 = casts@;
        let cl = casts.len();
        proof {
            assert(cl == casts0.len());
        }
        let mut k: usize = 0;
        while casts.len() > 0
            invariant
                casts@ == casts0.skip(k as int),
                k <= casts0.len(),
                casts0.len() <= usize::MAX as int,
                effects@.len() == 1 + k,
                effects@[0] == GameEffect::Service(svc0),
                forall|j: int| #![auto] 1 <= j < effects@.len() ==> effects@[j] == casts0[j - 1],
            decreases casts@.len(),
        {
            let e = casts.remove(0);
            proof {
                assert(casts@ =~= casts0.skip(k as int + 1));
            }
            effects.push(e);
            k = k + 1;
        }
        proof {
            assert forall|j: int| 1 <= j < effects@.len() implies ((#[trigger] effects@[j])
                matches GameEffect::State(uid, cmd) && uid == self.connected@[j - 1] && (
            cmd matches ServerUnoCommand::GameState(cards, st) && cards@ == self.visible_hand(uid)
                && self.snapshot_matches(old(self).action@, st))) by {
                assert(effects@[j] == casts0[j - 1]);
            }
        }
        effects
    }

    /// Evicts every active player whose hand grew past 20 cards: their
    /// cards go back to the discard pile, their name moves to the bust list
    /// with a log entry, the turn is repaired per eviction, and the game
    /// ends if at most one player is left. The survivors keep their order
    /// and their hands.
    #[verifier::rlimit(100)]
    #[verifier::loop_isolation(false)]
    pub fn check_user_bust(&mut self)
        requires
            old(self).core_wf(),
            old(self).turn_ok(),
            old(self).start_state == GameStartState::Active ==> old(self).active_users@.len()
                >= 2,
        ensures
            final(self).core_wf(),
            final(self).turn_ok(),
            final(self).start_state == GameStartState::Active ==> final(
                self).active_users@.len() >= 2,
            final(self).hands_bounded(),
            final(self).deck.main_deck == old(self).deck.main_deck,
            final(self).connected == old(self).connected,
            final(self).id == old(self).id,
            final(self).lobby_name == old(self).lobby_name,
            final(self).host_user == old(self).host_user,
            final(self).last_card == old(self).last_card,
            final(self).is_ord == old(self).is_ord,
            old(self).hands_bounded() ==> *final(self) == *old(self),
            ({
                let kept = old(self).active_users@.filter(|u: UnoUser| u.cards@.len() <= 20);
                let gone = old(self).active_users@.filter(|u: UnoUser| u.cards@.len() > 20);
                &&& final(self).bust_users@ == old(self).bust_users@ + gone.map_values(
                    |u: UnoUser| (u.id, u.name),
                )
                &&& (gone.len() == 0 ==> *final(self) == *old(self))
                &&& (gone.len() > 0 && kept.len() > 1 ==> final(self).active_users@ == kept
                    && final(self).finished_users == old(self).finished_users
                    && final(self).start_state == old(self).start_state
                    && final(self).action@ == old(self).action@ + gone.map_values(
                    |u: UnoUser| UnoAction::UserBust(u.name),
                ) && final(self).deck.total() + final(self).lost@ == old(self).deck.total() + old(
                    self,
                ).lost@ + hands_total(gone))
                &&& (gone.len() > 0 && kept.len() <= 1 ==> final(self).active_users@.len() == 0
                    && final(self).start_state == GameStartState::Ending
                    && final(self).finished_users@ == old(self).finished_users@ + kept.map_values(
                    |u: UnoUser| (u.id, u.name),
                ) && final(self).action@ == old(self).action@ + gone.map_values(
                    |u: UnoUser| UnoAction::UserBust(u.name),
                ) + seq![UnoAction::GameEnded])
            }),
    {
        let ghost keep_pred = |u: UnoUser| u.cards@.len() <= 20;
        let ghost gone_pred = |u: UnoUser| u.cards@.len() > 20;
        let mut evicted: Vec<usize> = Vec::new();
        let mut i: usize = 0;
        proof {
            reveal(Seq::filter);
            assert(old(self).active_users@.take(0).filter(keep_pred) =~= Seq::<UnoUser>::empty());
            assert(old(self).active_users@.take(0).filter(gone_pred) =~= Seq::<UnoUser>::empty());
            assert(self.active_users@ =~= old(self).active_users@.take(0).filter(keep_pred) + old(
                self,
            ).active_users@.skip(0));
            assert(self.bust_users@ =~= old(self).bust_users@ + old(self).active_users@.take(
                0,
            ).filter(gone_pred).map_values(|u: UnoUser| (u.id, u.name)));
            assert(self.action@ =~= old(self).action@ + old(self).active_users@.take(0).filter(
                gone_pred,
            ).map_values(|u: UnoUser| UnoAction::UserBust(u.name)));
        }
        while i < self.active_users.len()
            invariant
                self.core_wf(),
                ({
                    let sc = i + evicted@.len();
                    &&& sc <= old(self).active_users@.len()
                    &&& self.active_users@ == old(self).active_users@.take(sc as int).filter(
                        keep_pred,
                    ) + old(self).active_users@.skip(sc as int)
                    &&& i as int == old(self).active_users@.take(sc as int).filter(
                        keep_pred,
                    ).len()
                    &&& evicted@.len() as int == old(self).active_users@.take(sc as int).filter(
                        gone_pred,
                    ).len()
                    &&& self.bust_users@ == old(self).bust_users@ + old(self).active_users@.take(
                        sc as int,
                    ).filter(gone_pred).map_values(|u: UnoUser| (u.id, u.name))
                    &&& self.action@ == old(self).action@ + old(self).active_users@.take(
                        sc as int,
                    ).filter(gone_pred).map_values(|u: UnoUser| UnoAction::UserBust(u.name))
                    &&& self.deck.total() + self.lost@ == old(self).deck.total() + old(self).lost@
                        + hands_total(old(self).active_users@.take(sc as int).filter(gone_pred))
                }),
                keep_pred == (|u: UnoUser| u.cards@.len() <= 20),
                gone_pred == (|u: UnoUser| u.cards@.len() > 20),
                self.deck.main_deck == old(self).deck.main_deck,
                self.connected == old(self).connected,
                self.id == old(self).id,
                self.lobby_name == old(self).lobby_name,
                self.host_user == old(self).host_user,
                self.last_card == old(self).last_card,
                self.is_ord == old(self).is_ord,
                self.user_turn == old(self).user_turn,
                self.start_state == old(self).start_state,
                self.finished_users == old(self).finished_users,
                evicted@.len() == 0 ==> *self == *old(self),
            decreases old(self).active_users@.len() - i - evicted@.len(),
        {
            let ghost sc = (i + evicted@.len()) as int;
            let ghost prefix = old(self).active_users@.take(sc);
            let ghost prefix1 = old(self).active_users@.take(sc + 1);
            proof {
                reveal(Seq::filter);
                assert(prefix1.drop_last() =~= prefix);
                assert(prefix1.last() == old(self).active_users@[sc]);
                assert(self.active_users@[i as int] == old(self).active_users@[sc]);
            }
            if self.active_users[i].cards.len() <= 20 {
                proof {
                    assert(prefix1.filter(keep_pred) =~= prefix.filter(keep_pred).push(
                        old(self).active_users@[sc],
                    ));
                    assert(prefix1.filter(gone_pred) =~= prefix.filter(gone_pred));
                    assert(self.active_users@ =~= prefix1.filter(keep_pred) + old(
                        self,
                    ).active_users@.skip(sc + 1));
                }
                i = i + 1;
            } else {
                let ghost pre_evict = *self;
                let u = self.active_users.remove(i);
                proof {
                    lemma_hands_total_remove(pre_evict.active_users@, i as int);
                    assert forall|a: int, b: int|
                        0 <= a < self.active_users@.len() && 0 <= b
                            < self.active_users@[a].cards@.len() implies #[trigger] spec_valid(
                        self.active_users@[a].cards@[b].0,
                    ) && crate::card::spec_canonical(self.active_users@[a].cards@[b].0) by {
                        if a < i as int {
                            assert(self.active_users@[a] == pre_evict.active_users@[a]);
                        } else {
                            assert(self.active_users@[a] == pre_evict.active_users@[a + 1]);
                        }
                    }
                    assert(u == old(self).active_users@[sc]);
                    assert(self.active_users@ =~= prefix.filter(keep_pred) + old(
                        self,
                    ).active_users@.skip(sc + 1));
                }
                let mut j: usize = 0;
                while j < u.cards.len()
                    invariant
                        0 <= j <= u.cards@.len(),
                        self.deck.wf(),
                        self.deck.main_deck == pre_evict.deck.main_deck,
                        self.lost@ >= 0,
                        self.deck.total() + self.lost@ + (u.cards@.len() - j) == pre_evict
                            .deck.total() + pre_evict.lost@ + u.cards@.len(),
                        forall|q: int| #![auto] 0 <= q < u.cards@.len() ==> spec_valid(
                            u.cards@[q].0),
                        self.active_users@ == prefix.filter(keep_pred) + old(
                            self).active_users@.skip(sc + 1),
                        self.finished_users == pre_evict.finished_users,
                        self.bust_users == pre_evict.bust_users,
                        self.action == pre_evict.action,
                        self.connected == pre_evict.connected,
                        self.id == pre_evict.id,
                        self.lobby_name == pre_evict.lobby_name,
                        self.host_user == pre_evict.host_user,
                        self.last_card == pre_evict.last_card,
                        self.is_ord == pre_evict.is_ord,
                        self.user_turn == pre_evict.user_turn,
                        self.start_state == pre_evict.start_state,
                        self.lists_wf(),
                        self.cards_wf(),
                        self.active_users@.len() <= 4,
                    decreases u.cards@.len() - j,
                {
                    let placed = self.deck.discard(u.cards[j]);
                    if !placed {
                        self.lost = Ghost(self.lost@ + 1);
                    }
                    j = j + 1;
                }
                let name_for_log = u.name.clone();
                self.action.push(UnoAction::UserBust(name_for_log));
                let orig_idx = i + evicted.len();
                self.bust_users.push((u.id, u.name));
                evicted.push(orig_idx);
                proof {
                    assert(prefix1.filter(gone_pred) =~= prefix.filter(gone_pred).push(
                        old(self).active_users@[sc],
                    ));
                    assert(prefix1.filter(keep_pred) =~= prefix.filter(keep_pred));
                    lemma_hands_total_push(prefix.filter(gone_pred), old(self).active_users@[sc]);
                    assert(self.bust_users@ =~= old(self).bust_users@ + prefix1.filter(
                        gone_pred,
                    ).map_values(|u2: UnoUser| (u2.id, u2.name)));
                    assert(self.action@ =~= old(self).action@ + prefix1.filter(
                        gone_pred,
                    ).map_values(|u2: UnoUser| UnoAction::UserBust(u2.name)));
                }
            }
        }
        let ghost kept = old(self).active_users@.filter(keep_pred);
        let ghost gone = old(self).active_users@.filter(gone_pred);
        proof {
            let sc = (i + evicted@.len()) as int;
            assert(old(self).active_users@.skip(sc).len() == 0);
            assert(sc == old(self).active_users@.len());
            assert(old(self).active_users@.take(sc) =~= old(self).active_users@);
            assert(self.active_users@ =~= kept);
            if old(self).hands_bounded() {
                lemma_filter_none(old(self).active_users@, gone_pred);
                assert(gone.len() == 0);
            }
            if gone.len() == 0 {
                assert forall|q: int|
                    0 <= q < old(self).active_users@.len() implies !gone_pred(
                    #[trigger] old(self).active_users@[q]) by {
                    if gone_pred(old(self).active_users@[q]) {
                        assert(gone.contains(old(self).active_users@[q]));
                    }
                }
                assert(evicted@.len() == 0);
                assert(*self == *old(self));
            }
        }
        if evicted.len() > 0 {
            let ghost repaired_from = *self;
            let mut j: usize = 0;
            while j < evicted.len()
                invariant
                    *self == (ServerUno { user_turn: self.user_turn, ..repaired_from }),
                    j > 0 ==> self.turn_ok(),
                    j == 0 ==> *self == repaired_from,
                decreases evicted@.len() - j,
            {
                let idx = evicted[j];
                let curr = self.user_turn as usize;
                let len = self.active_users.len();
                if len == 0 {
                    self.user_turn = 0;
                } else if curr >= len {
                    self.user_turn = (len - 1) as u8;
                } else if curr > idx {
                    self.user_turn = self.user_turn - 1;
                }
                j = j + 1;
            }
            proof {
                assert(self.turn_ok());
            }
            self.check_over();
            proof {
                if kept.len() <= 1 {
                    assert(final(self).finished_users@ =~= old(self).finished_users@
                        + kept.map_values(|u2: UnoUser| (u2.id, u2.name)));
                    assert(final(self).action@ =~= old(self).action@ + gone.map_values(
                        |u2: UnoUser| UnoAction::UserBust(u2.name),
                    ) + seq![UnoAction::GameEnded]);
                }
            }
        }
    }

    /// Draws up to `k` cards into the current player's hand, one per
    /// supplied slot; draws stop silently once both deck piles are empty.
    fn draw_to_current(&mut self, k: usize, draws: &Vec<u8>)
        requires
            old(self).core_wf(),
            old(self).active_users@.len() >= 1,
            old(self).turn_ok(),
            draws@.len() >= k,
        ensures
            final(self).core_wf(),
            final(self).turn_ok(),
            final(self).connected == old(self).connected,
            final(self).id == old(self).id,
            final(self).lobby_name == old(self).lobby_name,
            final(self).host_user == old(self).host_user,
            final(self).last_card == old(self).last_card,
            final(self).is_ord == old(self).is_ord,
            final(self).user_turn == old(self).user_turn,
            final(self).start_state == old(self).start_state,
            final(self).finished_users == old(self).finished_users,
            final(self).bust_users == old(self).bust_users,
            final(self).action == old(self).action,
            final(self).lost == old(self).lost,
            final(self).active_users@.len() == old(self).active_users@.len(),
            ({
                let t = old(self).user_turn as int;
                let got = if old(self).deck.total() >= k {
                    k as int
                } else {
                    old(self).deck.total()
                };
                &&& final(self).deck.total() == old(self).deck.total() - got
                &&& final(self).active_users@[t].cards@.len() == old(self).active_users@[t].cards@.len() + got
                &&& final(self).active_users@[t].id == old(self).active_users@[t].id
                &&& final(self).active_users@[t].name == old(self).active_users@[t].name
                &&& forall|i: int|
                    #![auto]
                    0 <= i < old(self).active_users@.len() && i != t ==> final(self).active_users@[i] == old(self).active_users@[i]
            }),
    {
        let t = self.user_turn as usize;
        let ghost total0 = self.deck.total();
        let ghost hand0 = old(self).active_users@[t as int].cards@.len() as int;
        let mut j: usize = 0;
        while j < k
            invariant
                self.core_wf(),
                self.turn_ok(),
                t == old(self).user_turn as usize,
                t < self.active_users@.len(),
                j <= k,
                draws@.len() >= k,
                total0 == old(self).deck.total(),
                hand0 == old(self).active_users@[t as int].cards@.len(),
                self.connected == old(self).connected,
                self.id == old(self).id,
                self.lobby_name == old(self).lobby_name,
                self.host_user == old(self).host_user,
                self.last_card == old(self).last_card,
                self.is_ord == old(self).is_ord,
                self.user_turn == old(self).user_turn,
                self.start_state == old(self).start_state,
                self.finished_users == old(self).finished_users,
                self.bust_users == old(self).bust_users,
                self.action == old(self).action,
                self.lost == old(self).lost,
                self.active_users@.len() == old(self).active_users@.len(),
                ({
                    let got = if total0 >= j {
                        j as int
                    } else {
                        total0
                    };
                    &&& self.deck.total() == total0 - got
                    &&& self.active_users@[t as int].cards@.len() == hand0 + got
                }),
                self.active_users@[t as int].id == old(self).active_users@[t as int].id,
                self.active_users@[t as int].name == old(self).active_users@[t as int].name,
                forall|i: int|
                    #![auto]
                    0 <= i < old(self).active_users@.len() && i != t ==> self.active_users@[i]
                        == old(self).active_users@[i],
            decreases k - j,
        {
            let ghost before = *self;
            match self.deck.pickup(draws[j]) {
                Option::Some(c) => {
                    self.active_users[t].cards.push(c);
                    proof {
                        lemma_hands_total_update(
                            before.active_users@,
                            t as int,
                            self.active_users@[t as int],
                        );
                        assert(self.active_users@[t as int].cards@ == before.active_users@[
                            t as int].cards@.push(c));
                        assert forall|a: int, b: int|
                            0 <= a < self.active_users@.len() && 0 <= b
                                < self.active_users@[a].cards@.len() implies #[trigger] spec_valid(
                            self.active_users@[a].cards@[b].0,
                        ) && crate::card::spec_canonical(self.active_users@[a].cards@[b].0) by {
                            if a == t as int && b == self.active_users@[a].cards@.len() - 1 {
                            } else {
                                assert(self.active_users@[a].cards@[b]
                                    == before.active_users@[a].cards@[b]);
                            }
                        }
                    }
                },
                Option::None => {
                },
            }
            j = j + 1;
        }
    }

    /// Applies a committed card's effect: it becomes the last card (with the
    /// player-chosen colour for wilds), the direction and turn move, and
    /// draw penalties land on the next player.
    pub fn commit_card(&mut self, card: UnoCard, draws: &Vec<u8>)
        requires
            old(self).wf(),
            old(self).active_users@.len() >= 1,
            spec_valid(card.0),
            draws@.len() >= 4,
        ensures
            final(self).core_wf(),
            final(self).turn_ok(),
            final(self).last_card == card,
            final(self).is_ord == dir_after_play(card.0, old(self).is_ord),
            final(self).connected == old(self).connected,
            final(self).id == old(self).id,
            final(self).lobby_name == old(self).lobby_name,
            final(self).host_user == old(self).host_user,
            final(self).start_state == old(self).start_state,
            final(self).finished_users == old(self).finished_users,
            final(self).bust_users == old(self).bust_users,
            final(self).active_users@.len() == old(self).active_users@.len(),
            ({
                let raw = card.0;
                let t = old(self).user_turn as int;
                let n = old(self).active_users@.len() as int;
                let d = old(self).is_ord;
                if spec_is_power(raw) && (spec_value(raw) == 0 || spec_value(raw) == 3) {
                    let k = if spec_value(raw) == 0 {
                        2int
                    } else {
                        4int
                    };
                    let tgt = next_turn_idx(d, t, n);
                    let got = if old(self).deck.total() >= k {
                        k
                    } else {
                        old(self).deck.total()
                    };
                    &&& final(self).user_turn as int == next_turn_idx(d, tgt, n)
                    &&& final(self).active_users@[tgt].cards@.len() == old(self).active_users@[tgt].cards@.len() + got
                    &&& final(self).active_users@[tgt].id == old(self).active_users@[tgt].id
                    &&& forall|i: int|
                        #![auto]
                        0 <= i < n && i != tgt ==> final(self).active_users@[i] == old(self).active_users@[i]
                    &&& final(self).action@ == old(self).action@.push(
                        UnoAction::UserPickup(old(self).active_users@[tgt].name, k as u8),
                    )
                    &&& final(self).deck.total() == old(self).deck.total() - got
                } else if spec_is_power(raw) && spec_value(raw) == 1 {
                    &&& final(self).user_turn as int == next_turn_idx(
                        d,
                        next_turn_idx(d, t, n),
                        n,
                    )
                    &&& final(self).active_users == old(self).active_users
                    &&& final(self).action == old(self).action
                    &&& final(self).deck == old(self).deck
                    &&& final(self).lost == old(self).lost
                } else if spec_is_power(raw) && spec_value(raw) == 2 {
                    &&& final(self).user_turn as int == next_turn_idx(!d, t, n)
                    &&& final(self).active_users == old(self).active_users
                    &&& final(self).action == old(self).action
                    &&& final(self).deck == old(self).deck
                    &&& final(self).lost == old(self).lost
                } else {
                    &&& final(self).user_turn as int == next_turn_idx(d, t, n)
                    &&& final(self).active_users == old(self).active_users
                    &&& final(self).action == old(self).action
                    &&& final(self).deck == old(self).deck
                    &&& final(self).lost == old(self).lost
                }
            }),
    {
        self.last_card = card;
        if card.is_power() {
            let v = card.get_value();
            if v == 0 || v == 3 {
                let k: usize = if v == 0 {
                    2
                } else {
                    4
                };
                self.push_turn();
                self.draw_to_current(k, draws);
                let t = self.user_turn as usize;
                let name_for_log = self.active_users[t].name.clone();
                self.action.push(UnoAction::UserPickup(name_for_log, k as u8));
                self.push_turn();
            } else if v == 1 {
                self.push_turn();
                self.push_turn();
            } else if v == 2 {
                self.is_ord = !self.is_ord;
                self.push_turn();
            } else {
                self.push_turn();
            }
        } else {
            self.push_turn();
        }
    }

    /// Advances the turn one step in the current direction, wrapping.
    fn push_turn(&mut self)
        requires
            old(self).active_users@.len() >= 1,
            old(self).active_users@.len() <= 4,
            old(self).turn_ok(),
        ensures
            *final(self) == (ServerUno { user_turn: final(self).user_turn, ..*old(self) }),
            final(self).user_turn as int == next_turn_idx(
                old(self).is_ord,
                old(self).user_turn as int,
                old(self).active_users@.len() as int,
            ),
            final(self).turn_ok(),
    {
        if self.is_ord {
            if self.user_turn as usize == self.active_users.len() - 1 {
                self.user_turn = 0;
            } else {
                self.user_turn = self.user_turn + 1;
            }
        } else {
            if self.user_turn == 0 {
                self.user_turn = (self.active_users.len() - 1) as u8;
            } else {
                self.user_turn = self.user_turn - 1;
            }
        }
    }
}

} // verus!
