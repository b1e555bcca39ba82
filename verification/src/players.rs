//! Players, ownership, money and standing: small maps keyed by player id.

use vstd::prelude::*;

verus! {

/// A player is named by a 128-bit id.
pub type PlayerId = u128;

/// Which player, if any, owns an entity.
#[derive(Clone, Copy, Debug, PartialEq, Eq, Structural)]
pub struct Ownership(pub Option<PlayerId>);

/// How a player stands toward another.
#[derive(Clone, Copy, Debug, PartialEq, Eq, Structural)]
pub enum AllegianceStatus {
    Friend,
    Neutral,
    Enemy,
}

/// What the game keeps about a registered player. The colour is a packed
/// 0xRRGGBBAA value; the renderer turns it into a material.
#[derive(Clone, Debug)]
pub struct PlayerDetails {
    pub name: String,
    pub color: u32,
}

/// The packed colour of the first stock player.
pub const COLOR_BLUE: u32 = 0x0000_FFFF;

/// The packed colour of the second stock player.
pub const COLOR_RED: u32 = 0xFF00_00FF;

/// The mathematical contents of an association list: later entries win.
pub open spec fn player_entries_map<V>(s: Seq<(PlayerId, V)>) -> Map<PlayerId, V>
    decreases s.len(),
{
    if s.len() == 0 {
        Map::empty()
    } else {
        player_entries_map(s.drop_last()).insert(s.last().0, s.last().1)
    }
}

/// The map contains exactly the keys of the list.
proof fn lemma_player_map_dom<V>(s: Seq<(PlayerId, V)>, k: PlayerId)
    ensures
        player_entries_map(s).contains_key(k) <==> exists|i: int|
            0 <= i < s.len() && (#[trigger] s[i]).0 == k,
    decreases s.len(),
{
    if s.len() > 0 {
        lemma_player_map_dom(s.drop_last(), k);
        if s.last().0 == k {
            assert(s[s.len() - 1].0 == k);
        } else if player_entries_map(s).contains_key(k) {
            let i = choose|i: int|
                0 <= i < s.drop_last().len() && (#[trigger] s.drop_last()[i]).0 == k;
            assert(s[i].0 == k);
        } else {
            assert forall|i: int| 0 <= i < s.len() && (#[trigger] s[i]).0 == k implies false by {
                if i < s.len() - 1 {
                    assert(s.drop_last()[i].0 == k);
                }
            }
        }
    }
}

/// The entry at a unique key gives the map's value for it.
proof fn lemma_player_map_at<V>(s: Seq<(PlayerId, V)>, i: int)
    requires
        0 <= i < s.len(),
        forall|a: int, b: int|
            0 <= a < b < s.len() ==> (#[trigger] s[a]).0 != (#[trigger] s[b]).0,
    ensures
        player_entries_map(s).contains_key(s[i].0),
        player_entries_map(s)[s[i].0] == s[i].1,
    decreases s.len(),
{
    if i == s.len() - 1 {
        lemma_player_map_dom(s, s[i].0);
    } else {
        lemma_player_map_at(s.drop_last(), i);
        assert(s.drop_last()[i] == s[i]);
        assert(s.last().0 != s[i].0);
    }
}

/// A small map from player ids to values, kept as a list of entries with
/// distinct keys.
pub struct PlayerMap<V> {
    entries: Vec<(PlayerId, V)>,
}

impl<V> View for PlayerMap<V> {
    type V = Map<PlayerId, V>;

    closed spec fn view(&self) -> Map<PlayerId, V> {
        player_entries_map(self.entries@)
    }
}

impl<V> PlayerMap<V> {
    /// Each player id appears at most once.
    pub closed spec fn wf(self) -> bool {
        forall|a: int, b: int|
            0 <= a < b < self.entries@.len()
                ==> (#[trigger] self.entries@[a]).0 != (#[trigger] self.entries@[b]).0
    }

    /// The empty map.
    pub fn new() -> (r: PlayerMap<V>)
        ensures
            r.wf(),
            r@ == Map::<PlayerId, V>::empty(),
    {
        PlayerMap { entries: Vec::new() }
    }

    /// The index of the entry for `key`, if there is one.
    fn find_index(&self, key: PlayerId) -> (r: Option<usize>)
        requires
            self.wf(),
        ensures
            r matches Some(i) ==> i < self.entries@.len() && self.entries@[i as int].0 == key,
            r is None ==> forall|i: int|
                0 <= i < self.entries@.len() ==> (#[trigger] self.entries@[i]).0 != key,
    {
        let n = self.entries.len();
        let mut i: usize = 0;
        while i < n
            invariant
                i <= n == self.entries@.len(),
                forall|j: int| 0 <= j < i ==> (#[trigger] self.entries@[j]).0 != key,
            decreases n - i,
        {
            if self.entries[i].0 == key {
                return Some(i);
            }
            i = i + 1;
        }
        None
    }

    /// Reads the value registered under `key`.
    pub fn get(&self, key: PlayerId) -> (r: Option<&V>)
        requires
            self.wf(),
        ensures
            r matches Some(v) ==> self@.contains_key(key) && *v == self@[key],
            r is None ==> !self@.contains_key(key),
    {
        proof {
            lemma_player_map_dom(self.entries@, key);
        }
        match self.find_index(key) {
            Some(i) => {
                proof {
                    lemma_player_map_at(self.entries@, i as int);
                }
                Some(&self.entries[i].1)
            },
            None => None,
        }
    }

    /// Registers (or replaces) the value under `key`.
    pub fn insert(&mut self, key: PlayerId, value: V)
        requires
            old(self).wf(),
        ensures
            final(self).wf(),
            final(self)@ == old(self)@.insert(key, value),
    {
        proof {
            lemma_player_map_dom(self.entries@, key);
        }
        match self.find_index(key) {
            Some(i) => {
                proof {
                    lemma_player_map_remove(self.entries@, i as int);
                    self.entries@.remove_ensures(i as int);
                }
                let _ = self.entries.remove(i);
                proof {
                    assert forall|a: int, b: int| 0 <= a < b < self.entries@.len()
                        implies (#[trigger] self.entries@[a]).0
                            != (#[trigger] self.entries@[b]).0 by {
                        let oa: int = if a < i { a } else { a + 1 };
                        let ob: int = if b < i { b } else { b + 1 };
                        assert(self.entries@[a] == old(self).entries@[oa]);
                        assert(self.entries@[b] == old(self).entries@[ob]);
                    }
                    lemma_player_map_dom(self.entries@, key);
                }
            },
            None => {},
        }
        let ghost mid = self.entries@;
        self.entries.push((key, value));
        proof {
            assert(self.entries@.drop_last() =~= mid);
            assert(player_entries_map(mid).insert(key, value) =~= old(self)@.insert(key, value));
            assert forall|a: int, b: int| 0 <= a < b < self.entries@.len()
                implies (#[trigger] self.entries@[a]).0 != (#[trigger] self.entries@[b]).0 by {
                assert(self.entries@[a] == mid[a]);
                if b < self.entries@.len() - 1 {
                    assert(self.entries@[b] == mid[b]);
                } else {
                    assert(mid[a].0 != key);
                }
            }
        }
    }
}

/// Removing the entry at `i` (the only one with its key) removes that key.
proof fn lemma_player_map_remove<V>(s: Seq<(PlayerId, V)>, i: int)
    requires
        0 <= i < s.len(),
        forall|a: int, b: int|
            0 <= a < b < s.len() ==> (#[trigger] s[a]).0 != (#[trigger] s[b]).0,
    ensures
        player_entries_map(s.remove(i)) == player_entries_map(s).remove(s[i].0),
    decreases s.len(),
{
    let k = s[i].0;
    if i == s.len() - 1 {
        assert(s.remove(i) =~= s.drop_last());
        lemma_player_map_dom(s.drop_last(), k);
        assert(forall|a: int|
            0 <= a < s.drop_last().len() ==> (#[trigger] s.drop_last()[a]).0 == s[a].0);
        assert(!player_entries_map(s.drop_last()).contains_key(k));
        assert(player_entries_map(s.drop_last()) =~= player_entries_map(s).remove(k));
    } else {
        lemma_player_map_remove(s.drop_last(), i);
        assert(s.remove(i).drop_last() =~= s.drop_last().remove(i));
        assert(s.remove(i).last() == s.last());
        assert(player_entries_map(s.remove(i))
            == player_entries_map(s.drop_last()).remove(k).insert(s.last().0, s.last().1));
        assert(s.last().0 != k);
        assert(player_entries_map(s.drop_last()).remove(k).insert(s.last().0, s.last().1)
            =~= player_entries_map(s).remove(k));
    }
}

/// The registered players.
pub struct RegisteredPlayers(pub PlayerMap<PlayerDetails>);

/// Each player's money.
pub struct PlayerMoney(pub PlayerMap<u32>);

/// How the local player stands toward each other player.
pub struct AllegiancesToOthers(pub PlayerMap<AllegianceStatus>);

/// A map holding `v` at exactly the keys of `dom`.
pub open spec fn const_map<V>(dom: Set<PlayerId>, v: V) -> Map<PlayerId, V> {
    Map::new(|k: PlayerId| dom.contains(k), |k: PlayerId| v)
}

/// Finds the id of a registered player by name. When several players share
/// the name, any one of them may come back.
pub fn who_am_i(name: &str, players_map: &RegisteredPlayers) -> (r: Option<PlayerId>)
    requires
        players_map.0.wf(),
    ensures
        r matches Some(id) ==> players_map.0@.contains_key(id) && players_map.0@[id].name@
            == name@,
        r is None ==> forall|k: PlayerId| players_map.0@.contains_key(k)
            ==> (#[trigger] players_map.0@[k]).name@ != name@,
{
    let wanted = String::from_str(name);
    let n = players_map.0.entries.len();
    let mut i: usize = 0;
    while i < n
        invariant
            i <= n == players_map.0.entries@.len(),
            players_map.0.wf(),
            wanted@ == name@,
            forall|j: int| 0 <= j < i
                ==> (#[trigger] players_map.0.entries@[j]).1.name@ != name@,
        decreases n - i,
    {
        if players_map.0.entries[i].1.name == wanted {
            proof {
                lemma_player_map_at(players_map.0.entries@, i as int);
            }
            return Some(players_map.0.entries[i].0);
        }
        i = i + 1;
    }
    proof {
        assert forall|k: PlayerId| players_map.0@.contains_key(k)
            implies (#[trigger] players_map.0@[k]).name@ != name@ by {
            lemma_player_map_dom(players_map.0.entries@, k);
            let es = players_map.0.entries@;
            let j = choose|j: int| 0 <= j < es.len() && (#[trigger] es[j]).0 == k;
            lemma_player_map_at(players_map.0.entries@, j);
        }
    }
    None
}

/// Gives every registered player the starting amount of money; players not
/// in the registry keep what they had.
pub fn setup_initial_resources(
    money_res: &mut PlayerMoney,
    start_amount: u32,
    players_map: &RegisteredPlayers,
)
    requires
        old(money_res).0.wf(),
        players_map.0.wf(),
    ensures
        final(money_res).0.wf(),
        final(money_res).0@ == old(money_res).0@.union_prefer_right(
            const_map(players_map.0@.dom(), start_amount),
        ),
{
    let n = players_map.0.entries.len();
    let mut i: usize = 0;
    while i < n
        invariant
            i <= n == players_map.0.entries@.len(),
            players_map.0.wf(),
            money_res.0.wf(),
            money_res.0@ == old(money_res).0@.union_prefer_right(
                const_map(
                    player_entries_map(players_map.0.entries@.subrange(0, i as int)).dom(),
                    start_amount,
                ),
            ),
        decreases n - i,
    {
        let k = players_map.0.entries[i].0;
        money_res.0.insert(k, start_amount);
        proof {
            let pre = players_map.0.entries@.subrange(0, i as int);
            let post = players_map.0.entries@.subrange(0, i + 1);
            assert(post.drop_last() =~= pre);
            assert(money_res.0@ =~= old(money_res).0@.union_prefer_right(
                const_map(player_entries_map(post).dom(), start_amount),
            ));
        }
        i = i + 1;
    }
    proof {
        assert(players_map.0.entries@.subrange(0, n as int) =~= players_map.0.entries@);
    }
}

/// Marks every other registered player as neutral toward the local player;
/// the local player gets no entry about themselves.
pub fn setup_allegiances(
    me: PlayerId,
    players_map: &RegisteredPlayers,
    allegiances_to_others: &mut AllegiancesToOthers,
)
    requires
        old(allegiances_to_others).0.wf(),
        players_map.0.wf(),
    ensures
        final(allegiances_to_others).0.wf(),
        final(allegiances_to_others).0@ == old(allegiances_to_others).0@.union_prefer_right(
            const_map(players_map.0@.dom().remove(me), AllegianceStatus::Neutral),
        ),
{
    let n = players_map.0.entries.len();
    let mut i: usize = 0;
    while i < n
        invariant
            i <= n == players_map.0.entries@.len(),
            players_map.0.wf(),
            allegiances_to_others.0.wf(),
            allegiances_to_others.0@ == old(allegiances_to_others).0@.union_prefer_right(
                const_map(
                    player_entries_map(players_map.0.entries@.subrange(0, i as int)).dom().remove(
                        me,
                    ),
                    AllegianceStatus::Neutral,
                ),
            ),
        decreases n - i,
    {
        let k = players_map.0.entries[i].0;
        if k != me {
            allegiances_to_others.0.insert(k, AllegianceStatus::Neutral);
        }
        proof {
            let pre = players_map.0.entries@.subrange(0, i as int);
            let post = players_map.0.entries@.subrange(0, i + 1);
            assert(post.drop_last() =~= pre);
            assert(allegiances_to_others.0@ =~= old(allegiances_to_others).0@.union_prefer_right(
                const_map(
                    player_entries_map(post).dom().remove(me),
                    AllegianceStatus::Neutral,
                ),
            ));
        }
        i = i + 1;
    }
    proof {
        assert(players_map.0.entries@.subrange(0, n as int) =~= players_map.0.entries@);
    }
}


/// Relies on uuid's `Uuid::new_v4` and `Uuid::as_u128`: a freshly drawn
/// random version-4 id, taken as its 128-bit value. Nothing can be promised
/// of a random draw; two calls may even collide.
#[verifier::external_body]
fn fresh_player_id() -> (r: PlayerId) {
    uuid::Uuid::new_v4().as_u128()
}

/// Registers the two stock players, each under a freshly drawn id: Caio in
/// blue, then Bob in red. If the two draws collide (vanishingly unlikely),
/// the later registration replaces the earlier.
pub fn register_players(players: &mut RegisteredPlayers) -> (ids: (PlayerId, PlayerId))
    requires
        old(players).0.wf(),
    ensures
        final(players).0.wf(),
        final(players).0@.contains_key(ids.1),
        final(players).0@[ids.1].name@ == "Bob"@,
        final(players).0@[ids.1].color == COLOR_RED,
        ids.0 != ids.1 ==> {
            &&& final(players).0@.contains_key(ids.0)
            &&& final(players).0@[ids.0].name@ == "Caio"@
            &&& final(players).0@[ids.0].color == COLOR_BLUE
        },
        forall|k: PlayerId|
            #![trigger final(players).0@.contains_key(k)]
            k != ids.0 && k != ids.1 ==> (final(players).0@.contains_key(k) <==> old(
                players,
            ).0@.contains_key(k)),
        forall|k: PlayerId|
            #![trigger final(players).0@[k]]
            k != ids.0 && k != ids.1 && old(players).0@.contains_key(k) ==> final(players).0@[k]
                == old(players).0@[k],
{
    let id1 = fresh_player_id();
    let d1 = PlayerDetails { name: String::from_str("Caio"), color: COLOR_BLUE };
    let ghost g1 = d1;
    players.0.insert(id1, d1);
    let id2 = fresh_player_id();
    let d2 = PlayerDetails { name: String::from_str("Bob"), color: COLOR_RED };
    let ghost g2 = d2;
    players.0.insert(id2, d2);
    proof {
        assert(players.0@ == old(players).0@.insert(id1, g1).insert(id2, g2));
    }
    (id1, id2)
}

/// Sets a new game's players up: registers the stock players, finds the
/// local player by name, and — when found — gives everyone their starting
/// money and marks all others neutral toward the local player. Whatever the
/// random ids were, the second stock player is registered afterwards, the
/// registry changes only by the two registrations, and the local player is
/// missing exactly when no registered player carries the local name (which
/// takes an id collision).
pub fn setup_players(
    starting_resources: u32,
    players: &mut RegisteredPlayers,
    money: &mut PlayerMoney,
    allegiances_to_others: &mut AllegiancesToOthers,
) -> (me: Option<PlayerId>)
    requires
        old(players).0.wf(),
        old(money).0.wf(),
        old(allegiances_to_others).0.wf(),
    ensures
        final(players).0.wf(),
        final(money).0.wf(),
        final(allegiances_to_others).0.wf(),
        exists|k: PlayerId|
            final(players).0@.contains_key(k) && (#[trigger] final(players).0@[k]).name@
                == "Bob"@ && final(players).0@[k].color == COLOR_RED,
        (me is Some) <==> exists|k: PlayerId|
            final(players).0@.contains_key(k) && (#[trigger] final(players).0@[k]).name@
                == "Caio"@,
        forall|k: PlayerId| #[trigger] final(players).0@.contains_key(k) ==> {
            ||| old(players).0@.contains_key(k) && final(players).0@[k] == old(players).0@[k]
            ||| final(players).0@[k].name@ == "Caio"@ && final(players).0@[k].color == COLOR_BLUE
            ||| final(players).0@[k].name@ == "Bob"@ && final(players).0@[k].color == COLOR_RED
        },
        forall|k: PlayerId| old(players).0@.contains_key(k)
            ==> #[trigger] final(players).0@.contains_key(k),
        me matches Some(id) ==> {
            &&& final(players).0@.contains_key(id)
            &&& final(players).0@[id].name@ == "Caio"@
            &&& final(money).0@ == old(money).0@.union_prefer_right(
                const_map(final(players).0@.dom(), starting_resources),
            )
            &&& final(allegiances_to_others).0@ == old(allegiances_to_others).0@
                .union_prefer_right(
                const_map(final(players).0@.dom().remove(id), AllegianceStatus::Neutral),
            )
        },
        me is None ==> {
            &&& final(money).0@ == old(money).0@
            &&& final(allegiances_to_others).0@ == old(allegiances_to_others).0@
        },
{
    let ids = register_players(players);
    proof {
        assert(players.0@.contains_key(ids.1) && players.0@[ids.1].name@ == "Bob"@
            && players.0@[ids.1].color == COLOR_RED);
        assert forall|k: PlayerId| #[trigger] players.0@.contains_key(k) implies {
            ||| old(players).0@.contains_key(k) && players.0@[k] == old(players).0@[k]
            ||| players.0@[k].name@ == "Caio"@ && players.0@[k].color == COLOR_BLUE
            ||| players.0@[k].name@ == "Bob"@ && players.0@[k].color == COLOR_RED
        } by {
            if k == ids.1 {
            } else if k == ids.0 {
            }
        }
        assert forall|k: PlayerId| old(players).0@.contains_key(k)
            implies #[trigger] players.0@.contains_key(k) by {
            if k == ids.1 {
            } else if k == ids.0 {
                assert(players.0@.contains_key(ids.1));
                if ids.0 != ids.1 {
                    assert(players.0@.contains_key(ids.0));
                }
            }
        }
    }
    let me = who_am_i("Caio", players);
    match me {
        Some(id) => {
            proof {
                assert(players.0@.contains_key(id) && players.0@[id].name@ == "Caio"@);
            }
            setup_initial_resources(money, starting_resources, players);
            setup_allegiances(id, players, allegiances_to_others);
            Some(id)
        },
        None => None,
    }
}

} // verus!
