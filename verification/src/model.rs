//! The records the service keeps (live rooms, their player slots, finished
//! rounds) and the computations over them: the statistics summary, the query
//! for a set of rounds' scores, and the grouping of scores under their round.

use vstd::prelude::*;
use crate::text::{
    comma_pieces, decimal, lemma_comma_pieces_of_free, lemma_comma_pieces_separated, lemma_decimal_comma_free,
    push_decimal,
};
use std::collections::HashMap;

verus! {

/// One player slot of a live room, as Bancho reports it.
#[derive(Debug, Clone)]
pub struct LiveSlotInfo {
    pub slot_id: usize,
    pub user_id: i32,
    pub username: String,
    pub status: u8,
    pub status_text: String,
    pub team: u8,
    pub mods: u32,
}

/// A live multiplayer room as stored; `slots_json` holds its slots as JSON.
#[derive(Debug, Clone)]
pub struct DbLiveRoom {
    pub match_id: i64,
    pub name: String,
    pub host_id: i64,
    pub host_name: String,
    pub beatmap_id: i64,
    pub beatmap_name: String,
    pub beatmap_md5: String,
    pub mode: i64,
    pub scoring_type: i64,
    pub team_type: i64,
    pub mods: i64,
    pub in_progress: i64,
    pub player_count: i64,
    pub slots_json: String,
    pub created_at: i64,
    pub updated_at: i64,
}

/// A finished round of a match.
#[derive(Debug, Clone)]
pub struct DbMultiGame {
    pub id: i64,
    pub match_id: i64,
    pub beatmap_id: i64,
    pub beatmap_name: String,
    pub beatmap_md5: String,
    pub mode: i64,
    pub scoring_type: i64,
    pub team_type: i64,
    pub mods: i64,
    pub played_at: i64,
    pub duration_seconds: i64,
    pub winner_id: i64,
    pub winner_name: String,
}

/// Counts shown on the dashboard and served by the statistics endpoint.
#[derive(Debug, Clone, Copy, PartialEq, Eq)]
pub struct MultiStatsSummary {
    pub active_rooms: usize,
    pub total_players: i64,
    pub total_completed_rounds: usize,
}

// ---------------------------------------------------------------------------
// Statistics
// ---------------------------------------------------------------------------

/// The players of all rooms together.
pub open spec fn sum_players(rooms: Seq<DbLiveRoom>) -> int
    decreases rooms.len(),
{
    if rooms.len() == 0 {
        0
    } else {
        sum_players(rooms.drop_last()) + rooms.last().player_count
    }
}

pub open spec fn fits_i64(x: int) -> bool {
    i64::MIN <= x <= i64::MAX
}

/// Adding up the player counts one room after the other leaves the range of
/// `i64` somewhere on the way.
pub open spec fn player_sum_overflows(rooms: Seq<DbLiveRoom>) -> bool {
    exists|k: int| 0 <= k <= rooms.len() && !fits_i64(#[trigger] sum_players(rooms.take(k)))
}

/// The statistics summary of the live rooms and the number of finished
/// rounds (`None` when that count could not be read: then it counts as 0).
/// The result is `None` exactly when adding up the player counts in order
/// leaves the range of `i64`.
pub fn summarize_stats(rooms: &Vec<DbLiveRoom>, completed_rounds: Option<i64>) -> (res: Option<MultiStatsSummary>)
    ensures
        res is None <==> player_sum_overflows(rooms@),
        res matches Some(s) ==> {
            &&& s.active_rooms == rooms.len()
            &&& s.total_players == sum_players(rooms@)
            &&& s.total_completed_rounds == (match completed_rounds {
                Some(c) => c,
                None => 0i64,
            }) as usize
        },
{
    let mut total: i64 = 0;
    let mut i: usize = 0;
    assert(rooms@.take(0) =~= Seq::<DbLiveRoom>::empty());
    while i < rooms.len()
        invariant
            i <= rooms.len(),
            total == sum_players(rooms@.take(i as int)),
            forall|k: int| 0 <= k <= i ==> fits_i64(#[trigger] sum_players(rooms@.take(k))),
        decreases rooms.len() - i,
    {
        assert(rooms@.take(i + 1).drop_last() =~= rooms@.take(i as int));
        let next = total.checked_add(rooms[i].player_count);
        match next {
            Some(t) => {
                total = t;
                i = i + 1;
            },
            None => {
                assert(!fits_i64(sum_players(rooms@.take(i + 1))));
                return None;
            },
        }
    }
    assert(rooms@.take(rooms.len() as int) =~= rooms@);
    let completed: i64 = match completed_rounds {
        Some(c) => c,
        None => 0,
    };
    Some(MultiStatsSummary { active_rooms: rooms.len(), total_players: total, total_completed_rounds: completed as usize })
}

/// The counts shown on the dashboard: those read from the store when that
/// worked, else those of the live rooms on the page with no finished round
/// counted. `None` exactly when the store's counts are missing and adding up
/// the rooms' players leaves the range of `i64`.
pub fn page_stats(stored: Option<MultiStatsSummary>, rooms: &Vec<DbLiveRoom>) -> (res: Option<MultiStatsSummary>)
    ensures
        match stored {
            Some(s) => res == Some(s),
            None => {
                &&& (res is None <==> player_sum_overflows(rooms@))
                &&& (res matches Some(s) ==> {
                    &&& s.active_rooms == rooms.len()
                    &&& s.total_players == sum_players(rooms@)
                    &&& s.total_completed_rounds == 0
                })
            },
        },
{
    match stored {
        Some(s) => Some(s),
        None => summarize_stats(rooms, Some(0)),
    }
}

// ---------------------------------------------------------------------------
// Scores of a set of rounds
// ---------------------------------------------------------------------------

pub const SCORES_QUERY_HEAD: &'static str = "SELECT * FROM multi_scores WHERE game_id IN (";

pub const SCORES_QUERY_TAIL: &'static str = ") ORDER BY score DESC";

/// The ids in decimal, separated by commas.
pub open spec fn joined_ids(ids: Seq<i64>) -> Seq<char>
    decreases ids.len(),
{
    if ids.len() == 0 {
        Seq::<char>::empty()
    } else if ids.len() == 1 {
        decimal(ids[0] as int)
    } else {
        joined_ids(ids.drop_last()) + seq![','] + decimal(ids.last() as int)
    }
}

/// The query that reads the scores of the given rounds, best score first;
/// `None` when there are no rounds, for then there is nothing to read.
pub fn scores_query(game_ids: &Vec<i64>) -> (res: Option<String>)
    ensures
        res is None <==> game_ids.len() == 0,
        res matches Some(q) ==> q@ == SCORES_QUERY_HEAD@ + joined_ids(game_ids@) + SCORES_QUERY_TAIL@,
{
    if game_ids.len() == 0 {
        return None;
    }
    let mut q = String::new();
    q.append(SCORES_QUERY_HEAD);
    let ghost head = q@;
    let mut i: usize = 0;
    assert(game_ids@.take(0) =~= Seq::<i64>::empty());
    while i < game_ids.len()
        invariant
            i <= game_ids.len(),
            head == SCORES_QUERY_HEAD@,
            q@ == head + joined_ids(game_ids@.take(i as int)),
        decreases game_ids.len() - i,
    {
        let ghost t = game_ids@.take(i + 1);
        assert(t.drop_last() =~= game_ids@.take(i as int));
        if i > 0 {
            q.push(',');
        }
        push_decimal(&mut q, game_ids[i]);
        i = i + 1;
        assert(q@ =~= head + joined_ids(t));
    }
    assert(game_ids@.take(game_ids.len() as int) =~= game_ids@);
    q.append(SCORES_QUERY_TAIL);
    Some(q)
}

/// The positions, in order, of the entries of `ids` equal to `key`.
pub open spec fn matching_positions(ids: Seq<i64>, key: i64) -> Seq<usize>
    decreases ids.len(),
{
    if ids.len() == 0 {
        Seq::<usize>::empty()
    } else {
        matching_positions(ids.drop_last(), key) + (if ids.last() == key {
            seq![(ids.len() - 1) as usize]
        } else {
            Seq::<usize>::empty()
        })
    }
}

/// No earlier round has the same id as round `i`.
pub open spec fn is_first_with_id(game_ids: Seq<i64>, i: int) -> bool {
    forall|k: int| 0 <= k < i ==> game_ids[k] != game_ids[i]
}

/// The scores that go with round `i`: all scores of its id, in the order in
/// which they came, if it is the first round with that id; none otherwise
/// (the first round with an id takes its scores).
pub open spec fn score_group(game_ids: Seq<i64>, score_game_ids: Seq<i64>, i: int) -> Seq<usize> {
    if is_first_with_id(game_ids, i) {
        matching_positions(score_game_ids, game_ids[i])
    } else {
        Seq::<usize>::empty()
    }
}

/// Distributes the scores (given by the round id of each, in the order read)
/// over the rounds (given by their ids): entry `i` of the result lists the
/// positions of the scores of round `i`.
pub fn group_scores(game_ids: &Vec<i64>, score_game_ids: &Vec<i64>) -> (res: Vec<Vec<usize>>)
    ensures
        res.len() == game_ids.len(),
        forall|i: int| 0 <= i < game_ids.len() ==> #[trigger] res[i]@ == score_group(game_ids@, score_game_ids@, i),
{
    broadcast use vstd::std_specs::hash::group_hash_axioms;

    // The positions of the scores of each round id, in the order read.
    let mut by_game: HashMap<i64, Vec<usize>> = HashMap::new();
    let mut j: usize = 0;
    assert(score_game_ids@.take(0) =~= Seq::<i64>::empty());
    while j < score_game_ids.len()
        invariant
            j <= score_game_ids.len(),
            forall|key: i64|
                #![trigger by_game@.contains_key(key)]
                #![trigger matching_positions(score_game_ids@.take(j as int), key)]
                (by_game@.contains_key(key) ==> by_game@[key]@ == matching_positions(
                    score_game_ids@.take(j as int),
                    key,
                )) && (!by_game@.contains_key(key) ==> matching_positions(
                    score_game_ids@.take(j as int),
                    key,
                ).len() == 0),
        decreases score_game_ids.len() - j,
    {
        let ghost prev = score_game_ids@.take(j as int);
        let ghost t = score_game_ids@.take(j + 1);
        assert(t.drop_last() =~= prev);
        let id = score_game_ids[j];
        let mut positions = match by_game.remove(&id) {
            Some(v) => v,
            None => Vec::new(),
        };
        assert(positions@ =~= matching_positions(prev, id));
        positions.push(j);
        by_game.insert(id, positions);
        j = j + 1;
        assert forall|key: i64|
            #![trigger by_game@.contains_key(key)]
            #![trigger matching_positions(score_game_ids@.take(j as int), key)]
            (by_game@.contains_key(key) ==> by_game@[key]@ == matching_positions(
                score_game_ids@.take(j as int),
                key,
            )) && (!by_game@.contains_key(key) ==> matching_positions(
                score_game_ids@.take(j as int),
                key,
            ).len() == 0) by {
            assert(matching_positions(t, key) == matching_positions(prev, key) + (if t.last() == key {
                seq![(t.len() - 1) as usize]
            } else {
                Seq::<usize>::empty()
            }));
            if key == id {
                assert(by_game@[key]@ =~= matching_positions(t, key));
            } else {
                assert(matching_positions(t, key) =~= matching_positions(prev, key));
            }
        }
    }
    assert(score_game_ids@.take(score_game_ids.len() as int) =~= score_game_ids@);

    // Each round takes the scores of its id; a later round with the same id
    // finds them taken.
    let mut res: Vec<Vec<usize>> = Vec::new();
    let mut i: usize = 0;
    while i < game_ids.len()
        invariant
            i <= game_ids.len(),
            res.len() == i,
            forall|k: int| 0 <= k < i ==> #[trigger] res[k]@ == score_group(game_ids@, score_game_ids@, k),
            forall|key: i64|
                #![trigger by_game@.contains_key(key)]
                #![trigger matching_positions(score_game_ids@, key)]
                (exists|k: int| 0 <= k < i && game_ids@[k] == key) ==> !by_game@.contains_key(key),
            forall|key: i64|
                #![trigger by_game@.contains_key(key)]
                #![trigger matching_positions(score_game_ids@, key)]
                !(exists|k: int| 0 <= k < i && game_ids@[k] == key) ==> {
                    &&& by_game@.contains_key(key) ==> by_game@[key]@ == matching_positions(score_game_ids@, key)
                    &&& !by_game@.contains_key(key) ==> matching_positions(score_game_ids@, key).len() == 0
                },
        decreases game_ids.len() - i,
    {
        let id = game_ids[i];
        let ghost seen = exists|k: int| 0 <= k < i && game_ids@[k] == id;
        let positions = match by_game.remove(&id) {
            Some(v) => v,
            None => Vec::new(),
        };
        proof {
            if seen {
                let k = choose|k: int| 0 <= k < i && game_ids@[k] == id;
                assert(!is_first_with_id(game_ids@, i as int));
                assert(positions@ =~= score_group(game_ids@, score_game_ids@, i as int));
            } else {
                assert(is_first_with_id(game_ids@, i as int));
                assert(positions@ =~= score_group(game_ids@, score_game_ids@, i as int));
            }
        }
        res.push(positions);
        i = i + 1;
        assert forall|key: i64|
            #![trigger by_game@.contains_key(key)]
            #![trigger matching_positions(score_game_ids@, key)]
            (exists|k: int| 0 <= k < i && game_ids@[k] == key) implies !by_game@.contains_key(key) by {
            if key != id {
                let k = choose|k: int| 0 <= k < i && game_ids@[k] == key;
                assert(k < i - 1);
            }
        }
        assert forall|key: i64|
            #![trigger by_game@.contains_key(key)]
            #![trigger matching_positions(score_game_ids@, key)]
            !(exists|k: int| 0 <= k < i && game_ids@[k] == key) implies {
                &&& by_game@.contains_key(key) ==> by_game@[key]@ == matching_positions(score_game_ids@, key)
                &&& !by_game@.contains_key(key) ==> matching_positions(score_game_ids@, key).len() == 0
            } by {
            assert(game_ids@[i - 1] == id);
            assert(key != id);
            assert(!(exists|k: int| 0 <= k < i - 1 && game_ids@[k] == key));
        }
    }
    res
}

// ---------------------------------------------------------------------------
// Laws
// ---------------------------------------------------------------------------

proof fn lemma_matching_positions(ids: Seq<i64>, key: i64)
    requires
        ids.len() <= usize::MAX,
    ensures
        forall|p: int| 0 <= p < matching_positions(ids, key).len() ==> {
            let j = #[trigger] matching_positions(ids, key)[p] as int;
            0 <= j < ids.len() && ids[j] == key
        },
        forall|j: int| 0 <= j < ids.len() && ids[j] == key ==> #[trigger] matching_positions(ids, key).contains(j as usize),
        forall|p: int, q: int| 0 <= p < q < matching_positions(ids, key).len() ==>
            matching_positions(ids, key)[p] < matching_positions(ids, key)[q],
    decreases ids.len(),
{
    if ids.len() > 0 {
        let d = ids.drop_last();
        lemma_matching_positions(d, key);
        let a = matching_positions(d, key);
        let m = matching_positions(ids, key);
        assert forall|p: int| 0 <= p < m.len() implies {
            let j = #[trigger] m[p] as int;
            0 <= j < ids.len() && ids[j] == key
        } by {
            if p < a.len() {
                assert(m[p] == a[p]);
                assert(ids[a[p] as int] == d[a[p] as int]);
            }
        }
        assert forall|j: int| 0 <= j < ids.len() && ids[j] == key implies #[trigger] m.contains(j as usize) by {
            if j < ids.len() - 1 {
                assert(d[j] == ids[j]);
                assert(a.contains(j as usize));
                let p = choose|p: int| 0 <= p < a.len() && a[p] == j as usize;
                assert(m[p] == a[p]);
            } else {
                assert(m[a.len() as int] == j as usize);
            }
        }
        assert forall|p: int, q: int| 0 <= p < q < m.len() implies m[p] < m[q] by {
            if q < a.len() {
                assert(m[p] == a[p] && m[q] == a[q]);
            } else {
                assert(m[p] == a[p]);
                assert(0 <= a[p] < d.len());
                assert(m[q] == (ids.len() - 1) as usize);
            }
        }
    }
}

/// Every score lands in exactly one round when some round has its id (the
/// first such round) and in none otherwise; within a round, scores keep the
/// order in which they were read.
pub proof fn law_each_score_in_one_round(game_ids: Seq<i64>, score_game_ids: Seq<i64>, j: int)
    requires
        0 <= j < score_game_ids.len() <= usize::MAX,
    ensures
        forall|i: int| 0 <= i < game_ids.len() ==>
            (#[trigger] score_group(game_ids, score_game_ids, i).contains(j as usize)
                <==> (game_ids[i] == score_game_ids[j] && is_first_with_id(game_ids, i))),
        forall|i: int, p: int, q: int| 0 <= i < game_ids.len() && 0 <= p < q < score_group(game_ids, score_game_ids, i).len()
            ==> #[trigger] score_group(game_ids, score_game_ids, i)[p] < #[trigger] score_group(game_ids, score_game_ids, i)[q],
{
    assert forall|i: int| 0 <= i < game_ids.len() implies
        (#[trigger] score_group(game_ids, score_game_ids, i).contains(j as usize)
            <==> (game_ids[i] == score_game_ids[j] && is_first_with_id(game_ids, i))) by {
        lemma_matching_positions(score_game_ids, game_ids[i]);
        let g = score_group(game_ids, score_game_ids, i);
        if g.contains(j as usize) {
            let p = choose|p: int| 0 <= p < g.len() && g[p] == j as usize;
            assert(is_first_with_id(game_ids, i));
        }
    }
    assert forall|i: int, p: int, q: int| 0 <= i < game_ids.len() && 0 <= p < q < score_group(game_ids, score_game_ids, i).len()
        implies #[trigger] score_group(game_ids, score_game_ids, i)[p] < #[trigger] score_group(game_ids, score_game_ids, i)[q] by {
        lemma_matching_positions(score_game_ids, game_ids[i]);
    }
}

/// The statistics count every live room, and add up all their players.
pub proof fn law_stats_sum_of_rooms(rooms: Seq<DbLiveRoom>, room: DbLiveRoom)
    ensures
        sum_players(rooms.push(room)) == sum_players(rooms) + room.player_count,
        sum_players(Seq::<DbLiveRoom>::empty()) == 0,
{
    assert(rooms.push(room).drop_last() =~= rooms);
}

/// The `IN` list of the scores query names exactly the given rounds: cut at
/// its commas it falls into one piece per id, in order, each the id's plain
/// decimal text (`law_decimal_is_display` says what that text is).
pub proof fn law_scores_query_lists_each_id(ids: Seq<i64>)
    requires
        ids.len() >= 1,
    ensures
        comma_pieces(joined_ids(ids)).len() == ids.len(),
        forall|k: int| 0 <= k < ids.len() ==> #[trigger] comma_pieces(joined_ids(ids))[k] == decimal(ids[k] as int),
    decreases ids.len(),
{
    if ids.len() == 1 {
        lemma_decimal_comma_free(ids[0] as int);
        lemma_comma_pieces_of_free(decimal(ids[0] as int));
    } else {
        let d = ids.drop_last();
        law_scores_query_lists_each_id(d);
        lemma_decimal_comma_free(ids.last() as int);
        lemma_comma_pieces_separated(joined_ids(d), decimal(ids.last() as int));
        let p = comma_pieces(joined_ids(d));
        assert forall|k: int| 0 <= k < ids.len() implies #[trigger] comma_pieces(joined_ids(ids))[k] == decimal(
            ids[k] as int,
        ) by {
            if k < d.len() {
                assert(comma_pieces(joined_ids(ids))[k] == p[k]);
                assert(d[k] == ids[k]);
            }
        }
    }
}

} // verus!
