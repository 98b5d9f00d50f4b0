//! The live multiplayer dashboard: the names of the game settings and the
//! HTML page built from the live rooms, their slots and their finished rounds.

use vstd::prelude::*;
use crate::model::{DbLiveRoom, DbMultiGame, LiveSlotInfo, MultiStatsSummary};
use crate::templates::{
    EMPTY_ROOMS_HTML, BADGE_IN_MATCH, BADGE_WAITING, MAP_LINK_OPEN, MAP_LINK_MID, MAP_LINK_CLOSE, MAP_NAME_OPEN, MAP_NAME_CLOSE, PILL_NOT_READY, PILL_READY, PILL_PLAYING, PILL_COMPLETED, PILL_OPEN, DOT_TEAM_ONE, DOT_TEAM_TWO, SLOT_0, SLOT_1, SLOT_2, SLOT_3, SLOT_4, HISTORY_OPEN, WINNER_OPEN, WINNER_CLOSE, SCORE_0, SCORE_1, SCORE_2, SCORE_3, SCORE_4, ROUND_0, ROUND_1, ROUND_2, ROUND_3, ROUND_4, ROOM_0, ROOM_1, ROOM_2, ROOM_3, ROOM_4, ROOM_5, ROOM_6, ROOM_7, ROOM_8, ROOM_9, ROOM_10, ROOM_11, PAGE_0, PAGE_1, PAGE_2, PAGE_3, PAGE_4, PAGE_5, PAGE_6, HISTORY_CLOSE, PASS_MARK, FAIL_MARK,
};
use crate::text::{
    decimal, digits_of, escaped, format_number, group_thousands, lemma_markup_of_concat,
    lemma_markup_of_escaped, markup_of, push_decimal, push_digits, push_escaped, push_zero_padded2,
    zero_padded2,
};

verus! {

// ---------------------------------------------------------------------------
// Names of the game settings
// ---------------------------------------------------------------------------

pub open spec fn spec_mode_name(mode: i64) -> Seq<char> {
    if mode == 0 {
        "osu! Standard"@
    } else if mode == 1 {
        "Taiko"@
    } else if mode == 2 {
        "Catch"@
    } else if mode == 3 {
        "osu!mania"@
    } else {
        "osu!"@
    }
}

pub open spec fn spec_scoring_name(st: i64) -> Seq<char> {
    if st == 1 {
        "Accuracy"@
    } else if st == 2 {
        "Combo"@
    } else if st == 3 {
        "Score V2"@
    } else {
        "Score"@
    }
}

pub open spec fn spec_team_name(tt: i64) -> Seq<char> {
    if tt == 1 {
        "Tag Co-op"@
    } else if tt == 2 {
        "Team VS"@
    } else if tt == 3 {
        "Tag Team VS"@
    } else {
        "Head to Head"@
    }
}

/// The display name of a game mode; an unknown mode is shown as `osu!`.
pub fn get_multi_mode_name(mode: i64) -> (name: &'static str)
    ensures
        name@ == spec_mode_name(mode),
{
    match mode {
        0 => "osu! Standard",
        1 => "Taiko",
        2 => "Catch",
        3 => "osu!mania",
        _ => "osu!",
    }
}

/// The display name of a scoring type; an unknown one is shown as `Score`.
pub fn get_multi_scoring_name(st: i64) -> (name: &'static str)
    ensures
        name@ == spec_scoring_name(st),
{
    match st {
        0 => "Score",
        1 => "Accuracy",
        2 => "Combo",
        3 => "Score V2",
        _ => "Score",
    }
}

/// The display name of a team type; an unknown one is shown as `Head to Head`.
pub fn get_multi_team_name(tt: i64) -> (name: &'static str)
    ensures
        name@ == spec_team_name(tt),
{
    match tt {
        0 => "Head to Head",
        1 => "Tag Co-op",
        2 => "Team VS",
        3 => "Tag Team VS",
        _ => "Head to Head",
    }
}

// ---------------------------------------------------------------------------
// What a page shows
// ---------------------------------------------------------------------------

/// One score of a finished round, as the dashboard shows it; the accuracy is
/// already written as text with one decimal.
#[derive(Debug, Clone)]
pub struct ScoreLine {
    pub username: String,
    pub score: i64,
    pub accuracy_text: String,
    pub passed: i64,
}

/// A finished round with its scores, best first.
#[derive(Debug, Clone)]
pub struct RoundCard {
    pub game: DbMultiGame,
    pub scores: Vec<ScoreLine>,
}

/// A live room with its slots and its finished rounds, most recent first.
#[derive(Debug, Clone)]
pub struct RoomCard {
    pub room: DbLiveRoom,
    pub slots: Vec<LiveSlotInfo>,
    pub games: Vec<RoundCard>,
}

pub open spec fn status_badge(in_progress: i64) -> Seq<char> {
    if in_progress == 1 {
        BADGE_IN_MATCH@
    } else {
        BADGE_WAITING@
    }
}

pub open spec fn map_link(r: DbLiveRoom) -> Seq<char> {
    if r.beatmap_id > 0 {
        MAP_LINK_OPEN@ + decimal(r.beatmap_id as int) + MAP_LINK_MID@ + escaped(r.beatmap_name@) + MAP_LINK_CLOSE@
    } else {
        MAP_NAME_OPEN@ + escaped(r.beatmap_name@) + MAP_NAME_CLOSE@
    }
}

pub open spec fn status_pill(status: u8) -> Seq<char> {
    if status == 1 {
        PILL_NOT_READY@
    } else if status == 2 {
        PILL_READY@
    } else if status == 4 {
        PILL_PLAYING@
    } else if status == 8 {
        PILL_COMPLETED@
    } else {
        PILL_OPEN@
    }
}

pub open spec fn team_dot(team: u8) -> Seq<char> {
    if team == 1 {
        DOT_TEAM_ONE@
    } else if team == 2 {
        DOT_TEAM_TWO@
    } else {
        Seq::<char>::empty()
    }
}

/// A slot's card; slots are numbered from 1.
pub open spec fn slot_html(s: LiveSlotInfo) -> Seq<char> {
    SLOT_0@ + zero_padded2((s.slot_id + 1) as nat) + SLOT_1@ + team_dot(s.team) + SLOT_2@ + escaped(s.username@)
        + SLOT_3@ + status_pill(s.status) + SLOT_4@
}

pub open spec fn slots_html(slots: Seq<LiveSlotInfo>) -> Seq<char>
    decreases slots.len(),
{
    if slots.len() == 0 {
        Seq::<char>::empty()
    } else {
        slots_html(slots.drop_last()) + slot_html(slots.last())
    }
}

pub open spec fn pass_mark(passed: i64) -> Seq<char> {
    if passed == 1 {
        PASS_MARK@
    } else {
        FAIL_MARK@
    }
}

pub open spec fn score_html(s: ScoreLine) -> Seq<char> {
    SCORE_0@ + escaped(s.username@) + SCORE_1@ + group_thousands(decimal(s.score as int)) + SCORE_2@
        + s.accuracy_text@ + SCORE_3@ + pass_mark(s.passed) + SCORE_4@
}

pub open spec fn scores_html(scores: Seq<ScoreLine>) -> Seq<char>
    decreases scores.len(),
{
    if scores.len() == 0 {
        Seq::<char>::empty()
    } else {
        scores_html(scores.drop_last()) + score_html(scores.last())
    }
}

pub open spec fn winner_badge(g: DbMultiGame) -> Seq<char> {
    if g.winner_name@.len() != 0 {
        WINNER_OPEN@ + escaped(g.winner_name@) + WINNER_CLOSE@
    } else {
        Seq::<char>::empty()
    }
}

/// A round's card, under its number.
pub open spec fn round_html(r: RoundCard, number: int) -> Seq<char> {
    ROUND_0@ + decimal(number) + ROUND_1@ + escaped(r.game.beatmap_name@) + ROUND_2@ + winner_badge(r.game)
        + ROUND_3@ + scores_html(r.scores@) + ROUND_4@
}

/// The cards of the first `n` rounds; the rounds are numbered from the
/// number of rounds down to 1, the most recent (first) having the highest.
pub open spec fn rounds_html(games: Seq<RoundCard>, n: int) -> Seq<char>
    decreases n,
{
    if n <= 0 {
        Seq::<char>::empty()
    } else {
        rounds_html(games, n - 1) + round_html(games[n - 1], games.len() - (n - 1))
    }
}

pub open spec fn history_html(games: Seq<RoundCard>) -> Seq<char> {
    if games.len() == 0 {
        Seq::<char>::empty()
    } else {
        HISTORY_OPEN@ + rounds_html(games, games.len() as int) + HISTORY_CLOSE@
    }
}

/// The top of a room's card: name, number, host and status.
pub open spec fn room_head_html(r: DbLiveRoom) -> Seq<char> {
    ROOM_0@ + escaped(r.name@) + ROOM_1@ + decimal(r.match_id as int) + ROOM_2@ + escaped(r.host_name@)
        + ROOM_3@ + status_badge(r.in_progress) + ROOM_4@
}

/// The settings of a room's card: beatmap, mode, rules and player count.
pub open spec fn room_settings_html(r: DbLiveRoom) -> Seq<char> {
    map_link(r) + ROOM_5@ + spec_mode_name(r.mode) + ROOM_6@ + spec_scoring_name(r.scoring_type) + ROOM_7@
        + spec_team_name(r.team_type) + ROOM_8@ + decimal(r.player_count as int) + ROOM_9@
}

/// A live room's card.
pub open spec fn room_html(c: RoomCard) -> Seq<char> {
    room_head_html(c.room) + room_settings_html(c.room) + slots_html(c.slots@) + ROOM_10@ + history_html(c.games@)
        + ROOM_11@
}

pub open spec fn room_cards_html(rooms: Seq<RoomCard>) -> Seq<char>
    decreases rooms.len(),
{
    if rooms.len() == 0 {
        Seq::<char>::empty()
    } else {
        room_cards_html(rooms.drop_last()) + room_html(rooms.last())
    }
}

/// All room cards, or the notice that no room is live.
pub open spec fn rooms_html(rooms: Seq<RoomCard>) -> Seq<char> {
    if rooms.len() == 0 {
        EMPTY_ROOMS_HTML@
    } else {
        room_cards_html(rooms)
    }
}

/// The whole dashboard page.
pub open spec fn multi_page(server_name: Seq<char>, stats: MultiStatsSummary, rooms: Seq<RoomCard>) -> Seq<char> {
    PAGE_0@ + escaped(server_name) + PAGE_1@ + decimal(stats.active_rooms as int) + PAGE_2@ + decimal(
        stats.total_players as int,
    ) + PAGE_3@ + decimal(stats.total_completed_rounds as int) + PAGE_4@ + rooms_html(rooms) + PAGE_5@
        + escaped(server_name) + PAGE_6@
}

/// Every slot of every room can be numbered (its id plus one fits in `usize`).
pub open spec fn slots_numbered(rooms: Seq<RoomCard>) -> bool {
    forall|i: int, j: int|
        0 <= i < rooms.len() && 0 <= j < rooms[i].slots.len() ==> #[trigger] rooms[i].slots@[j].slot_id
            < usize::MAX
}

// ---------------------------------------------------------------------------
// Building a page
// ---------------------------------------------------------------------------

fn push_usize(out: &mut String, n: usize)
    ensures
        final(out)@ == old(out)@ + decimal(n as int),
{
    push_digits(out, n as u64);
}

fn push_slot(out: &mut String, s: &LiveSlotInfo)
    requires
        s.slot_id < usize::MAX,
    ensures
        final(out)@ == old(out)@ + slot_html(*s),
{
    let ghost o = out@;
    out.append(SLOT_0);
    push_zero_padded2(out, (s.slot_id + 1) as u64);
    out.append(SLOT_1);
    let dot: &str = match s.team {
        1 => DOT_TEAM_ONE,
        2 => DOT_TEAM_TWO,
        _ => "",
    };
    proof {
        reveal_strlit("");
    }
    assert(dot@ == team_dot(s.team));
    out.append(dot);
    out.append(SLOT_2);
    push_escaped(out, s.username.as_str());
    out.append(SLOT_3);
    let pill: &str = match s.status {
        1 => PILL_NOT_READY,
        2 => PILL_READY,
        4 => PILL_PLAYING,
        8 => PILL_COMPLETED,
        _ => PILL_OPEN,
    };
    assert(pill@ == status_pill(s.status));
    out.append(pill);
    out.append(SLOT_4);
    assert(out@ =~= o + slot_html(*s));
}

fn push_slots(out: &mut String, slots: &Vec<LiveSlotInfo>)
    requires
        forall|j: int| 0 <= j < slots.len() ==> #[trigger] slots@[j].slot_id < usize::MAX,
    ensures
        final(out)@ == old(out)@ + slots_html(slots@),
{
    let ghost o = out@;
    let mut i: usize = 0;
    assert(slots@.take(0) =~= Seq::<LiveSlotInfo>::empty());
    while i < slots.len()
        invariant
            i <= slots.len(),
            forall|j: int| 0 <= j < slots.len() ==> #[trigger] slots@[j].slot_id < usize::MAX,
            out@ == o + slots_html(slots@.take(i as int)),
        decreases slots.len() - i,
    {
        let ghost t = slots@.take(i + 1);
        assert(t.drop_last() =~= slots@.take(i as int));
        push_slot(out, &slots[i]);
        i = i + 1;
        assert(out@ =~= o + slots_html(t));
    }
    assert(slots@.take(slots.len() as int) =~= slots@);
}

fn push_score(out: &mut String, s: &ScoreLine)
    ensures
        final(out)@ == old(out)@ + score_html(*s),
{
    let ghost o = out@;
    out.append(SCORE_0);
    push_escaped(out, s.username.as_str());
    out.append(SCORE_1);
    let grouped = format_number(s.score);
    out.append(grouped.as_str());
    out.append(SCORE_2);
    out.append(s.accuracy_text.as_str());
    out.append(SCORE_3);
    if s.passed == 1 {
        out.append(PASS_MARK);
    } else {
        out.append(FAIL_MARK);
    }
    out.append(SCORE_4);
    assert(out@ =~= o + score_html(*s));
}

fn push_scores(out: &mut String, scores: &Vec<ScoreLine>)
    ensures
        final(out)@ == old(out)@ + scores_html(scores@),
{
    let ghost o = out@;
    let mut i: usize = 0;
    assert(scores@.take(0) =~= Seq::<ScoreLine>::empty());
    while i < scores.len()
        invariant
            i <= scores.len(),
            out@ == o + scores_html(scores@.take(i as int)),
        decreases scores.len() - i,
    {
        let ghost t = scores@.take(i + 1);
        assert(t.drop_last() =~= scores@.take(i as int));
        push_score(out, &scores[i]);
        i = i + 1;
        assert(out@ =~= o + scores_html(t));
    }
    assert(scores@.take(scores.len() as int) =~= scores@);
}

fn push_round(out: &mut String, r: &RoundCard, number: usize)
    ensures
        final(out)@ == old(out)@ + round_html(*r, number as int),
{
    let ghost o = out@;
    out.append(ROUND_0);
    push_usize(out, number);
    out.append(ROUND_1);
    push_escaped(out, r.game.beatmap_name.as_str());
    out.append(ROUND_2);
    if !r.game.winner_name.as_str().is_empty() {
        out.append(WINNER_OPEN);
        push_escaped(out, r.game.winner_name.as_str());
        out.append(WINNER_CLOSE);
    }
    out.append(ROUND_3);
    push_scores(out, &r.scores);
    out.append(ROUND_4);
    assert(out@ =~= o + round_html(*r, number as int));
}

fn push_history(out: &mut String, games: &Vec<RoundCard>)
    ensures
        final(out)@ == old(out)@ + history_html(games@),
{
    if games.len() == 0 {
        assert(out@ =~= old(out)@ + history_html(games@));
        return;
    }
    let ghost o = out@;
    out.append(HISTORY_OPEN);
    let ghost h = out@;
    let mut i: usize = 0;
    while i < games.len()
        invariant
            i <= games.len(),
            out@ == h + rounds_html(games@, i as int),
        decreases games.len() - i,
    {
        push_round(out, &games[i], games.len() - i);
        i = i + 1;
        assert(out@ =~= h + rounds_html(games@, i as int));
    }
    out.append(HISTORY_CLOSE);
    assert(out@ =~= o + history_html(games@));
}

fn push_room_head(out: &mut String, r: &DbLiveRoom)
    ensures
        final(out)@ == old(out)@ + room_head_html(*r),
{
    let ghost o = out@;
    out.append(ROOM_0);
    push_escaped(out, r.name.as_str());
    out.append(ROOM_1);
    push_decimal(out, r.match_id);
    out.append(ROOM_2);
    push_escaped(out, r.host_name.as_str());
    out.append(ROOM_3);
    if r.in_progress == 1 {
        out.append(BADGE_IN_MATCH);
    } else {
        out.append(BADGE_WAITING);
    }
    out.append(ROOM_4);
    assert(out@ =~= o + room_head_html(*r));
}

fn push_map_link(out: &mut String, r: &DbLiveRoom)
    ensures
        final(out)@ == old(out)@ + map_link(*r),
{
    let ghost o = out@;
    if r.beatmap_id > 0 {
        out.append(MAP_LINK_OPEN);
        push_decimal(out, r.beatmap_id);
        out.append(MAP_LINK_MID);
        push_escaped(out, r.beatmap_name.as_str());
        out.append(MAP_LINK_CLOSE);
    } else {
        out.append(MAP_NAME_OPEN);
        push_escaped(out, r.beatmap_name.as_str());
        out.append(MAP_NAME_CLOSE);
    }
    assert(out@ =~= o + map_link(*r));
}

fn push_room_settings(out: &mut String, r: &DbLiveRoom)
    ensures
        final(out)@ == old(out)@ + room_settings_html(*r),
{
    let ghost o = out@;
    push_map_link(out, r);
    out.append(ROOM_5);
    out.append(get_multi_mode_name(r.mode));
    out.append(ROOM_6);
    out.append(get_multi_scoring_name(r.scoring_type));
    out.append(ROOM_7);
    out.append(get_multi_team_name(r.team_type));
    out.append(ROOM_8);
    push_decimal(out, r.player_count);
    out.append(ROOM_9);
    assert(out@ =~= o + room_settings_html(*r));
}

fn push_room(out: &mut String, c: &RoomCard)
    requires
        forall|j: int| 0 <= j < c.slots.len() ==> #[trigger] c.slots@[j].slot_id < usize::MAX,
    ensures
        final(out)@ == old(out)@ + room_html(*c),
{
    let ghost o = out@;
    push_room_head(out, &c.room);
    push_room_settings(out, &c.room);
    push_slots(out, &c.slots);
    out.append(ROOM_10);
    push_history(out, &c.games);
    out.append(ROOM_11);
    assert(out@ =~= o + room_html(*c));
}

fn push_rooms(out: &mut String, rooms: &Vec<RoomCard>)
    requires
        slots_numbered(rooms@),
    ensures
        final(out)@ == old(out)@ + rooms_html(rooms@),
{
    if rooms.len() == 0 {
        out.append(EMPTY_ROOMS_HTML);
        return;
    }
    let ghost o = out@;
    let mut i: usize = 0;
    assert(rooms@.take(0) =~= Seq::<RoomCard>::empty());
    while i < rooms.len()
        invariant
            i <= rooms.len(),
            slots_numbered(rooms@),
            out@ == o + room_cards_html(rooms@.take(i as int)),
        decreases rooms.len() - i,
    {
        let ghost t = rooms@.take(i + 1);
        assert(t.drop_last() =~= rooms@.take(i as int));
        push_room(out, &rooms[i]);
        i = i + 1;
        assert(out@ =~= o + room_cards_html(t));
    }
    assert(rooms@.take(rooms.len() as int) =~= rooms@);
}

/// Renders the live multiplayer dashboard: the server's name, the counts of
/// `stats`, and a card per live room with its slots and finished rounds (or a
/// notice that no room is live). Every text that comes from a user is escaped.
pub fn render_multi_page(server_name: &str, stats: &MultiStatsSummary, rooms: &Vec<RoomCard>) -> (page: String)
    requires
        slots_numbered(rooms@),
    ensures
        page@ == multi_page(server_name@, *stats, rooms@),
{
    let mut page = String::new();
    page.append(PAGE_0);
    push_escaped(&mut page, server_name);
    page.append(PAGE_1);
    push_usize(&mut page, stats.active_rooms);
    page.append(PAGE_2);
    push_decimal(&mut page, stats.total_players);
    page.append(PAGE_3);
    push_usize(&mut page, stats.total_completed_rounds);
    page.append(PAGE_4);
    push_rooms(&mut page, rooms);
    page.append(PAGE_5);
    push_escaped(&mut page, server_name);
    page.append(PAGE_6);
    assert(page@ =~= multi_page(server_name@, *stats, rooms@));
    page
}

// ---------------------------------------------------------------------------
// Escaping of the page as a whole
// ---------------------------------------------------------------------------

/// Two slots that differ at most in texts a user chose (the player's name)
/// and in what the page does not show.
pub open spec fn same_slot_shape(a: LiveSlotInfo, b: LiveSlotInfo) -> bool {
    a.slot_id == b.slot_id && a.team == b.team && a.status == b.status
}

/// Two score lines that differ at most in the player's name.
pub open spec fn same_score_shape(a: ScoreLine, b: ScoreLine) -> bool {
    a.score == b.score && a.accuracy_text == b.accuracy_text && a.passed == b.passed
}

/// Two rounds that differ at most in the beatmap's and the winner's names
/// (with a winner named on both or on neither) and in their scores' names.
pub open spec fn same_round_shape(a: RoundCard, b: RoundCard) -> bool {
    &&& (a.game.winner_name@.len() == 0) == (b.game.winner_name@.len() == 0)
    &&& a.scores.len() == b.scores.len()
    &&& forall|k: int| 0 <= k < a.scores.len() ==> same_score_shape(#[trigger] a.scores@[k], b.scores@[k])
}

/// Two rooms that differ at most in the room's, host's and beatmap's names
/// and in the names within their slots and rounds.
pub open spec fn same_room_shape(a: RoomCard, b: RoomCard) -> bool {
    &&& a.room.match_id == b.room.match_id
    &&& a.room.in_progress == b.room.in_progress
    &&& a.room.beatmap_id == b.room.beatmap_id
    &&& a.room.mode == b.room.mode
    &&& a.room.scoring_type == b.room.scoring_type
    &&& a.room.team_type == b.room.team_type
    &&& a.room.player_count == b.room.player_count
    &&& a.slots.len() == b.slots.len()
    &&& forall|k: int| 0 <= k < a.slots.len() ==> same_slot_shape(#[trigger] a.slots@[k], b.slots@[k])
    &&& a.games.len() == b.games.len()
    &&& forall|k: int| 0 <= k < a.games.len() ==> same_round_shape(#[trigger] a.games@[k], b.games@[k])
}

proof fn lemma_slots_markup(a: Seq<LiveSlotInfo>, b: Seq<LiveSlotInfo>)
    requires
        a.len() == b.len(),
        forall|k: int| 0 <= k < a.len() ==> same_slot_shape(#[trigger] a[k], b[k]),
    ensures
        markup_of(slots_html(a)) == markup_of(slots_html(b)),
    decreases a.len(),
{
    broadcast use lemma_markup_of_concat, lemma_markup_of_escaped;

    if a.len() > 0 {
        lemma_slots_markup(a.drop_last(), b.drop_last());
        assert(same_slot_shape(a[a.len() - 1], b[b.len() - 1]));
        assert(markup_of(slot_html(a.last())) == markup_of(slot_html(b.last())));
    }
}

proof fn lemma_scores_markup(a: Seq<ScoreLine>, b: Seq<ScoreLine>)
    requires
        a.len() == b.len(),
        forall|k: int| 0 <= k < a.len() ==> same_score_shape(#[trigger] a[k], b[k]),
    ensures
        markup_of(scores_html(a)) == markup_of(scores_html(b)),
    decreases a.len(),
{
    broadcast use lemma_markup_of_concat, lemma_markup_of_escaped;

    if a.len() > 0 {
        lemma_scores_markup(a.drop_last(), b.drop_last());
        assert(same_score_shape(a[a.len() - 1], b[b.len() - 1]));
        assert(markup_of(score_html(a.last())) == markup_of(score_html(b.last())));
    }
}

proof fn lemma_round_markup(a: RoundCard, b: RoundCard, number: int)
    requires
        same_round_shape(a, b),
    ensures
        markup_of(round_html(a, number)) == markup_of(round_html(b, number)),
{
    broadcast use lemma_markup_of_concat, lemma_markup_of_escaped;

    lemma_scores_markup(a.scores@, b.scores@);
    assert(markup_of(winner_badge(a.game)) == markup_of(winner_badge(b.game)));
}

proof fn lemma_rounds_markup(a: Seq<RoundCard>, b: Seq<RoundCard>, n: int)
    requires
        a.len() == b.len(),
        n <= a.len(),
        forall|k: int| 0 <= k < a.len() ==> same_round_shape(#[trigger] a[k], b[k]),
    ensures
        markup_of(rounds_html(a, n)) == markup_of(rounds_html(b, n)),
    decreases n,
{
    broadcast use lemma_markup_of_concat;

    if n > 0 {
        lemma_rounds_markup(a, b, n - 1);
        assert(same_round_shape(a[n - 1], b[n - 1]));
        lemma_round_markup(a[n - 1], b[n - 1], a.len() - (n - 1));
    }
}

proof fn lemma_room_markup(a: RoomCard, b: RoomCard)
    requires
        same_room_shape(a, b),
    ensures
        markup_of(room_html(a)) == markup_of(room_html(b)),
{
    broadcast use lemma_markup_of_concat, lemma_markup_of_escaped;

    lemma_slots_markup(a.slots@, b.slots@);
    lemma_rounds_markup(a.games@, b.games@, a.games.len() as int);
    assert(markup_of(history_html(a.games@)) == markup_of(history_html(b.games@)));
    assert(markup_of(map_link(a.room)) == markup_of(map_link(b.room)));
    assert(markup_of(room_head_html(a.room)) == markup_of(room_head_html(b.room)));
    assert(markup_of(room_settings_html(a.room)) == markup_of(room_settings_html(b.room)));
}

proof fn lemma_room_cards_markup(a: Seq<RoomCard>, b: Seq<RoomCard>)
    requires
        a.len() == b.len(),
        forall|k: int| 0 <= k < a.len() ==> same_room_shape(#[trigger] a[k], b[k]),
    ensures
        markup_of(room_cards_html(a)) == markup_of(room_cards_html(b)),
    decreases a.len(),
{
    broadcast use lemma_markup_of_concat;

    if a.len() > 0 {
        lemma_room_cards_markup(a.drop_last(), b.drop_last());
        assert(same_room_shape(a[a.len() - 1], b[b.len() - 1]));
        lemma_room_markup(a.last(), b.last());
    }
}

/// Every text that a user chose (the server's configured name, a room's,
/// host's or beatmap's name, a player's name in a slot or a score, a round's
/// beatmap or winner) goes into the page escaped, so none of them adds a `<`,
/// `>`, `"` or `'` to it: two pages whose data differ only in such texts (a
/// winner being named on both or on neither) hold the same markup characters,
/// in the same order.
pub proof fn law_user_text_adds_no_markup(
    name_a: Seq<char>,
    name_b: Seq<char>,
    stats: MultiStatsSummary,
    rooms_a: Seq<RoomCard>,
    rooms_b: Seq<RoomCard>,
)
    requires
        rooms_a.len() == rooms_b.len(),
        forall|k: int| 0 <= k < rooms_a.len() ==> same_room_shape(#[trigger] rooms_a[k], rooms_b[k]),
    ensures
        markup_of(multi_page(name_a, stats, rooms_a)) == markup_of(multi_page(name_b, stats, rooms_b)),
{
    broadcast use lemma_markup_of_concat, lemma_markup_of_escaped;

    lemma_room_cards_markup(rooms_a, rooms_b);
    assert(markup_of(rooms_html(rooms_a)) == markup_of(rooms_html(rooms_b)));
}

// ---------------------------------------------------------------------------
// What the page says where
// ---------------------------------------------------------------------------

/// The counts chips of the page: right after the escaped server name the
/// page reads "Active Rooms" with the number of live rooms, "Players in
/// Multi" with the number of players, and "Completed Rounds" with the number
/// of finished rounds, each as its decimal text; and the page ends with the
/// footer naming the server again, escaped.
pub proof fn law_page_shows_counts(name: Seq<char>, stats: MultiStatsSummary, rooms: Seq<RoomCard>)
    ensures
        ({
            let page = multi_page(name, stats, rooms);
            let head = PAGE_0@ + escaped(name) + PAGE_1@ + decimal(stats.active_rooms as int) + PAGE_2@ + decimal(
                stats.total_players as int,
            ) + PAGE_3@ + decimal(stats.total_completed_rounds as int) + PAGE_4@;
            let foot = PAGE_5@ + escaped(name) + PAGE_6@;
            &&& page.len() >= head.len() + foot.len()
            &&& page.subrange(0, head.len() as int) == head
            &&& page.subrange(page.len() - foot.len(), page.len() as int) == foot
        }),
        PAGE_1@ == r###"</b>.</p>

            <div class="chip-bar">
                <div class="chip">Active Rooms: <b style="color: #f472b6;">"###@,
        PAGE_2@ == r###"</b></div>
                <div class="chip">Players in Multi: <b>"###@,
        PAGE_3@ == r###"</b></div>
                <div class="chip">Completed Rounds: <b>"###@,
{
    let page = multi_page(name, stats, rooms);
    let head = PAGE_0@ + escaped(name) + PAGE_1@ + decimal(stats.active_rooms as int) + PAGE_2@ + decimal(
        stats.total_players as int,
    ) + PAGE_3@ + decimal(stats.total_completed_rounds as int) + PAGE_4@;
    let foot = PAGE_5@ + escaped(name) + PAGE_6@;
    let mid = rooms_html(rooms);
    assert(page =~= head + mid + foot);
    assert(page.subrange(0, head.len() as int) =~= head);
    assert(page.subrange(page.len() - foot.len(), page.len() as int) =~= foot);
}

/// What a slot's status shows: "Not Ready" for 1, "Ready" for 2, "Playing"
/// for 4, "Completed" for 8 and "Open" for any other status; and each slot's
/// card ends with the pill of its own status.
pub proof fn law_slot_status_pill(s: LiveSlotInfo)
    ensures
        status_pill(1) == r###"<span style="color: #94a3b8; font-size: 0.75rem;">Not Ready</span>"###@,
        status_pill(2) == r###"<span style="color: #4ade80; font-weight: 700; font-size: 0.75rem;">✓ Ready</span>"###@,
        status_pill(4) == r###"<span style="color: #f472b6; font-weight: 700; font-size: 0.75rem;">Playing</span>"###@,
        status_pill(8) == r###"<span style="color: #38bdf8; font-weight: 700; font-size: 0.75rem;">Completed</span>"###@,
        forall|st: u8| st != 1 && st != 2 && st != 4 && st != 8 ==> #[trigger] status_pill(st) == r###"<span style="color: #64748b; font-size: 0.75rem;">Open</span>"###@,
        ({
            let card = slot_html(s);
            let end = card.len() - SLOT_4@.len();
            &&& card.len() >= SLOT_4@.len() + status_pill(s.status).len()
            &&& card.subrange(end - status_pill(s.status).len(), end) == status_pill(s.status)
            &&& card.subrange(end, card.len() as int) == SLOT_4@
        }),
{
    let card = slot_html(s);
    let pre = SLOT_0@ + zero_padded2((s.slot_id + 1) as nat) + SLOT_1@ + team_dot(s.team) + SLOT_2@ + escaped(
        s.username@,
    ) + SLOT_3@;
    assert(card =~= pre + status_pill(s.status) + SLOT_4@);
    let end = card.len() - SLOT_4@.len();
    assert(card.subrange(end - status_pill(s.status).len(), end) =~= status_pill(s.status));
    assert(card.subrange(end, card.len() as int) =~= SLOT_4@);
}

/// The names shown for the game settings: modes 0 to 3 are osu! Standard,
/// Taiko, Catch and osu!mania, any other mode is osu!; scoring types 1 to 3
/// are Accuracy, Combo and Score V2, any other is Score; team types 1 to 3
/// are Tag Co-op, Team VS and Tag Team VS, any other is Head to Head.
pub proof fn law_setting_names(x: i64)
    ensures
        spec_mode_name(0) == "osu! Standard"@,
        spec_mode_name(1) == "Taiko"@,
        spec_mode_name(2) == "Catch"@,
        spec_mode_name(3) == "osu!mania"@,
        !(0 <= x <= 3) ==> spec_mode_name(x) == "osu!"@,
        spec_scoring_name(1) == "Accuracy"@,
        spec_scoring_name(2) == "Combo"@,
        spec_scoring_name(3) == "Score V2"@,
        !(1 <= x <= 3) ==> spec_scoring_name(x) == "Score"@,
        spec_team_name(1) == "Tag Co-op"@,
        spec_team_name(2) == "Team VS"@,
        spec_team_name(3) == "Tag Team VS"@,
        !(1 <= x <= 3) ==> spec_team_name(x) == "Head to Head"@,
{
}

/// What a room's status badge, a player's team marker and a score's mark
/// read: a room whose round runs (`in_progress` 1) is "IN MATCH", any other
/// is "WAITING IN LOBBY"; team 1 gets the marker titled "Blue Team", team 2
/// the one titled "Red Team", any other team none; a passed score (`passed`
/// 1) is marked with a check, any other with a cross.
pub proof fn law_badges_and_marks(x: i64, team: u8)
    ensures
        status_badge(1) == r###"<span class="multi-badge playing"><span class="pulse-dot red"></span> IN MATCH</span>"###@,
        x != 1 ==> status_badge(x) == r###"<span class="multi-badge waiting"><span class="pulse-dot green"></span> WAITING IN LOBBY</span>"###@,
        team_dot(1) == r###"<span style="display:inline-block; width:8px; height:8px; border-radius:50%; background:#ef4444; margin-right:4px;" title="Blue Team"></span>"###@,
        team_dot(2) == r###"<span style="display:inline-block; width:8px; height:8px; border-radius:50%; background:#3b82f6; margin-right:4px;" title="Red Team"></span>"###@,
        team != 1 && team != 2 ==> team_dot(team) == Seq::<char>::empty(),
        pass_mark(1) == "✓"@,
        x != 1 ==> pass_mark(x) == "✗"@,
{
}

/// The rounds of a room are numbered from the number of rounds down to 1 in
/// the order given (most recent first): the card added for round `k`
/// (counting from 0) carries the number `games.len() - k`.
pub proof fn law_round_numbers(games: Seq<RoundCard>, k: int)
    requires
        0 <= k < games.len(),
    ensures
        rounds_html(games, k + 1) == rounds_html(games, k) + round_html(games[k], games.len() - k),
        k == 0 ==> rounds_html(games, 1) == round_html(games[0], games.len() as int),
{
    assert(rounds_html(games, 0) == Seq::<char>::empty());
    assert(Seq::<char>::empty() + round_html(games[0], games.len() as int) =~= round_html(games[0], games.len() as int));
}

} // verus!
