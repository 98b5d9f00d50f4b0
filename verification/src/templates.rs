//! The fixed text of the multiplayer dashboard, in the pieces that the
//! values of a page go between.

use vstd::prelude::*;

verus! {

/// Shown in place of the room cards when no room is live.
pub const EMPTY_ROOMS_HTML: &'static str = r###"
        <div style="text-align: center; padding: 4rem 2rem; background: rgba(30, 41, 59, 0.45); border: 1px solid rgba(255, 255, 255, 0.1); border-radius: 12px; margin-top: 1rem; backdrop-filter: blur(12px);">
            <div style="width: 64px; height: 64px; margin: 0 auto 1.2rem auto; border-radius: 50%; background: rgba(244, 114, 182, 0.15); display: flex; align-items: center; justify-content: center; border: 1px solid rgba(244, 114, 182, 0.3); color: #f472b6;">
                <svg width="32" height="32" viewBox="0 0 24 24" fill="none" stroke="currentColor" stroke-width="2" stroke-linecap="round" stroke-linejoin="round"><path d="M6 11h4M8 9v4M15 12h.01M18 10h.01M17.32 5H6.68a4 4 0 0 0-3.978 3.59c-.006.052-.01.101-.017.152C2.604 9.416 2 14.456 2 16a3 3 0 0 0 3 3c1 0 1.5-.5 2-1l1.414-1.414A2 2 0 0 1 9.828 16h4.344a2 2 0 0 1 1.414.586L17 18c.5.5 1 1 2 1a3 3 0 0 0 3-3c0-1.545-.604-6.584-.685-7.258-.007-.05-.011-.1-.017-.151A4 4 0 0 0 17.32 5z"></path></svg>
            </div>
            <h3 style="font-size: 1.4rem; font-weight: 800; color: #fff; margin-bottom: 0.5rem;">No Active Multiplayer Rooms</h3>
            <p style="color: #94a3b8; font-size: 0.95rem; max-width: 520px; margin: 0 auto 1.5rem auto; line-height: 1.6;">
                There are currently no active lobbies on the server. Connect via your osu! client, create or join a room in the multiplayer lobby, and watch live tracking here!
            </p>
        </div>
        "###;

/// Status badge of a room whose round is being played.
pub const BADGE_IN_MATCH: &'static str = r###"<span class="multi-badge playing"><span class="pulse-dot red"></span> IN MATCH</span>"###;

/// Status badge of a room waiting in the lobby.
pub const BADGE_WAITING: &'static str = r###"<span class="multi-badge waiting"><span class="pulse-dot green"></span> WAITING IN LOBBY</span>"###;

/// Beatmap link, before the beatmap id.
pub const MAP_LINK_OPEN: &'static str = r###"<a href="https://osu.ppy.sh/b/"###;

/// Beatmap link, between the beatmap id and its name.
pub const MAP_LINK_MID: &'static str = r###"" target="_blank" rel="noopener noreferrer" style="color: #38bdf8; text-decoration: none; font-weight: 600;">"###;

/// Beatmap link, after the beatmap name.
pub const MAP_LINK_CLOSE: &'static str = r###"</a>"###;

/// Beatmap name without a link, before the name.
pub const MAP_NAME_OPEN: &'static str = r###"<span style="color: #94a3b8;">"###;

/// Beatmap name without a link, after the name.
pub const MAP_NAME_CLOSE: &'static str = r###"</span>"###;

/// Status of a slot whose player is not ready.
pub const PILL_NOT_READY: &'static str = r###"<span style="color: #94a3b8; font-size: 0.75rem;">Not Ready</span>"###;

/// Status of a slot whose player is ready.
pub const PILL_READY: &'static str = r###"<span style="color: #4ade80; font-weight: 700; font-size: 0.75rem;">✓ Ready</span>"###;

/// Status of a slot whose player is playing.
pub const PILL_PLAYING: &'static str = r###"<span style="color: #f472b6; font-weight: 700; font-size: 0.75rem;">Playing</span>"###;

/// Status of a slot whose player is completed.
pub const PILL_COMPLETED: &'static str = r###"<span style="color: #38bdf8; font-weight: 700; font-size: 0.75rem;">Completed</span>"###;

/// Status of a slot of any other status.
pub const PILL_OPEN: &'static str = r###"<span style="color: #64748b; font-size: 0.75rem;">Open</span>"###;

/// Team marker of a player in team 1.
pub const DOT_TEAM_ONE: &'static str = r###"<span style="display:inline-block; width:8px; height:8px; border-radius:50%; background:#ef4444; margin-right:4px;" title="Blue Team"></span>"###;

/// Team marker of a player in team 2.
pub const DOT_TEAM_TWO: &'static str = r###"<span style="display:inline-block; width:8px; height:8px; border-radius:50%; background:#3b82f6; margin-right:4px;" title="Red Team"></span>"###;

/// Slot card, piece 0.
pub const SLOT_0: &'static str = r###"
                    <div style="background: rgba(15, 23, 42, 0.6); padding: 0.6rem 0.8rem; border-radius: 8px; border: 1px solid rgba(255,255,255,0.06); display: flex; align-items: center; justify-content: space-between; gap: 0.5rem;">
                        <div style="display: flex; align-items: center; gap: 0.5rem; overflow: hidden;">
                            <span style="font-family: monospace; font-size: 0.8rem; color: #64748b;">#"###;

/// Slot card, piece 1.
pub const SLOT_1: &'static str = r###"</span>
                            "###;

/// Slot card, piece 2.
pub const SLOT_2: &'static str = r###"
                            <span style="font-weight: 600; font-size: 0.85rem; color: #f8fafc; white-space: nowrap; overflow: hidden; text-overflow: ellipsis; max-width: 130px;">"###;

/// Slot card, piece 3.
pub const SLOT_3: &'static str = r###"</span>
                        </div>
                        <div>"###;

/// Slot card, piece 4.
pub const SLOT_4: &'static str = r###"</div>
                    </div>
                    "###;

/// Opening of the list of rounds played.
pub const HISTORY_OPEN: &'static str = r###"
                <div style="margin-top: 1.2rem; border-top: 1px solid rgba(255,255,255,0.08); padding-top: 1rem;">
                    <div style="font-size: 0.85rem; font-weight: 700; color: #94a3b8; text-transform: uppercase; letter-spacing: 0.5px; margin-bottom: 0.6rem;">Recent Rounds Played</div>
                    <div style="display: flex; flex-direction: column; gap: 0.6rem;">
                "###;

/// Winner badge, before the winner's name.
pub const WINNER_OPEN: &'static str = r###"<span style="color: #fbbf24; font-weight: 700; font-size: 0.8rem;">👑 Winner: "###;

/// Winner badge, after the winner's name.
pub const WINNER_CLOSE: &'static str = r###"</span>"###;

/// Score line, piece 0.
pub const SCORE_0: &'static str = r###"<span style="font-size: 0.78rem; color: #cbd5e1; background: rgba(0,0,0,0.3); padding: 0.2rem 0.5rem; border-radius: 4px;">"###;

/// Score line, piece 1.
pub const SCORE_1: &'static str = r###": <b>"###;

/// Score line, piece 2.
pub const SCORE_2: &'static str = r###"</b> ("###;

/// Score line, piece 3.
pub const SCORE_3: &'static str = r###"%) "###;

/// Score line, piece 4.
pub const SCORE_4: &'static str = r###"</span> "###;

/// Round card, piece 0.
pub const ROUND_0: &'static str = r###"
                        <div style="background: rgba(15, 23, 42, 0.4); border: 1px solid rgba(255,255,255,0.05); border-radius: 6px; padding: 0.6rem 0.8rem;">
                            <div style="display: flex; justify-content: space-between; align-items: center; margin-bottom: 0.4rem;">
                                <div style="font-size: 0.82rem; font-weight: 600; color: #e2e8f0;">Round #"###;

/// Round card, piece 1.
pub const ROUND_1: &'static str = r###" - "###;

/// Round card, piece 2.
pub const ROUND_2: &'static str = r###"</div>
                                "###;

/// Round card, piece 3.
pub const ROUND_3: &'static str = r###"
                            </div>
                            <div style="display: flex; flex-wrap: wrap; gap: 0.4rem;">
                                "###;

/// Round card, piece 4.
pub const ROUND_4: &'static str = r###"
                            </div>
                        </div>
                        "###;

/// Room card, piece 0.
pub const ROOM_0: &'static str = r###"
                <div class="glass-card" style="padding: 1.5rem; border-radius: 12px; margin-bottom: 1.5rem; background: rgba(30, 41, 59, 0.5); border: 1px solid rgba(255, 255, 255, 0.1); backdrop-filter: blur(12px);">
                    <div style="display: flex; justify-content: space-between; align-items: flex-start; flex-wrap: wrap; gap: 0.8rem; margin-bottom: 1rem;">
                        <div>
                            <div style="display: flex; align-items: center; gap: 0.6rem;">
                                <h3 style="font-size: 1.3rem; font-weight: 800; color: #fff; margin: 0;">"###;

/// Room card, piece 1.
pub const ROOM_1: &'static str = r###"</h3>
                                <span style="font-family: monospace; font-size: 0.8rem; background: rgba(255,255,255,0.08); padding: 0.2rem 0.5rem; border-radius: 4px; color: #94a3b8;">Room #"###;

/// Room card, piece 2.
pub const ROOM_2: &'static str = r###"</span>
                            </div>
                            <div style="color: #94a3b8; font-size: 0.88rem; margin-top: 0.3rem;">Host: <b style="color: #e2e8f0;">"###;

/// Room card, piece 3.
pub const ROOM_3: &'static str = r###"</b></div>
                        </div>
                        <div>"###;

/// Room card, piece 4.
pub const ROOM_4: &'static str = r###"</div>
                    </div>

                    <div style="display: grid; grid-template-columns: repeat(auto-fit, minmax(200px, 1fr)); gap: 0.8rem; margin-bottom: 1.2rem; background: rgba(15, 23, 42, 0.4); padding: 0.8rem; border-radius: 8px; border: 1px solid rgba(255,255,255,0.05);">
                        <div><span style="color:#64748b; font-size:0.75rem; text-transform:uppercase;">Beatmap</span><div style="font-size:0.9rem; margin-top:0.2rem;">"###;

/// Room card, piece 5.
pub const ROOM_5: &'static str = r###"</div></div>
                        <div><span style="color:#64748b; font-size:0.75rem; text-transform:uppercase;">Game Mode</span><div style="font-size:0.9rem; font-weight:600; color:#cbd5e1; margin-top:0.2rem;">"###;

/// Room card, piece 6.
pub const ROOM_6: &'static str = r###"</div></div>
                        <div><span style="color:#64748b; font-size:0.75rem; text-transform:uppercase;">Ruleset</span><div style="font-size:0.9rem; font-weight:600; color:#cbd5e1; margin-top:0.2rem;">"###;

/// Room card, piece 7.
pub const ROOM_7: &'static str = r###" &bull; "###;

/// Room card, piece 8.
pub const ROOM_8: &'static str = r###"</div></div>
                        <div><span style="color:#64748b; font-size:0.75rem; text-transform:uppercase;">Slots Filled</span><div style="font-size:0.9rem; font-weight:700; color:#f472b6; margin-top:0.2rem;">"###;

/// Room card, piece 9.
pub const ROOM_9: &'static str = r###"/16 Players</div></div>
                    </div>

                    <div style="font-size: 0.85rem; font-weight: 700; color: #94a3b8; text-transform: uppercase; letter-spacing: 0.5px; margin-bottom: 0.6rem;">Player Slots</div>
                    <div style="display: grid; grid-template-columns: repeat(auto-fill, minmax(180px, 1fr)); gap: 0.6rem;">
                        "###;

/// Room card, piece 10.
pub const ROOM_10: &'static str = r###"
                    </div>

                    "###;

/// Room card, piece 11.
pub const ROOM_11: &'static str = r###"
                </div>
                "###;

/// Dashboard page, piece 0.
pub const PAGE_0: &'static str = r###"<!DOCTYPE html>
<html lang="en">
<head>
    <meta charset="UTF-8">
    <meta name="viewport" content="width=device-width, initial-scale=1.0">
    <title>Multiplayer Tracker - Roseflower</title>
    <link rel="preconnect" href="https://fonts.googleapis.com">
    <link href="https://fonts.googleapis.com/css2?family=Plus+Jakarta+Sans:wght@400;500;600;700;800;900&family=JetBrains+Mono:wght@500;700&display=swap" rel="stylesheet">
    <style>
        :root {
            --bg-base: #0b0f19;
            --primary: #f472b6;
            --primary-hover: #ec4899;
            --text-main: #f8fafc;
            --text-muted: #94a3b8;
        }
        * { box-sizing: border-box; margin: 0; padding: 0; }
        body {
            background: radial-gradient(circle at 50% 0%, #1e1b4b 0%, #0b0f19 75%);
            color: var(--text-main);
            font-family: 'Plus Jakarta Sans', sans-serif;
            min-height: 100vh;
            padding: 2rem 1rem;
        }
        .container {
            max-width: 1050px;
            margin: 0 auto;
        }
        .hero {
            text-align: center;
            margin-bottom: 2.5rem;
        }
        .hero-tag {
            display: inline-block;
            padding: 0.35rem 0.8rem;
            background: rgba(244, 114, 182, 0.15);
            color: #f472b6;
            border: 1px solid rgba(244, 114, 182, 0.3);
            border-radius: 9999px;
            font-size: 0.75rem;
            font-weight: 700;
            letter-spacing: 1px;
            margin-bottom: 0.8rem;
        }
        .hero h1 {
            font-size: 2.5rem;
            font-weight: 900;
            letter-spacing: -0.5px;
            background: linear-gradient(135deg, #fff 30%, #f472b6 100%);
            -webkit-background-clip: text;
            -webkit-text-fill-color: transparent;
        }
        .hero p {
            color: var(--text-muted);
            font-size: 1.05rem;
            margin-top: 0.5rem;
        }
        .chip-bar {
            display: flex;
            justify-content: center;
            gap: 0.8rem;
            flex-wrap: wrap;
            margin-top: 1.2rem;
        }
        .chip {
            background: rgba(30, 41, 59, 0.6);
            border: 1px solid rgba(255, 255, 255, 0.1);
            padding: 0.45rem 0.9rem;
            border-radius: 8px;
            font-size: 0.85rem;
            color: #cbd5e1;
            display: inline-flex;
            align-items: center;
            gap: 0.4rem;
        }
        .chip b { color: #fff; }
        .pulse-dot {
            width: 8px;
            height: 8px;
            border-radius: 50%;
            display: inline-block;
        }
        .pulse-dot.green {
            background: #4ade80;
            box-shadow: 0 0 8px #4ade80;
        }
        .pulse-dot.red {
            background: #ef4444;
            box-shadow: 0 0 8px #ef4444;
        }
        .multi-badge {
            display: inline-flex;
            align-items: center;
            gap: 0.4rem;
            padding: 0.3rem 0.65rem;
            border-radius: 6px;
            font-size: 0.75rem;
            font-weight: 700;
            letter-spacing: 0.5px;
        }
        .multi-badge.waiting {
            background: rgba(34, 197, 94, 0.15);
            color: #4ade80;
            border: 1px solid rgba(34, 197, 94, 0.3);
        }
        .multi-badge.playing {
            background: rgba(239, 68, 68, 0.15);
            color: #f87171;
            border: 1px solid rgba(239, 68, 68, 0.3);
        }
        footer {
            text-align: center;
            margin-top: 3rem;
            padding-top: 1.5rem;
            border-top: 1px solid rgba(255, 255, 255, 0.08);
            color: #64748b;
            font-size: 0.85rem;
        }
        footer a {
            color: #f472b6;
            text-decoration: none;
        }
    </style>
</head>
<body>
    <div class="container">
        <div class="hero">
            <div class="hero-tag">ROSEFLOWER REAL-TIME MULTIPLAYER</div>
            <h1>Live Multiplayer Rooms</h1>
            <p>Live monitoring of osu! lobbies, player slots, beatmaps, and round match results on <b>"###;

/// Dashboard page, piece 1.
pub const PAGE_1: &'static str = r###"</b>.</p>

            <div class="chip-bar">
                <div class="chip">Active Rooms: <b style="color: #f472b6;">"###;

/// Dashboard page, piece 2.
pub const PAGE_2: &'static str = r###"</b></div>
                <div class="chip">Players in Multi: <b>"###;

/// Dashboard page, piece 3.
pub const PAGE_3: &'static str = r###"</b></div>
                <div class="chip">Completed Rounds: <b>"###;

/// Dashboard page, piece 4.
pub const PAGE_4: &'static str = r###"</b></div>
                <div class="chip"><span class="pulse-dot green"></span> Live Sync Active</div>
            </div>
        </div>

        <div id="roomsContainer">
            "###;

/// Dashboard page, piece 5.
pub const PAGE_5: &'static str = r###"
        </div>

        <footer>
            Roseflower &bull; Dedicated Multiplayer Microservice for <a href="https://hatsuneakiko.io.vn">"###;

/// Dashboard page, piece 6.
pub const PAGE_6: &'static str = r###"</a>
        </footer>
    </div>
</body>
</html>
"###;

/// Closing of the list of rounds played.
pub const HISTORY_CLOSE: &'static str = "</div></div>";

/// Mark of a passed score.
pub const PASS_MARK: &'static str = "✓";

/// Mark of a failed score.
pub const FAIL_MARK: &'static str = "✗";

} // verus!
