# Roseflower

Real-time multiplayer tracking for an osu! server: live rooms, their player
slots and finished rounds, served as a JSON API and an HTML dashboard.

The library under `src/` is verified with Verus:

- `config` — configuration defaults, the choice of the database file, the listen address;
- `model` — stored records, the statistics summary, the scores query and the grouping of scores by round;
- `dashboard` — names of game settings and the dashboard page;
- `templates` — the fixed text of the dashboard page;
- `text` — decimal rendering, thousands grouping, HTML escaping, with their laws;
- `api` — what each endpoint answers for the outcome of its storage operation.

`app/` is the service around it: reading `config.toml`, the SQLite store, the
HTTP routes and `main`.
