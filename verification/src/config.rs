//! Service configuration: the values that apply when a setting is absent,
//! and the choice of the database file.

use vstd::prelude::*;
use crate::probe::DiskProbe;
use crate::text::{decimal, push_decimal};

verus! {

/// The whole configuration: the `[server]` and `[database]` tables.
#[derive(Debug, Clone)]
pub struct Config {
    pub server: ServerConfig,
    pub database: DatabaseConfig,
}

/// The `[server]` table.
#[derive(Debug, Clone)]
pub struct ServerConfig {
    pub name: String,
    pub host: String,
    pub port: u16,
    pub base_url: String,
}

/// The `[database]` table.
#[derive(Debug, Clone)]
pub struct DatabaseConfig {
    pub path: String,
    pub fallback_path: String,
}

pub open spec fn spec_default_name() -> Seq<char> {
    "AyanomiBancho"@
}

pub open spec fn spec_default_host() -> Seq<char> {
    "127.0.0.1"@
}

pub open spec fn spec_default_port() -> u16 {
    5003
}

pub open spec fn spec_default_base_url() -> Seq<char> {
    "https://hatsuneakiko.io.vn"@
}

pub open spec fn spec_default_db_path() -> Seq<char> {
    "data/roseflower.db"@
}

pub open spec fn spec_default_fallback_db_path() -> Seq<char> {
    "../ayanomibancho!/data/roseflower.db"@
}

/// Server name used when `server.name` is not set.
pub fn default_name() -> (s: String)
    ensures
        s@ == spec_default_name(),
{
    String::from_str("AyanomiBancho")
}

/// Host used when `server.host` is not set.
pub fn default_host() -> (s: String)
    ensures
        s@ == spec_default_host(),
{
    String::from_str("127.0.0.1")
}

/// Port used when `server.port` is not set.
pub fn default_port() -> (p: u16)
    ensures
        p == spec_default_port(),
{
    5003
}

/// Public base URL used when `server.base_url` is not set.
pub fn default_base_url() -> (s: String)
    ensures
        s@ == spec_default_base_url(),
{
    String::from_str("https://hatsuneakiko.io.vn")
}

/// Database file used when `database.path` is not set.
pub fn default_db_path() -> (s: String)
    ensures
        s@ == spec_default_db_path(),
{
    String::from_str("data/roseflower.db")
}

/// Second database file used when `database.fallback_path` is not set.
pub fn default_fallback_db_path() -> (s: String)
    ensures
        s@ == spec_default_fallback_db_path(),
{
    String::from_str("../ayanomibancho!/data/roseflower.db")
}

impl Default for ServerConfig {
    fn default() -> (c: Self)
        ensures
            c.name@ == spec_default_name(),
            c.host@ == spec_default_host(),
            c.port == spec_default_port(),
            c.base_url@ == spec_default_base_url(),
    {
        ServerConfig {
            name: default_name(),
            host: default_host(),
            port: default_port(),
            base_url: default_base_url(),
        }
    }
}

impl Default for DatabaseConfig {
    fn default() -> (c: Self)
        ensures
            c.path@ == spec_default_db_path(),
            c.fallback_path@ == spec_default_fallback_db_path(),
    {
        DatabaseConfig { path: default_db_path(), fallback_path: default_fallback_db_path() }
    }
}

impl Default for Config {
    fn default() -> (c: Self)
        ensures
            c.server.name@ == spec_default_name(),
            c.server.host@ == spec_default_host(),
            c.server.port == spec_default_port(),
            c.server.base_url@ == spec_default_base_url(),
            c.database.path@ == spec_default_db_path(),
            c.database.fallback_path@ == spec_default_fallback_db_path(),
    {
        Config { server: ServerConfig::default(), database: DatabaseConfig::default() }
    }
}

/// `std::path::Path::exists`: whether something is on disk at `path`
/// (following links; an error counts as absent). What is on disk is outside
/// the program, so the contract claims nothing of the answer, and two calls
/// on one path may differ.
#[verifier::external_body]
pub(crate) fn path_exists(path: &str) -> bool {
    std::path::Path::new(path).exists()
}

/// Which of the two configured database files to use, given which of them
/// exist: the primary one if it exists, else the fallback if that exists,
/// else the primary one (which will then be created).
pub open spec fn spec_select_db_path(
    primary: Seq<char>,
    fallback: Seq<char>,
    primary_exists: bool,
    fallback_exists: bool,
) -> Seq<char> {
    if primary_exists {
        primary
    } else if fallback_exists {
        fallback
    } else {
        primary
    }
}

/// The decision of `Config::resolve_db_path`, for given answers of the disk.
pub fn select_db_path(
    primary: &String,
    fallback: &String,
    primary_exists: bool,
    fallback_exists: bool,
) -> (res: String)
    ensures
        res@ == spec_select_db_path(primary@, fallback@, primary_exists, fallback_exists),
{
    if primary_exists {
        primary.clone()
    } else if fallback_exists {
        fallback.clone()
    } else {
        primary.clone()
    }
}

/// Whether the parent directories of the chosen database file have to be
/// created: exactly when neither configured file exists, so that the primary
/// file is to be created anew.
pub open spec fn spec_needs_parent_dirs(primary_exists: bool, fallback_exists: bool) -> bool {
    !primary_exists && !fallback_exists
}

/// The database file to open, whether its parent directories are to be
/// created first, and, when the plan was made by asking the disk, the
/// questions asked and their answers.
#[derive(Debug)]
pub struct DbPathPlan {
    pub path: String,
    pub create_parent_dirs: bool,
    pub primary_probe: Option<DiskProbe>,
    pub fallback_probe: Option<DiskProbe>,
}

/// The whole decision for given answers of the disk: the file chosen as by
/// `select_db_path`, and the creation of its parent directories when it is
/// the primary file and does not exist yet.
pub fn select_db_plan(
    primary: &String,
    fallback: &String,
    primary_exists: bool,
    fallback_exists: bool,
) -> (plan: DbPathPlan)
    ensures
        plan.path@ == spec_select_db_path(primary@, fallback@, primary_exists, fallback_exists),
        plan.create_parent_dirs == spec_needs_parent_dirs(primary_exists, fallback_exists),
        plan.primary_probe is None,
        plan.fallback_probe is None,
{
    DbPathPlan {
        path: select_db_path(primary, fallback, primary_exists, fallback_exists),
        create_parent_dirs: !primary_exists && !fallback_exists,
        primary_probe: None,
        fallback_probe: None,
    }
}

impl Config {
    /// Checks the primary database file, then the fallback, and plans the
    /// file to use: the first that exists, else the primary one with its
    /// parent directories to be created. The plan keeps the disk's answers:
    /// the primary path is always asked about; if it is there, it is used and
    /// nothing more is asked; only if it is missing is the fallback asked
    /// about, and used if it is there.
    pub fn plan_db_path(&self) -> (plan: DbPathPlan)
        ensures
            exists|p: bool, f: bool|
                plan.path@ == spec_select_db_path(self.database.path@, self.database.fallback_path@, p, f)
                    && plan.create_parent_dirs == spec_needs_parent_dirs(p, f),
            plan.primary_probe matches Some(pp) && pp.asked() == self.database.path@,
            match plan.primary_probe {
                Some(pp) => if pp.answer() {
                    &&& plan.path@ == self.database.path@
                    &&& !plan.create_parent_dirs
                    &&& plan.fallback_probe is None
                } else {
                    match plan.fallback_probe {
                        Some(fp) => {
                            &&& fp.asked() == self.database.fallback_path@
                            &&& if fp.answer() {
                                plan.path@ == self.database.fallback_path@ && !plan.create_parent_dirs
                            } else {
                                plan.path@ == self.database.path@ && plan.create_parent_dirs
                            }
                        },
                        None => false,
                    }
                },
                None => false,
            },
    {
        let primary = DiskProbe::of(&self.database.path);
        let primary_exists = primary.found();
        let fallback = if primary_exists {
            None
        } else {
            Some(DiskProbe::of(&self.database.fallback_path))
        };
        let fallback_exists = match &fallback {
            Some(fp) => fp.found(),
            None => false,
        };
        let chosen = select_db_plan(&self.database.path, &self.database.fallback_path, primary_exists, fallback_exists);
        assert(chosen.path@ == spec_select_db_path(self.database.path@, self.database.fallback_path@, primary_exists, fallback_exists)
            && chosen.create_parent_dirs == spec_needs_parent_dirs(primary_exists, fallback_exists));
        DbPathPlan {
            path: chosen.path,
            create_parent_dirs: chosen.create_parent_dirs,
            primary_probe: Some(primary),
            fallback_probe: fallback,
        }
    }

    /// Resolves the actual database path to use, checking primary then
    /// fallback; when neither exists it is the primary path, whose parent
    /// directories `plan_db_path` says to create.
    pub fn resolve_db_path(&self) -> (res: String)
        ensures
            exists|p: bool, f: bool|
                res@ == spec_select_db_path(self.database.path@, self.database.fallback_path@, p, f),
    {
        let plan = self.plan_db_path();
        plan.path
    }

    /// The address the service listens on: `host:port`.
    pub fn bind_address(&self) -> (res: String)
        ensures
            res@ == self.server.host@ + seq![':'] + decimal(self.server.port as int),
    {
        let mut res = self.server.host.clone();
        res.push(':');
        push_decimal(&mut res, self.server.port as i64);
        assert(res@ =~= self.server.host@ + seq![':'] + decimal(self.server.port as int));
        res
    }
}

/// Whatever the disk says, the database path chosen is one of the two
/// configured paths, and the fallback is taken only when the primary file is
/// missing and the fallback file is there.
pub proof fn law_db_path_is_configured(
    primary: Seq<char>,
    fallback: Seq<char>,
    primary_exists: bool,
    fallback_exists: bool,
)
    ensures
        spec_select_db_path(primary, fallback, primary_exists, fallback_exists) == primary
            || spec_select_db_path(primary, fallback, primary_exists, fallback_exists) == fallback,
        spec_select_db_path(primary, fallback, primary_exists, fallback_exists) != primary
            ==> !primary_exists && fallback_exists,
        spec_needs_parent_dirs(primary_exists, fallback_exists) ==> spec_select_db_path(
            primary,
            fallback,
            primary_exists,
            fallback_exists,
        ) == primary,
{
}

} // verus!
