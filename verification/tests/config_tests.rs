use roseflower::config::{
    default_base_url, default_db_path, default_fallback_db_path, default_host, default_name, default_port,
    select_db_path, select_db_plan, Config, DatabaseConfig, ServerConfig,
};

#[test]
fn defaults_match_documented_values() {
    assert_eq!(default_name(), "AyanomiBancho");
    assert_eq!(default_host(), "127.0.0.1");
    assert_eq!(default_port(), 5003);
    assert_eq!(default_base_url(), "https://hatsuneakiko.io.vn");
    assert_eq!(default_db_path(), "data/roseflower.db");
    assert_eq!(default_fallback_db_path(), "../ayanomibancho!/data/roseflower.db");
}

#[test]
fn default_config_uses_default_values() {
    let c = Config::default();
    assert_eq!(c.server.name, "AyanomiBancho");
    assert_eq!(c.server.host, "127.0.0.1");
    assert_eq!(c.server.port, 5003);
    assert_eq!(c.server.base_url, "https://hatsuneakiko.io.vn");
    assert_eq!(c.database.path, "data/roseflower.db");
    assert_eq!(c.database.fallback_path, "../ayanomibancho!/data/roseflower.db");
    let s = ServerConfig::default();
    assert_eq!(s.port, 5003);
    let d = DatabaseConfig::default();
    assert_eq!(d.path, "data/roseflower.db");
}

#[test]
fn select_prefers_existing_primary() {
    let p = "a.db".to_string();
    let f = "b.db".to_string();
    assert_eq!(select_db_path(&p, &f, true, true), "a.db");
    assert_eq!(select_db_path(&p, &f, true, false), "a.db");
    assert_eq!(select_db_path(&p, &f, false, true), "b.db");
    assert_eq!(select_db_path(&p, &f, false, false), "a.db");
}

fn config_with(path: &str, fallback: &str) -> Config {
    let mut c = Config::default();
    c.database.path = path.to_string();
    c.database.fallback_path = fallback.to_string();
    c
}

#[test]
fn resolve_uses_primary_when_present() {
    let c = config_with("/", "/no/such/roseflower/fallback.db");
    assert_eq!(c.resolve_db_path(), "/");
}

#[test]
fn resolve_falls_back_when_primary_missing() {
    let c = config_with("/no/such/roseflower/primary.db", "/");
    assert_eq!(c.resolve_db_path(), "/");
}

#[test]
fn resolve_keeps_primary_when_both_missing() {
    let c = config_with("/no/such/roseflower/primary.db", "/no/such/roseflower/fallback.db");
    assert_eq!(c.resolve_db_path(), "/no/such/roseflower/primary.db");
}

#[test]
fn bind_address_joins_host_and_port() {
    let c = Config::default();
    assert_eq!(c.bind_address(), "127.0.0.1:5003");
    let mut c2 = Config::default();
    c2.server.host = "0.0.0.0".to_string();
    c2.server.port = 0;
    assert_eq!(c2.bind_address(), "0.0.0.0:0");
    c2.server.port = 65535;
    assert_eq!(c2.bind_address(), "0.0.0.0:65535");
}

#[test]
fn plan_creates_parent_dirs_only_for_new_primary() {
    let p = "data/a.db".to_string();
    let f = "b.db".to_string();
    let plan = select_db_plan(&p, &f, false, false);
    assert_eq!(plan.path, "data/a.db");
    assert!(plan.create_parent_dirs);
    let plan = select_db_plan(&p, &f, true, false);
    assert_eq!(plan.path, "data/a.db");
    assert!(!plan.create_parent_dirs);
    let plan = select_db_plan(&p, &f, false, true);
    assert_eq!(plan.path, "b.db");
    assert!(!plan.create_parent_dirs);
}

#[test]
fn plan_db_path_probes_the_disk() {
    let c = config_with("/no/such/roseflower/primary.db", "/no/such/roseflower/fallback.db");
    let plan = c.plan_db_path();
    assert_eq!(plan.path, "/no/such/roseflower/primary.db");
    assert!(plan.create_parent_dirs);
    let c = config_with("/no/such/roseflower/primary.db", "/");
    let plan = c.plan_db_path();
    assert_eq!(plan.path, "/");
    assert!(!plan.create_parent_dirs);
}
