use dpl::branchdb::{branch_db_name, branch_from_head, branch_of_db, database_from_env, safe_identifier};

#[test]
fn parked_names_fit_and_stay_distinct() {
    assert_eq!(branch_db_name("app", "main"), "app@main");
    assert_eq!(branch_db_name("app", "feat/x"), "app@feat/x");

    let long_a = branch_db_name("app", &"a".repeat(100));
    let long_b = branch_db_name("app", &format!("{}b", "a".repeat(99)));
    assert!(long_a.len() <= 63 && long_b.len() <= 63);
    assert_ne!(long_a, long_b, "truncated names must stay distinct");
    // Stable: same input, same name.
    assert_eq!(long_a, branch_db_name("app", &"a".repeat(100)));
}

#[test]
fn round_trips_branch_out_of_db_name() {
    assert_eq!(branch_of_db("app", "app@feat/x"), Some("feat/x".into()));
    assert_eq!(branch_of_db("app", "other@main"), None);
    assert_eq!(branch_of_db("app", "app"), None);
}

#[test]
fn identifier_guard() {
    assert!(safe_identifier("app@feat/x-2.0"));
    assert!(!safe_identifier("app\"; DROP DATABASE x; --"));
    assert!(!safe_identifier(""));
    assert!(!safe_identifier(&"x".repeat(64)));
}

#[test]
fn reads_branch_from_head() {
    assert_eq!(branch_from_head("ref: refs/heads/feat/new-schema\n"), Some("feat/new-schema".into()));
    assert_eq!(branch_from_head("ref: refs/heads/feat/login\n"), Some("feat/login".into()));
}

#[test]
fn detached_head_is_none() {
    assert_eq!(branch_from_head("8f7a2c91be1d4e2a\n"), None);
}

#[test]
fn reads_db_database_from_env() {
    let env = "# comment\nDB_CONNECTION=pgsql\nDB_DATABASE=\"my_app\"\nDB_DATABASE_IGNORED=x\n";
    assert_eq!(database_from_env(env), Some("my_app".into()));
}

#[test]
fn the_first_db_database_line_wins_and_quotes_come_off() {
    let env = "APP_NAME=x\n# DB_DATABASE=commented\nDB_DATABASE_URL=nope\nDB_DATABASE = \"shop\"\nDB_DATABASE=later\n";
    assert_eq!(database_from_env(env), Some("shop".into()));
    assert_eq!(database_from_env("DB_DATABASE='single'\n"), Some("single".into()));
}

#[test]
fn env_without_key_is_none() {
    assert_eq!(database_from_env("APP_NAME=x\n#DB_DATABASE=commented\n"), None);
    assert_eq!(database_from_env("APP_NAME=x\nDB_HOST=127.0.0.1\n"), None);
    assert_eq!(database_from_env("DB_DATABASE=\n"), None);
}

#[test]
fn a_parked_name_that_fits_gives_its_branch_back() {
    let parked = branch_db_name("shop", "feature/cart");
    assert_eq!(branch_of_db("shop", &parked), Some("feature/cart".into()));
}

#[test]
fn truncated_names_end_in_the_hash_of_the_full_name() {
    let long = branch_db_name("app", &"a".repeat(100));
    assert_eq!(long.len(), 63);
    assert!(long.starts_with("app@aaaa"));
    assert_eq!(&long[54..55], "-");
    assert!(long[55..].chars().all(|c| c.is_ascii_hexdigit()));
}
