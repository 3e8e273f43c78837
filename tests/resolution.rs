use dockertest::composition::{Composition, StartPolicy};
use dockertest::error::DockerTestError;
use dockertest::keeper::{validate_composition_handlers, ResolveError};
use dockertest::resolution::{
    generate_random_string, network_name, new_run_id, resolve_final_container_name,
    resolve_final_container_names_with, resolve_named_volumes,
};
use dockertest::injection::resolve_inject_container_name_env;

#[test]
fn distinct_handles_resolve_to_declaration_index() {
    let k = validate_composition_handlers(vec![
        Composition::with_repository("a"),
        Composition::with_repository("b"),
        Composition::with_repository("c").with_container_name("x"),
    ]);
    assert_eq!(k.resolve("a"), Ok(0));
    assert_eq!(k.resolve("b"), Ok(1));
    assert_eq!(k.resolve("x"), Ok(2));
    assert_eq!(k.resolve("c"), Err(ResolveError::NotFound));
}

#[test]
fn duplicate_handle_collides_and_both_stay() {
    let k = validate_composition_handlers(vec![
        Composition::with_repository("redis"),
        Composition::with_repository("postgres"),
        Composition::with_repository("redis"),
    ]);
    assert_eq!(k.resolve("redis"), Err(ResolveError::Collision));
    assert_eq!(k.resolve("postgres"), Ok(1));
    assert_eq!(k.kept.len(), 3);
}

#[test]
fn final_names_use_namespace_handle_and_suffix() {
    let mut k = validate_composition_handlers(vec![
        Composition::with_repository("library/redis"),
        Composition::with_repository("postgres").with_container_name("db/main"),
    ]);
    let suffixes = vec!["aaa".to_string(), "bbb".to_string()];
    resolve_final_container_names_with(&mut k, "ns", &suffixes);
    assert_eq!(k.kept[0].container_name, "ns-library_redis-aaa");
    assert_eq!(k.kept[1].container_name, "ns-db_main-bbb");
}

#[test]
fn random_suffixes_are_twenty_letters() {
    let mut k = validate_composition_handlers(vec![Composition::with_repository("redis")]);
    let suffixes = resolve_final_container_name(&mut k, "ns");
    assert_eq!(suffixes.len(), 1);
    assert_eq!(suffixes[0].len(), 20);
    assert!(suffixes[0].chars().all(|c| ('a'..'z').contains(&c)));
    assert_eq!(k.kept[0].container_name, format!("ns-redis-{}", suffixes[0]));
}

#[test]
fn random_string_has_requested_length_and_letters() {
    let s = generate_random_string(64);
    assert_eq!(s.chars().count(), 64);
    assert!(s.chars().all(|c| ('a'..='y').contains(&c)));
    assert_eq!(generate_random_string(0), "");
    assert_eq!(new_run_id().len(), 20);
}

#[test]
fn network_name_external_or_derived() {
    assert_eq!(network_name(Some("shared"), "abc"), "shared");
    assert_eq!(network_name(None, "abc"), "dockertest-rs-abc");
}

#[test]
fn same_bare_volume_gets_same_suffixed_name() {
    let mut a = Composition::with_repository("a");
    a.named_volume("data", "/one");
    let mut b = Composition::with_repository("b");
    b.named_volume("data", "/two");
    b.named_volume("logs", "/logs");
    let mut k = validate_composition_handlers(vec![a, b]);
    let names = resolve_named_volumes(&mut k, "run1");
    assert_eq!(names, vec!["data-run1".to_string(), "logs-run1".to_string()]);
    assert_eq!(k.kept[0].final_named_volume_names, vec!["data-run1:/one".to_string()]);
    assert_eq!(
        k.kept[1].final_named_volume_names,
        vec!["data-run1:/two".to_string(), "logs-run1:/logs".to_string()]
    );
}

#[test]
fn injected_env_holds_final_name_not_handle() {
    let db = Composition::with_repository("postgres")
        .with_container_name("db")
        .with_start_policy(StartPolicy::Strict);
    let cache = Composition::with_repository("redis")
        .with_container_name("cache")
        .with_start_policy(StartPolicy::Relaxed);
    let mut app = Composition::with_repository("app")
        .with_container_name("app")
        .with_start_policy(StartPolicy::Strict);
    app.inject_container_name("db", "DB_HOST");
    let mut k = validate_composition_handlers(vec![db, cache, app]);
    let suffixes = vec!["s1".to_string(), "s2".to_string(), "s3".to_string()];
    resolve_final_container_names_with(&mut k, "ns", &suffixes);
    let over = resolve_inject_container_name_env(&mut k).unwrap();
    assert!(over.is_empty());
    let db_name = k.kept[0].container_name.clone();
    assert_eq!(db_name, "ns-db-s1");
    assert_eq!(k.kept[2].env.get("DB_HOST"), Some(&db_name));
    assert_ne!(k.kept[2].env.get("DB_HOST").map(|s| s.as_str()), Some("db"));
    assert_eq!(k.kept[0].env.len(), 0);
}

#[test]
fn injection_overwrite_is_signalled() {
    let db = Composition::with_repository("db");
    let mut app = Composition::with_repository("app");
    app.env("DB_HOST", "localhost");
    app.inject_container_name("db", "DB_HOST");
    let mut k = validate_composition_handlers(vec![db, app]);
    let over = resolve_inject_container_name_env(&mut k).unwrap();
    assert_eq!(over, vec![(1, 0)]);
    assert_eq!(k.kept[1].env.get("DB_HOST").map(|s| s.as_str()), Some("db"));
}

#[test]
fn injection_on_missing_handle_fails_naming_composition() {
    let mut app = Composition::with_repository("app");
    app.inject_container_name("nope", "X");
    let mut k = validate_composition_handlers(vec![app]);
    let err = resolve_inject_container_name_env(&mut k).unwrap_err();
    assert_eq!(
        err,
        DockerTestError::Startup(
            "composition `app` attempted to inject_container_name_env on non-existent handle `nope`"
                .to_string()
        )
    );
    assert_eq!(k.kept[0].env.len(), 0);
}

#[test]
fn injection_on_duplicate_handle_fails() {
    let mut app = Composition::with_repository("app");
    app.inject_container_name("redis", "X");
    let mut k = validate_composition_handlers(vec![
        app,
        Composition::with_repository("redis"),
        Composition::with_repository("redis"),
    ]);
    let err = resolve_inject_container_name_env(&mut k).unwrap_err();
    assert_eq!(
        err,
        DockerTestError::Startup(
            "composition `app` attempted to inject_container_name_env on duplicate handle `redis`"
                .to_string()
        )
    );
}
