use dockertest::composition::{Composition, Image, StartPolicy, WaitFor};
use dockertest::env::EnvVars;
use dockertest::error::DockerTestError;

// Tests that the with_repository constructor creates
// a Composition with the correct values
#[test]
fn test_with_repository_constructor() {
    let repository = "this_is_a_repository".to_string();

    let instance = Composition::with_repository(&repository);
    assert_eq!(
        repository,
        instance.image.repository(),
        "repository is not set to the correct value"
    );
    assert_eq!(
        repository, instance.container_name,
        "container_name should default to the repository"
    );
    assert_eq!(
        instance.env.len(),
        0,
        "there should be no environmental variables after constructing a Composition"
    );
    assert_eq!(
        instance.cmd.len(),
        0,
        "there should be no commands after constructing a Composition"
    );

    let equal = match instance.start_policy {
        StartPolicy::Relaxed => true,
        _ => false,
    };
    assert!(equal, "start_policy should default to relaxed");
}

// Tests that the with_image constructor creates
// a Composition with the correct values
#[test]
fn test_with_image_constructor() {
    let repository = "this_is_a_repository".to_string();
    let image = Image::with_repository(&repository);

    let instance = Composition::with_image(image);
    assert_eq!(
        repository,
        instance.image.repository(),
        "repository is not set to the correct value"
    );
    assert_eq!(
        repository, instance.container_name,
        "container_name should default to the repository"
    );
    assert_eq!(
        instance.env.len(),
        0,
        "there should be no environmental variables after constructing a Composition"
    );
    assert_eq!(
        instance.cmd.len(),
        0,
        "there should be no commands after constructing a Composition"
    );

    let equal = match instance.start_policy {
        StartPolicy::Relaxed => true,
        _ => false,
    };
    assert!(equal, "start_policy should default to relaxed");
}

// Tests all methods that consumes the Composition
// and mutates a field
#[test]
fn test_mutators() {
    let mut env = EnvVars::new();

    let env_variable = "GOPATH".to_string();
    let env_value = "/home/kim/unsafe".to_string();

    env.insert(&env_variable, &env_value);
    let expected_env = env.clone();

    let cmd = "this_is_a_command".to_string();
    let mut cmds = Vec::new();
    cmds.push(cmd);

    let expected_cmds = cmds.clone();

    let repository = "this_is_a_repository".to_string();

    let container_name = "this_is_a_container_name";

    let instance = Composition::with_repository(&repository)
        .with_start_policy(StartPolicy::Strict)
        .with_env(env)
        .with_cmd(cmds)
        .with_container_name(container_name);

    let equal = match instance.start_policy {
        StartPolicy::Strict => true,
        _ => false,
    };

    assert!(equal, "start_policy was not changed after invoking mutator");
    assert_eq!(
        expected_env, instance.env,
        "environmental variables not set correctly"
    );

    assert_eq!(expected_cmds, instance.cmd, "commands not set correctly");

    let correct_container_name = match instance.user_provided_container_name {
        Some(n) => n == container_name,
        None => false,
    };

    assert!(correct_container_name, "container_name not set correctly");
}

// Tests that the env method succesfully
// adds the given environment variable to the Composition
#[test]
fn test_add_env() {
    let env_variable = "this_is_an_env_var".to_string();
    let env_value = "this_is_an_env_value".to_string();

    let repository = "this_is_a_repository".to_string();
    let mut instance = Composition::with_repository(&repository);

    instance.env(&env_variable, &env_value);

    assert_eq!(
        *instance
            .env
            .get(&env_variable)
            .expect("failed to get value from map that should be there"),
        env_value,
        "environmental variable not added correctly"
    );
}

// Tests that the cmd method succesfully
// adds the given command to the Composition
#[test]
fn test_add_cmd() {
    let cmd = "this_is_a_command".to_string();
    let expected_cmd = vec![cmd.clone()];

    let repository = "this_is_a_repository".to_string();
    let mut instance = Composition::with_repository(&repository);

    instance.cmd(&cmd);

    assert_eq!(
        instance.cmd, expected_cmd,
        "command value not added correctly"
    );
}

// Tests that the configurate_container_name method correctly sets the Composition's
// container_name when the user has not specified a container_name
#[test]
fn test_configurate_container_name_without_user_supplied_name() {
    let repository = "hello-world";
    let mut composition = Composition::with_repository(&repository);

    let suffix = "test123";
    let namespace = "namespace";

    let expected_output = format!("{}-{}-{}", namespace, repository, suffix);

    composition.configure_container_name(&namespace, suffix);

    assert_eq!(
        composition.container_name, expected_output,
        "container_name not configurated correctly"
    );
}

// Tests that the configurate_container_name method correctly sets the Composition's
// container_name when the user has specified a container_name
#[test]
fn test_configurate_container_name_with_user_supplied_name() {
    let repository = "hello-world";
    let container_name = "this_is_a_container";
    let mut composition =
        Composition::with_repository(&repository).with_container_name(container_name);

    let suffix = "test123";
    let namespace = "namespace";

    let expected_output = format!("{}-{}-{}", namespace, container_name, suffix);

    composition.configure_container_name(&namespace, suffix);

    assert_eq!(
        composition.container_name, expected_output,
        "container_name not configurated correctly"
    );
}

// Tests that the configurate_container_name method replaces forward slashes with underscore
// when a user provided name is given.
#[test]
fn test_configurate_container_name_with_user_supplied_name_containing_slashes() {
    let repository = "hello-world";
    let container_name = "this/is/a_container";
    let expected_container_name = "this_is_a_container";

    let mut composition =
        Composition::with_repository(&repository).with_container_name(container_name);

    let suffix = "test123";
    let namespace = "namespace";

    let expected_output = format!("{}-{}-{}", namespace, expected_container_name, suffix);

    composition.configure_container_name(&namespace, suffix);

    assert_eq!(
        composition.container_name, expected_output,
        "container_name not configurated correctly"
    );
}

// Tests that the configurate_container_name method replaces forward slashes with underscore
// when no user provided container name is provided.
#[test]
fn test_configurate_container_name_without_user_supplied_name_containing_slashes() {
    let repository = "hello/world";
    let expected_container_name = "hello_world";

    let mut composition = Composition::with_repository(&repository);

    let suffix = "test123";
    let namespace = "namespace";

    let expected_output = format!("{}-{}-{}", namespace, expected_container_name, suffix);

    composition.configure_container_name(&namespace, suffix);

    assert_eq!(
        composition.container_name, expected_output,
        "container_name not configurated correctly"
    );
}

#[test]
fn repository_slashes_become_dashes_in_default_name() {
    let c = Composition::with_repository("library/redis");
    assert_eq!(c.container_name, "library-redis");
    assert_eq!(c.handle(), "library/redis");
    assert_eq!(c.wait, WaitFor::NoWait);
}

#[test]
fn handle_prefers_user_name() {
    let c = Composition::with_repository("redis").with_container_name("cache");
    assert_eq!(c.handle(), "cache");
}

#[test]
fn env_overwrite_keeps_one_entry() {
    let mut c = Composition::with_repository("redis");
    c.env("A", "1");
    c.env("B", "2");
    c.env("A", "3");
    assert_eq!(c.env.len(), 2);
    assert_eq!(c.env.get("A").map(|s| s.as_str()), Some("3"));
    assert_eq!(c.env.get("B").map(|s| s.as_str()), Some("2"));
    assert_eq!(c.env.get("C"), None);
}

#[test]
fn env_insert_reports_previous_value() {
    let mut env = EnvVars::new();
    assert_eq!(env.insert("K", "v1"), None);
    assert_eq!(env.insert("K", "v2"), Some("v1".to_string()));
}

#[test]
fn env_from_pairs_last_value_wins() {
    let env = EnvVars::from_pairs(vec![
        ("A".to_string(), "1".to_string()),
        ("A".to_string(), "2".to_string()),
    ]);
    assert_eq!(env.len(), 1);
    assert_eq!(env.get("A").map(|s| s.as_str()), Some("2"));
}

#[test]
fn create_request_needs_retrieved_image() {
    let c = Composition::with_repository("redis");
    match c.create_request(None) {
        Err(DockerTestError::Processing(_)) => {}
        other => panic!("unexpected {:?}", other),
    }
}

#[test]
fn create_request_carries_the_declaration() {
    let mut c = Composition::with_repository("redis").with_container_name("cache");
    c.image.set_retrieved_id("sha256:abc");
    c.env("A", "1");
    c.cmd("serve");
    c.configure_container_name("ns", "xyz");
    let q = c.create_request(Some("net")).unwrap();
    assert_eq!(q.name, "ns-cache-xyz");
    assert_eq!(q.image_id, "sha256:abc");
    assert_eq!(q.env, vec!["A=1".to_string()]);
    assert_eq!(q.cmd, vec!["serve".to_string()]);
    assert_eq!(q.network_mode, Some("net".to_string()));
}

#[test]
fn named_volume_and_injection_are_recorded() {
    let mut c = Composition::with_repository("redis");
    c.named_volume("data", "/var/lib/data");
    c.inject_container_name("db", "DB_HOST");
    assert_eq!(c.named_volumes, vec![("data".to_string(), "/var/lib/data".to_string())]);
    assert_eq!(
        c.inject_container_name_env,
        vec![("db".to_string(), "DB_HOST".to_string())]
    );
}
