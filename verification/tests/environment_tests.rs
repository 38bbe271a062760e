use glimmer_weave::environment::{EnvError, Environment};

#[test]
fn a_bind_variable_cannot_be_changed() {
    let mut env: Environment<i64> = Environment::new();
    env.define("name".to_string(), 1);
    match env.set("name", 2) {
        Err(EnvError::ImmutableBinding(n)) => assert_eq!(n, "name"),
        other => panic!("expected an immutable binding, got {:?}", other),
    }
    assert_eq!(env.get("name").unwrap(), 1);
}

#[test]
fn a_weave_variable_can_be_changed() {
    let mut env: Environment<i64> = Environment::new();
    env.define_mut("counter".to_string(), 0);
    assert!(env.set("counter", 5).is_ok());
    assert_eq!(env.get("counter").unwrap(), 5);
}

#[test]
fn an_unknown_variable_is_undefined() {
    let mut env: Environment<i64> = Environment::default();
    assert!(matches!(env.get("x"), Err(EnvError::UndefinedVariable(n)) if n == "x"));
    assert!(matches!(env.set("x", 1), Err(EnvError::UndefinedVariable(n)) if n == "x"));
}

#[test]
fn inner_scopes_shadow_until_they_are_left() {
    let mut env: Environment<i64> = Environment::new();
    env.define("x".to_string(), 1);
    env.push_scope();
    env.define("x".to_string(), 2);
    assert_eq!(env.get("x").unwrap(), 2);
    env.pop_scope();
    assert_eq!(env.get("x").unwrap(), 1);
}

#[test]
fn assignment_reaches_the_outer_scope() {
    let mut env: Environment<i64> = Environment::new();
    env.define_mut("total".to_string(), 10);
    env.push_scope();
    assert!(env.set("total", 11).is_ok());
    env.pop_scope();
    assert_eq!(env.get("total").unwrap(), 11);
}

#[test]
fn the_outermost_scope_is_never_left() {
    let mut env: Environment<i64> = Environment::new();
    env.define("kept".to_string(), 7);
    env.pop_scope();
    env.pop_scope();
    assert_eq!(env.get("kept").unwrap(), 7);
}

#[test]
fn defining_again_in_a_scope_replaces_the_binding() {
    let mut env: Environment<i64> = Environment::new();
    env.define("v".to_string(), 1);
    env.define_mut("v".to_string(), 2);
    assert!(env.set("v", 3).is_ok());
    assert_eq!(env.get("v").unwrap(), 3);
}

#[test]
fn an_immutable_inner_binding_hides_a_mutable_outer_one() {
    let mut env: Environment<i64> = Environment::new();
    env.define_mut("y".to_string(), 1);
    env.push_scope();
    env.define("y".to_string(), 2);
    assert!(matches!(env.set("y", 3), Err(EnvError::ImmutableBinding(_))));
    env.pop_scope();
    assert!(env.set("y", 4).is_ok());
    assert_eq!(env.get("y").unwrap(), 4);
}
