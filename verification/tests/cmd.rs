use kctx::cmd::context::{context_step, ContextAction, ContextEvent};
use kctx::cmd::namespace::{namespace_step, NamespaceAction, NamespaceEvent};
use kctx::cmd::context::{list_context_names, plan, switch_context, ContextSelection};
use kctx::cmd::default_index;
use kctx::cmd::namespace::{check_namespace_exists, set_namespace};
use kctx::error::KctxError;
use kctx::kube_config::{current_context_name, current_namespace, ContextData, KubeConfig, NamedContext};

fn context(name: &str, namespace: Option<&str>) -> NamedContext {
    NamedContext {
        name: name.to_string(),
        context: Some(ContextData {
            cluster: "c".to_string(),
            user: None,
            namespace: namespace.map(|n| n.to_string()),
        }),
    }
}

fn sample() -> KubeConfig {
    KubeConfig {
        current_context: Some("staging".to_string()),
        contexts: vec![context("dev", None), context("staging", Some("web")), context("prod", Some("api"))],
    }
}

#[test]
fn default_index_points_at_the_current_entry() {
    let items = vec!["a".to_string(), "b".to_string(), "c".to_string()];
    assert_eq!(default_index(&items, "b"), 1);
    assert_eq!(default_index(&items, "zzz"), 0);
    assert_eq!(default_index(&Vec::new(), "a"), 0);
}

#[test]
fn context_plan_with_a_known_name_switches() {
    let config = sample();
    match plan(&config, "staging", Some("prod".to_string())).unwrap() {
        ContextSelection::Switch(t) => assert_eq!(t, "prod"),
        _ => panic!("expected a switch"),
    }
}

#[test]
fn context_plan_with_an_unknown_name_is_refused() {
    let config = sample();
    let e = plan(&config, "staging", Some("qa".to_string())).err().unwrap();
    assert!(matches!(&e, KctxError::UnknownContext(n) if n == "qa"));
    assert_eq!(e.message(), "the context qa does not exist in the kubeconfig.");
}

#[test]
fn context_plan_without_a_name_prompts_on_the_active_context() {
    let config = sample();
    match plan(&config, "staging", None).unwrap() {
        ContextSelection::Prompt { items, default_index } => {
            assert_eq!(items, vec!["dev".to_string(), "staging".to_string(), "prod".to_string()]);
            assert_eq!(default_index, 1);
        }
        _ => panic!("expected a prompt"),
    }
    assert_eq!(list_context_names(&config).len(), 3);
}

#[test]
fn switching_context_changes_only_the_active_name() {
    let mut config = sample();
    switch_context(&mut config, "prod".to_string());
    assert_eq!(current_context_name(&config), "prod");
    assert_eq!(current_namespace(&config, "staging").unwrap(), "web");
}

#[test]
fn namespace_plan_refuses_without_active_context() {
    let config = sample();
    let e = kctx::cmd::namespace::plan(&config, "none").unwrap_err();
    assert!(matches!(e, KctxError::NoActiveContext));
    assert_eq!(e.message(), "No active context set, cannot change namespace");
}

#[test]
fn namespace_plan_reads_the_current_namespace() {
    let config = sample();
    assert_eq!(kctx::cmd::namespace::plan(&config, "dev").unwrap(), "default");
    assert_eq!(kctx::cmd::namespace::plan(&config, "prod").unwrap(), "api");
    let e = kctx::cmd::namespace::plan(&config, "missing").unwrap_err();
    assert!(matches!(e, KctxError::ContextNotFound));
}

#[test]
fn namespace_existence_check() {
    assert_eq!(check_namespace_exists("web".to_string(), true).unwrap(), "web");
    let e = check_namespace_exists("nope".to_string(), false).unwrap_err();
    assert_eq!(e.message(), "Namespace nope does not exist.");
}

#[test]
fn set_namespace_then_read_gives_it_back() {
    let mut config = sample();
    set_namespace(&mut config, "dev", "team-a".to_string()).unwrap();
    assert_eq!(current_namespace(&config, "dev").unwrap(), "team-a");
    assert_eq!(current_namespace(&config, "prod").unwrap(), "api");
    assert_eq!(current_context_name(&config), "staging");
}

#[test]
fn set_namespace_refusals() {
    let mut config = sample();
    config.contexts.push(NamedContext { name: "bare".to_string(), context: None });
    let e = set_namespace(&mut config, "bare", "x".to_string()).unwrap_err();
    assert!(matches!(e, KctxError::ContextEmpty));
    let e = set_namespace(&mut config, "ghost", "x".to_string()).unwrap_err();
    assert!(matches!(e, KctxError::ContextNotFound));
}

#[test]
fn context_steps() {
    let mut config = sample();
    match context_step(&mut config, "staging", ContextEvent::Start(None)) {
        ContextAction::Prompt { items, default_index } => {
            assert_eq!(items.len(), 3);
            assert_eq!(default_index, 1);
        }
        other => panic!("unexpected {:?}", other),
    }
    assert!(matches!(context_step(&mut config, "staging", ContextEvent::Picked(None)), ContextAction::Cancelled));
    assert_eq!(current_context_name(&config), "staging");
    match context_step(&mut config, "staging", ContextEvent::Picked(Some("dev".to_string()))) {
        ContextAction::Switched(t) => assert_eq!(t, "dev"),
        other => panic!("unexpected {:?}", other),
    }
    assert_eq!(current_context_name(&config), "dev");
    match context_step(&mut config, "dev", ContextEvent::Start(Some("qa".to_string()))) {
        ContextAction::Fail(e) => assert_eq!(e.message(), "the context qa does not exist in the kubeconfig."),
        other => panic!("unexpected {:?}", other),
    }
    assert_eq!(current_context_name(&config), "dev");
}

#[test]
fn namespace_steps() {
    let mut config = sample();
    assert!(matches!(
        namespace_step(&mut config, "none", NamespaceEvent::Start(Some("x".to_string()))),
        NamespaceAction::Fail(KctxError::NoActiveContext)
    ));
    match namespace_step(&mut config, "staging", NamespaceEvent::Start(None)) {
        NamespaceAction::ListNamespaces(cur) => assert_eq!(cur, "web"),
        other => panic!("unexpected {:?}", other),
    }
    match namespace_step(&mut config, "staging", NamespaceEvent::Start(Some("api".to_string()))) {
        NamespaceAction::CheckExists(n) => assert_eq!(n, "api"),
        other => panic!("unexpected {:?}", other),
    }
    match namespace_step(
        &mut config,
        "staging",
        NamespaceEvent::Listed { current_namespace: "web".to_string(), names: vec!["api".to_string(), "web".to_string()] },
    ) {
        NamespaceAction::Prompt { default_index, .. } => assert_eq!(default_index, 1),
        other => panic!("unexpected {:?}", other),
    }
    assert!(matches!(namespace_step(&mut config, "staging", NamespaceEvent::Picked(None)), NamespaceAction::Cancelled));
    assert!(matches!(
        namespace_step(&mut config, "staging", NamespaceEvent::Checked { name: "nope".to_string(), exists: false }),
        NamespaceAction::Fail(KctxError::NamespaceNotFound(_))
    ));
    assert_eq!(current_namespace(&config, "staging").unwrap(), "web");
    match namespace_step(&mut config, "staging", NamespaceEvent::Picked(Some("api".to_string()))) {
        NamespaceAction::Changed(n) => assert_eq!(n, "api"),
        other => panic!("unexpected {:?}", other),
    }
    assert_eq!(current_namespace(&config, "staging").unwrap(), "api");
}
