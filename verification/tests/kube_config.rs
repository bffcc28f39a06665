use kctx::error::KctxError;
use kctx::kube_config::{
    current_context_name, current_namespace, find_context, get_mut_context, kube_config_path,
    namespace_names_from_list, ContextData, KubeConfig, NamedContext,
};

fn context(name: &str, namespace: Option<&str>) -> NamedContext {
    NamedContext {
        name: name.to_string(),
        context: Some(ContextData {
            cluster: "test-cluster".to_string(),
            user: Some("test-user".to_string()),
            namespace: namespace.map(|n| n.to_string()),
        }),
    }
}

fn empty_config() -> KubeConfig {
    KubeConfig { current_context: None, contexts: Vec::new() }
}

#[test]
fn test_current_namespace_default() {
    let mut config = empty_config();
    config.contexts.push(context("test-ctx", None));

    let ns = current_namespace(&config, "test-ctx").unwrap();
    assert_eq!(ns, "default");
}

#[test]
fn test_current_namespace_custom() {
    let mut config = empty_config();
    config.contexts.push(context("test-ctx", Some("custom-ns")));

    let ns = current_namespace(&config, "test-ctx").unwrap();
    assert_eq!(ns, "custom-ns");
}

#[test]
fn current_namespace_unknown_context_is_refused() {
    let mut config = empty_config();
    config.contexts.push(context("a", Some("x")));
    let err = current_namespace(&config, "b").unwrap_err();
    assert!(matches!(err, KctxError::ContextNotFound));
    assert_eq!(err.message(), "Current context not found in config file");
}

#[test]
fn current_namespace_missing_data_is_refused() {
    let mut config = empty_config();
    config.contexts.push(NamedContext { name: "a".to_string(), context: None });
    let err = current_namespace(&config, "a").unwrap_err();
    assert!(matches!(err, KctxError::ContextDataMissing));
    assert_eq!(err.message(), "Context data is missing/invalid");
}

#[test]
fn current_namespace_uses_first_entry_of_a_name() {
    let mut config = empty_config();
    config.contexts.push(context("dup", Some("first")));
    config.contexts.push(context("dup", Some("second")));
    assert_eq!(current_namespace(&config, "dup").unwrap(), "first");
    assert_eq!(find_context(&config.contexts, "dup"), Some(0));
    assert_eq!(find_context(&config.contexts, "other"), None);
}

#[test]
fn get_mut_context_changes_the_named_context() {
    let mut config = empty_config();
    config.contexts.push(context("a", Some("x")));
    config.contexts.push(context("b", None));
    {
        let ctx = get_mut_context(&mut config, "b").unwrap();
        assert_eq!(ctx.namespace, None);
        ctx.namespace = Some("y".to_string());
    }
    assert_eq!(current_namespace(&config, "b").unwrap(), "y");
    assert_eq!(current_namespace(&config, "a").unwrap(), "x");
}

#[test]
fn get_mut_context_errors() {
    let mut config = empty_config();
    config.contexts.push(NamedContext { name: "a".to_string(), context: None });
    let e1 = get_mut_context(&mut config, "a").err().unwrap();
    assert!(matches!(e1, KctxError::ContextEmpty));
    assert_eq!(e1.message(), "This context is empty or invalid");
    let e2 = get_mut_context(&mut config, "zzz").err().unwrap();
    assert!(matches!(e2, KctxError::ContextNotFound));
}

#[test]
fn current_context_name_defaults_to_none() {
    let mut config = empty_config();
    assert_eq!(current_context_name(&config), "none");
    config.current_context = Some("prod".to_string());
    assert_eq!(current_context_name(&config), "prod");
}

#[test]
fn kube_config_path_prefers_the_environment() {
    let p = kube_config_path(Some("/tmp/kc".to_string()), Some("/home/u".to_string())).unwrap();
    assert_eq!(p, "/tmp/kc");
    let p = kube_config_path(None, Some("/home/u".to_string())).unwrap();
    assert_eq!(p, "/home/u/.kube/config");
    let p = kube_config_path(None, Some("/home/u/".to_string())).unwrap();
    assert_eq!(p, "/home/u/.kube/config");
    let e = kube_config_path(None, None).unwrap_err();
    assert!(matches!(e, KctxError::KubeconfigPathNotFound));
    assert_eq!(
        e.message(),
        "Could not find kubeconfig path. Please set KUBECONFIG or ensure HOME is set."
    );
}

#[test]
fn namespace_names_skip_unnamed_entries() {
    let names = namespace_names_from_list(vec![
        Some("default".to_string()),
        None,
        Some("kube-system".to_string()),
    ])
    .unwrap();
    assert_eq!(names, vec!["default".to_string(), "kube-system".to_string()]);
}

#[test]
fn namespace_names_refuse_an_empty_listing() {
    let e = namespace_names_from_list(vec![None, None]).unwrap_err();
    assert!(matches!(e, KctxError::NoNamespaces));
    assert_eq!(e.message(), "No namespaces found in the cluster.");
    assert!(namespace_names_from_list(Vec::new()).is_err());
}
