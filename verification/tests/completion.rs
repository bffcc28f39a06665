use kctx::completion::{
    fetch_error_help, filter_namespaces, namespace_candidates, next_completion_step, CompletionAction,
    CompletionEvent,
};
use kctx::text::{chars_of, contains_substring, join_path};

fn names() -> Vec<String> {
    vec!["default".to_string(), "kube-system".to_string(), "Kube-Public".to_string(), "web".to_string()]
}

#[test]
fn filter_is_case_insensitive_and_keeps_order() {
    assert_eq!(
        filter_namespaces(&names(), "KUBE"),
        vec!["kube-system".to_string(), "Kube-Public".to_string()]
    );
    assert_eq!(filter_namespaces(&names(), "sys"), vec!["kube-system".to_string()]);
    assert_eq!(filter_namespaces(&names(), "zzz"), Vec::<String>::new());
}

#[test]
fn empty_input_offers_every_namespace() {
    assert_eq!(filter_namespaces(&names(), ""), names());
}

#[test]
fn candidates_carry_the_namespace_help() {
    let cs = namespace_candidates(&names(), "we");
    assert_eq!(cs.len(), 1);
    assert_eq!(cs[0].value, "web");
    assert_eq!(cs[0].help.as_deref(), Some("Namespace"));
}

#[test]
fn completion_steps() {
    match next_completion_step("", CompletionEvent::ConfigLoaded(Err("Failed to read kubeconfig".to_string()))) {
        CompletionAction::Finish(cs) => {
            assert_eq!(cs.len(), 1);
            assert_eq!(cs[0].value, "");
            assert_eq!(cs[0].help.as_deref(), Some("Config Error: Failed to read kubeconfig"));
        }
        _ => panic!("expected finish"),
    }
    match next_completion_step("", CompletionEvent::ConfigLoaded(Ok(None))) {
        CompletionAction::Finish(cs) => assert_eq!(cs[0].help.as_deref(), Some("Error: No active context set")),
        _ => panic!("expected finish"),
    }
    match next_completion_step("", CompletionEvent::ConfigLoaded(Ok(Some("prod".to_string())))) {
        CompletionAction::CheckCache(c) => assert_eq!(c, "prod"),
        _ => panic!("expected cache check"),
    }
    match next_completion_step("k", CompletionEvent::CacheChecked { context: "prod".to_string(), cached: Some(names()) }) {
        CompletionAction::Finish(cs) => assert_eq!(cs.len(), 2),
        _ => panic!("expected finish"),
    }
    match next_completion_step("k", CompletionEvent::CacheChecked { context: "prod".to_string(), cached: None }) {
        CompletionAction::FetchNamespaces(c) => assert_eq!(c, "prod"),
        _ => panic!("expected fetch"),
    }
    match next_completion_step("k", CompletionEvent::RuntimeUnavailable) {
        CompletionAction::Finish(cs) => assert!(cs.is_empty()),
        _ => panic!("expected finish"),
    }
    match next_completion_step("w", CompletionEvent::NamespacesFetched(Ok(names()))) {
        CompletionAction::Finish(cs) => {
            assert_eq!(cs.len(), 1);
            assert_eq!(cs[0].value, "web");
        }
        _ => panic!("expected finish"),
    }
}

#[test]
fn fetch_errors_are_reported() {
    assert_eq!(fetch_error_help("Network timeout while fetching namespaces"), "Error: Network timeout (200ms)");
    assert_eq!(fetch_error_help("connection refused"), "Error: connection refused");
}

#[test]
fn text_helpers() {
    assert!(contains_substring("kube-system", "be-s"));
    assert!(contains_substring("abc", ""));
    assert!(!contains_substring("abc", "abcd"));
    assert!(!contains_substring("abc", "ac"));
    assert_eq!(chars_of("héllo"), vec!['h', 'é', 'l', 'l', 'o']);
    assert_eq!(join_path("a", "b"), "a/b");
    assert_eq!(join_path("a/", "b"), "a/b");
}

#[test]
fn matching_on_lowered_names() {
    let names = vec!["Alpha".to_string(), "beta".to_string(), "ALPHABET".to_string()];
    let lowered = vec!["alpha".to_string(), "beta".to_string(), "alphabet".to_string()];
    assert_eq!(
        kctx::completion::matching_lowered(&names, &lowered, "alpha"),
        vec!["Alpha".to_string(), "ALPHABET".to_string()]
    );
    assert_eq!(kctx::completion::matching_lowered(&names, &lowered, "bet"), vec!["beta".to_string(), "ALPHABET".to_string()]);
}

#[test]
fn longer_query_offers_fewer_names() {
    let short = filter_namespaces(&names(), "k");
    let long = filter_namespaces(&names(), "KUBE-S");
    assert_eq!(short, vec!["kube-system".to_string(), "Kube-Public".to_string()]);
    assert_eq!(long, vec!["kube-system".to_string()]);
}
