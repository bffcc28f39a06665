//! The part of a kubeconfig that the switcher reads and changes, and the
//! operations on it.
use vstd::prelude::*;

use crate::error::{KctxError, KctxErrorView};
use crate::search::{first_index, lemma_first_index};
use crate::text::{join_path, joined_path};

verus! {

/// The settings of one context: which cluster and user it uses, and its namespace.
#[derive(Debug)]
pub struct ContextData {
    pub cluster: String,
    pub user: Option<String>,
    pub namespace: Option<String>,
}

/// A context entry of the kubeconfig: its name and, when present, its settings.
#[derive(Debug)]
pub struct NamedContext {
    pub name: String,
    pub context: Option<ContextData>,
}

/// The contexts of a kubeconfig and the name of the active one.
#[derive(Debug)]
pub struct KubeConfig {
    pub current_context: Option<String>,
    pub contexts: Vec<NamedContext>,
}

/// The mathematical value of a [`ContextData`].
pub struct ContextDataView {
    pub cluster: Seq<char>,
    pub user: Option<Seq<char>>,
    pub namespace: Option<Seq<char>>,
}

/// The mathematical value of a [`NamedContext`].
pub struct NamedContextView {
    pub name: Seq<char>,
    pub context: Option<ContextDataView>,
}

/// The mathematical value of a [`KubeConfig`].
pub struct KubeConfigView {
    pub current_context: Option<Seq<char>>,
    pub contexts: Seq<NamedContextView>,
}

/// The view of an optional string.
pub open spec fn opt_view(o: Option<String>) -> Option<Seq<char>> {
    match o {
        Some(s) => Some(s@),
        None => None,
    }
}

impl View for ContextData {
    type V = ContextDataView;

    open spec fn view(&self) -> ContextDataView {
        ContextDataView {
            cluster: self.cluster@,
            user: opt_view(self.user),
            namespace: opt_view(self.namespace),
        }
    }
}

impl View for NamedContext {
    type V = NamedContextView;

    open spec fn view(&self) -> NamedContextView {
        NamedContextView {
            name: self.name@,
            context: match self.context {
                Some(c) => Some(c@),
                None => None,
            },
        }
    }
}

impl View for KubeConfig {
    type V = KubeConfigView;

    open spec fn view(&self) -> KubeConfigView {
        KubeConfigView {
            current_context: opt_view(self.current_context),
            contexts: self.contexts@.map_values(|c: NamedContext| c@),
        }
    }
}

/// The namespace used when a context names none.
pub open spec fn default_namespace() -> Seq<char> {
    "default"@
}

/// The names of a list of context entries, in order.
pub open spec fn context_names(contexts: Seq<NamedContextView>) -> Seq<Seq<char>> {
    contexts.map_values(|c: NamedContextView| c.name)
}

/// The position of the first context called `name`, if there is one.
pub open spec fn context_position(contexts: Seq<NamedContextView>, name: Seq<char>) -> Option<int> {
    first_index(context_names(contexts), name)
}

/// What looking up the namespace of the context `name` gives.
pub open spec fn spec_current_namespace(config: KubeConfigView, name: Seq<char>) -> Result<
    Seq<char>,
    KctxErrorView,
> {
    match context_position(config.contexts, name) {
        None => Err(KctxErrorView::ContextNotFound),
        Some(i) => match config.contexts[i].context {
            None => Err(KctxErrorView::ContextDataMissing),
            Some(c) => Ok(
                match c.namespace {
                    Some(ns) => ns,
                    None => default_namespace(),
                },
            ),
        },
    }
}

/// The position of the first context called `name`.
pub fn find_context(contexts: &Vec<NamedContext>, name: &str) -> (res: Option<usize>)
    ensures
        match res {
            Some(i) => context_position(contexts@.map_values(|c: NamedContext| c@), name@) == Some(i as int),
            None => context_position(contexts@.map_values(|c: NamedContext| c@), name@) is None,
        },
{
    let ghost names = context_names(contexts@.map_values(|c: NamedContext| c@));
    let mut i: usize = 0;
    while i < contexts.len()
        invariant
            names == context_names(contexts@.map_values(|c: NamedContext| c@)),
            i <= contexts@.len(),
            forall|j: int| 0 <= j < i ==> #[trigger] names[j] != name@,
        decreases contexts@.len() - i,
    {
        if contexts[i].name == *name {
            proof {
                lemma_first_index(names, name@, i as int);
            }
            return Some(i);
        }
        i += 1;
    }
    proof {
        lemma_first_index(names, name@, 0);
        if names.contains(name@) {
            let k: int = choose|k: int| 0 <= k < names.len() && names[k] == name@;
            assert(names[k] != name@);
        }
    }
    None
}

/// The namespace of the context called `name`, `"default"` when it names none.
pub fn current_namespace(config: &KubeConfig, name: &str) -> (res: Result<String, KctxError>)
    ensures
        match res {
            Ok(ns) => spec_current_namespace(config@, name@) == Ok::<Seq<char>, KctxErrorView>(ns@),
            Err(e) => spec_current_namespace(config@, name@) == Err::<Seq<char>, KctxErrorView>(e@),
        },
{
    match find_context(&config.contexts, name) {
        None => Err(KctxError::ContextNotFound),
        Some(i) => match &config.contexts[i].context {
            None => Err(KctxError::ContextDataMissing),
            Some(c) => match &c.namespace {
                Some(ns) => Ok(ns.clone()),
                None => Ok(String::from_str("default")),
            },
        },
    }
}


/// The settings of the first context called `name`, for changing in place.
pub fn get_mut_context<'a>(config: &'a mut KubeConfig, current_context_name: &str) -> (res: Result<
    &'a mut ContextData,
    KctxError,
>)
    ensures
        match context_position(old(config)@.contexts, current_context_name@) {
            None => res matches Err(e) && e == KctxError::ContextNotFound && *final(config) == *old(config),
            Some(i) => match old(config)@.contexts[i].context {
                None => res matches Err(e) && e == KctxError::ContextEmpty && *final(config) == *old(config),
                Some(c) => res matches Ok(r) && r@ == c
                    && final(config).current_context == old(config).current_context
                    && final(config).contexts@ == old(config).contexts@.update(
                        i,
                        NamedContext { name: old(config).contexts@[i].name, context: Some(*final(r)) },
                    ),
            },
        },
{
    match find_context(&config.contexts, current_context_name) {
        None => Err(KctxError::ContextNotFound),
        Some(i) => {
            // Refuse before borrowing mutably, so that a refusal provably leaves the config as it was.
            if config.contexts[i].context.is_none() {
                return Err(KctxError::ContextEmpty);
            }
            match &mut config.contexts[i].context {
                Some(c) => Ok(c),
                None => Err(KctxError::ContextEmpty),
            }
        },
    }
}


/// The name under which the active context is reported: `"none"` when no context is active.
pub open spec fn spec_current_context_name(config: KubeConfigView) -> Seq<char> {
    match config.current_context {
        Some(name) => name,
        None => "none"@,
    }
}

/// The name of the active context, or `"none"` when no context is active.
pub fn current_context_name(config: &KubeConfig) -> (res: String)
    ensures
        res@ == spec_current_context_name(config@),
{
    match &config.current_context {
        Some(name) => name.clone(),
        None => String::from_str("none"),
    }
}

/// Where the kubeconfig is read from and written to: the `KUBECONFIG`
/// setting when there is one, else `.kube/config` under the home directory.
pub open spec fn spec_kube_config_path(kubeconfig_env: Option<Seq<char>>, home_dir: Option<Seq<char>>) -> Result<
    Seq<char>,
    KctxErrorView,
> {
    match kubeconfig_env {
        Some(path) => Ok(path),
        None => match home_dir {
            Some(home) => Ok(joined_path(joined_path(home, ".kube"@), "config"@)),
            None => Err(KctxErrorView::KubeconfigPathNotFound),
        },
    }
}

/// Chooses the kubeconfig path from the `KUBECONFIG` setting and the home directory.
pub fn kube_config_path(kubeconfig_env: Option<String>, home_dir: Option<String>) -> (res: Result<
    String,
    KctxError,
>)
    ensures
        match res {
            Ok(p) => spec_kube_config_path(opt_view(kubeconfig_env), opt_view(home_dir)) == Ok::<Seq<char>, KctxErrorView>(p@),
            Err(e) => spec_kube_config_path(opt_view(kubeconfig_env), opt_view(home_dir)) == Err::<Seq<char>, KctxErrorView>(e@),
        },
{
    match kubeconfig_env {
        Some(path) => Ok(path),
        None => match home_dir {
            Some(home) => {
                let kube_dir = join_path(home.as_str(), ".kube");
                Ok(join_path(kube_dir.as_str(), "config"))
            },
            None => Err(KctxError::KubeconfigPathNotFound),
        },
    }
}

/// The names present in a namespace listing, in listing order; entries without a name are skipped.
pub open spec fn present_names(items: Seq<Option<Seq<char>>>) -> Seq<Seq<char>>
    decreases items.len(),
{
    if items.len() == 0 {
        Seq::empty()
    } else {
        let rest = present_names(items.drop_last());
        match items.last() {
            Some(n) => rest.push(n),
            None => rest,
        }
    }
}

/// The names of the namespaces that a cluster listed; refused when there is none.
pub fn namespace_names_from_list(items: Vec<Option<String>>) -> (res: Result<Vec<String>, KctxError>)
    ensures
        match res {
            Ok(names) => names@.map_values(|n: String| n@) == present_names(
                items@.map_values(|o: Option<String>| opt_view(o)),
            ) && names@.len() > 0,
            Err(e) => e == KctxError::NoNamespaces && present_names(
                items@.map_values(|o: Option<String>| opt_view(o)),
            ).len() == 0,
        },
{
    let ghost all = items@.map_values(|o: Option<String>| opt_view(o));
    let mut names: Vec<String> = Vec::new();
    let mut i: usize = 0;
    while i < items.len()
        invariant
            all == items@.map_values(|o: Option<String>| opt_view(o)),
            i <= items@.len(),
            names@.map_values(|n: String| n@) == present_names(all.take(i as int)),
        decreases items@.len() - i,
    {
        assert(all.take(i + 1).drop_last() =~= all.take(i as int));
        match &items[i] {
            Some(n) => {
                names.push(n.clone());
                assert(names@.map_values(|n: String| n@) =~= present_names(all.take(i as int)).push(n@));
            },
            None => {},
        }
        i += 1;
    }
    assert(all.take(items@.len() as int) =~= all);
    if names.len() == 0 {
        Err(KctxError::NoNamespaces)
    } else {
        Ok(names)
    }
}

/// Listing one more namespace appends its name when it has one, and changes
/// nothing when it has none; an empty listing has no names.
pub proof fn lemma_present_names_push(items: Seq<Option<Seq<char>>>, item: Option<Seq<char>>)
    ensures
        present_names(Seq::<Option<Seq<char>>>::empty()) == Seq::<Seq<char>>::empty(),
        item matches Some(n) ==> present_names(items.push(item)) == present_names(items).push(n),
        item is None ==> present_names(items.push(item)) == present_names(items),
{
    assert(items.push(item).drop_last() =~= items);
}

/// How many entries of a listing carry a name.
pub open spec fn named_count(items: Seq<Option<Seq<char>>>) -> nat
    decreases items.len(),
{
    if items.len() == 0 {
        0
    } else {
        named_count(items.drop_last()) + if items.last() is Some { 1nat } else { 0nat }
    }
}

/// Every named entry of a listing is kept: its name is among the names, and
/// there are exactly as many names as named entries, each one taken from the listing.
pub proof fn lemma_present_names_keeps_every_name(items: Seq<Option<Seq<char>>>)
    ensures
        present_names(items).len() == named_count(items),
        forall|k: int|
            0 <= k < items.len() && #[trigger] items[k] is Some ==> present_names(items).contains(
                items[k]->0,
            ),
        forall|j: int|
            0 <= j < present_names(items).len() ==> items.contains(Some(#[trigger] present_names(items)[j])),
    decreases items.len(),
{
    if items.len() > 0 {
        let rest = items.drop_last();
        lemma_present_names_keeps_every_name(rest);
        let r = present_names(rest);
        let p = present_names(items);
        assert forall|k: int| 0 <= k < items.len() && #[trigger] items[k] is Some implies p.contains(
            items[k]->0,
        ) by {
            if k < items.len() - 1 {
                assert(rest[k] == items[k]);
                assert(r.contains(items[k]->0));
                let j: int = choose|j: int| 0 <= j < r.len() && r[j] == items[k]->0;
                assert(p[j] == items[k]->0);
            } else {
                assert(p[p.len() - 1] == items[k]->0);
            }
        }
        assert forall|j: int| 0 <= j < p.len() implies items.contains(Some(#[trigger] p[j])) by {
            if j < r.len() {
                assert(p[j] == r[j]);
                assert(rest.contains(Some(r[j])));
                let k: int = choose|k: int| 0 <= k < rest.len() && rest[k] == Some(r[j]);
                assert(items[k] == Some(r[j]));
            } else {
                assert(items[items.len() - 1] == Some(p[j]));
            }
        }
    }
}

/// The first entry with a name decides what reading it gives: entries added
/// after it change nothing, and with no entry of that name the read is refused.
pub proof fn lemma_first_entry_decides(config: KubeConfigView, name: Seq<char>, extra: NamedContextView)
    ensures
        context_names(config.contexts).contains(name) ==> spec_current_namespace(
            KubeConfigView { contexts: config.contexts.push(extra), ..config },
            name,
        ) == spec_current_namespace(config, name),
        !context_names(config.contexts).contains(name) ==> spec_current_namespace(config, name)
            == Err::<Seq<char>, KctxErrorView>(KctxErrorView::ContextNotFound),
        forall|i: int|
            0 <= i < config.contexts.len() && config.contexts[i].name == name && (forall|j: int|
                0 <= j < i ==> #[trigger] config.contexts[j].name != name) ==> spec_current_namespace(config, name)
                == match config.contexts[i].context {
                None => Err::<Seq<char>, KctxErrorView>(KctxErrorView::ContextDataMissing),
                Some(c) => Ok(
                    match c.namespace {
                        Some(ns) => ns,
                        None => "default"@,
                    },
                ),
            },
{
    let names = context_names(config.contexts);
    let longer = KubeConfigView { contexts: config.contexts.push(extra), ..config };
    let lnames = context_names(longer.contexts);
    lemma_first_index(names, name, 0);
    if names.contains(name) {
        let p: int = context_position(config.contexts, name)->0;
        assert(lnames[p] == names[p]);
        assert forall|j: int| 0 <= j < p implies #[trigger] lnames[j] != name by {
            assert(lnames[j] == names[j]);
        }
        lemma_first_index(lnames, name, p);
    }
    assert forall|i: int|
        0 <= i < config.contexts.len() && config.contexts[i].name == name && (forall|j: int|
            0 <= j < i ==> #[trigger] config.contexts[j].name != name) implies spec_current_namespace(
        config,
        name,
    ) == match config.contexts[i].context {
        None => Err::<Seq<char>, KctxErrorView>(KctxErrorView::ContextDataMissing),
        Some(c) => Ok(
            match c.namespace {
                Some(ns) => ns,
                None => "default"@,
            },
        ),
    } by {
        assert forall|j: int| 0 <= j < i implies #[trigger] names[j] != name by {
            assert(config.contexts[j].name != name);
        }
        lemma_first_index(names, name, i);
    }
}

} // verus!
