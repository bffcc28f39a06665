//! Changing the namespace of the active context.
use vstd::prelude::*;

use crate::cmd::{default_index, spec_default_index};
use crate::error::{KctxError, KctxErrorView};
use crate::search::string_views;
use crate::kube_config::{
    context_names, context_position, get_mut_context, spec_current_namespace,
    ContextDataView, KubeConfig, KubeConfigView, NamedContext, NamedContextView,
};

verus! {

/// The namespace the active context uses now, as read before changing it:
/// refused when no context is active (reported as `"none"`), when the context
/// does not exist, or when it has no settings.
pub open spec fn spec_plan(config: KubeConfigView, current_context_name: Seq<char>) -> Result<
    Seq<char>,
    KctxErrorView,
> {
    if current_context_name == "none"@ {
        Err(KctxErrorView::NoActiveContext)
    } else {
        match spec_current_namespace(config, current_context_name) {
            Err(KctxErrorView::ContextDataMissing) => Err(KctxErrorView::ContextEmpty),
            other => other,
        }
    }
}

/// Checks that a namespace change can start, and returns the namespace that
/// the active context uses now.
pub fn plan(config: &KubeConfig, current_context_name: &str) -> (res: Result<String, KctxError>)
    ensures
        match res {
            Ok(ns) => spec_plan(config@, current_context_name@) == Ok::<Seq<char>, KctxErrorView>(ns@),
            Err(e) => spec_plan(config@, current_context_name@) == Err::<Seq<char>, KctxErrorView>(e@),
        },
{
    let name = String::from_str(current_context_name);
    if name == *"none" {
        return Err(KctxError::NoActiveContext);
    }
    match crate::kube_config::current_namespace(config, current_context_name) {
        Err(KctxError::ContextDataMissing) => Err(KctxError::ContextEmpty),
        other => other,
    }
}

/// Accepts a requested namespace when the cluster knows it.
pub fn check_namespace_exists(name: String, exists: bool) -> (res: Result<String, KctxError>)
    ensures
        exists ==> (res matches Ok(n) && n@ == name@),
        !exists ==> (res matches Err(KctxError::NamespaceNotFound(n)) && n@ == name@),
{
    if exists {
        Ok(name)
    } else {
        Err(KctxError::NamespaceNotFound(name))
    }
}

/// The kubeconfig after the first context called `name` is given the
/// namespace `ns`; refused when that context does not exist or has no settings.
pub open spec fn spec_set_namespace(config: KubeConfigView, name: Seq<char>, ns: Seq<char>) -> Result<
    KubeConfigView,
    KctxErrorView,
> {
    match context_position(config.contexts, name) {
        None => Err(KctxErrorView::ContextNotFound),
        Some(i) => match config.contexts[i].context {
            None => Err(KctxErrorView::ContextEmpty),
            Some(c) => Ok(
                KubeConfigView {
                    contexts: config.contexts.update(
                        i,
                        NamedContextView {
                            context: Some(ContextDataView { namespace: Some(ns), ..c }),
                            ..config.contexts[i]
                        },
                    ),
                    ..config
                },
            ),
        },
    }
}

/// Gives the first context called `context_name` the namespace `namespace`.
pub fn set_namespace(config: &mut KubeConfig, context_name: &str, namespace: String) -> (res: Result<
    (),
    KctxError,
>)
    ensures
        match spec_set_namespace(old(config)@, context_name@, namespace@) {
            Ok(c) => res is Ok && final(config)@ == c,
            Err(e) => res matches Err(x) && x@ == e && final(config)@ == old(config)@,
        },
{
    let ghost ns = namespace@;
    match get_mut_context(config, context_name) {
        Ok(ctx) => {
            ctx.namespace = Some(namespace);
        },
        Err(e) => {
            return Err(e);
        },
    }
    proof {
        let old_views = old(config).contexts@.map_values(|c: NamedContext| c@);
        let i: int = context_position(old_views, context_name@)->0;
        let new_views = config.contexts@.map_values(|c: NamedContext| c@);
        assert(new_views =~= old_views.update(i, new_views[i]));
    }
    Ok(())
}


/// Giving a context a namespace changes no context name, nor which context is active.
pub proof fn lemma_set_namespace_keeps_names(config: KubeConfigView, name: Seq<char>, ns: Seq<char>)
    requires
        spec_set_namespace(config, name, ns) is Ok,
    ensures
        context_names(spec_set_namespace(config, name, ns)->Ok_0.contexts) == context_names(config.contexts),
        spec_set_namespace(config, name, ns)->Ok_0.current_context == config.current_context,
{
    let after = spec_set_namespace(config, name, ns)->Ok_0;
    assert(context_names(after.contexts) =~= context_names(config.contexts));
}

/// Reading the namespace of a context right after setting it gives the namespace that was set.
pub proof fn lemma_set_namespace_then_read(config: KubeConfigView, name: Seq<char>, ns: Seq<char>)
    requires
        spec_set_namespace(config, name, ns) is Ok,
    ensures
        spec_current_namespace(spec_set_namespace(config, name, ns)->Ok_0, name) == Ok::<
            Seq<char>,
            KctxErrorView,
        >(ns),
{
    lemma_set_namespace_keeps_names(config, name, ns);
}

/// Setting the namespace of one context leaves what every other context name reads unchanged.
pub proof fn lemma_set_namespace_keeps_others(
    config: KubeConfigView,
    name: Seq<char>,
    ns: Seq<char>,
    other: Seq<char>,
)
    requires
        spec_set_namespace(config, name, ns) is Ok,
        other != name,
    ensures
        spec_current_namespace(spec_set_namespace(config, name, ns)->Ok_0, other)
            == spec_current_namespace(config, other),
{
    lemma_set_namespace_keeps_names(config, name, ns);
    let i: int = context_position(config.contexts, name)->0;
    crate::search::lemma_first_index(context_names(config.contexts), name, i);
    crate::search::lemma_first_index(context_names(config.contexts), other, 0);
    if context_position(config.contexts, other) is Some {
        let j: int = context_position(config.contexts, other)->0;
        assert(context_names(config.contexts)[j] == other);
        assert(j != i);
    }
}

/// A namespace can be set on exactly the context names whose namespace can be
/// read, and the refusal reasons correspond.
pub proof fn lemma_set_namespace_refused_iff_unreadable(
    config: KubeConfigView,
    name: Seq<char>,
    ns: Seq<char>,
)
    ensures
        (spec_set_namespace(config, name, ns) is Err) == (spec_current_namespace(config, name) is Err),
        spec_current_namespace(config, name) == Err::<Seq<char>, KctxErrorView>(KctxErrorView::ContextNotFound)
            <==> spec_set_namespace(config, name, ns) == Err::<KubeConfigView, KctxErrorView>(
            KctxErrorView::ContextNotFound,
        ),
        spec_current_namespace(config, name) == Err::<Seq<char>, KctxErrorView>(KctxErrorView::ContextDataMissing)
            <==> spec_set_namespace(config, name, ns) == Err::<KubeConfigView, KctxErrorView>(
            KctxErrorView::ContextEmpty,
        ),
{
}

/// Unless no context is active, the namespace a change starts from is the
/// namespace that reading the active context gives, and it is refused on the
/// same context names.
pub proof fn lemma_plan_reads_current_namespace(config: KubeConfigView, name: Seq<char>)
    requires
        name != "none"@,
    ensures
        (spec_plan(config, name) is Ok) == (spec_current_namespace(config, name) is Ok),
        spec_plan(config, name) is Ok ==> spec_plan(config, name)->Ok_0 == spec_current_namespace(
            config,
            name,
        )->Ok_0,
{
}

/// What the namespace command learned from its last piece of outside work.
#[derive(Debug)]
pub enum NamespaceEvent {
    /// The command was started, with or without a namespace name.
    Start(Option<String>),
    /// The cluster was asked whether the named namespace exists.
    Checked { name: String, exists: bool },
    /// The cluster listed these namespaces; `current_namespace` is the one the
    /// step before reported.
    Listed { current_namespace: String, names: Vec<String> },
    /// The user picked an entry of the selection list, or cancelled it.
    Picked(Option<String>),
}

/// What the namespace command does next.
#[derive(Debug)]
pub enum NamespaceAction {
    /// Ask the cluster whether this namespace exists.
    CheckExists(String),
    /// Ask the cluster for its namespaces; the active context uses this one now.
    ListNamespaces(String),
    /// Show a selection list of these names that starts on the given entry.
    Prompt { items: Vec<String>, default_index: usize },
    /// The active context now uses this namespace: write the kubeconfig and report it.
    Changed(String),
    /// Stop without writing anything.
    Cancelled,
    /// Stop with this error, writing nothing.
    Fail(KctxError),
}

/// The mathematical value of a [`NamespaceEvent`].
pub enum NamespaceEventView {
    Start(Option<Seq<char>>),
    Checked { name: Seq<char>, exists: bool },
    Listed { current_namespace: Seq<char>, names: Seq<Seq<char>> },
    Picked(Option<Seq<char>>),
}

/// The mathematical value of a [`NamespaceAction`].
pub enum NamespaceActionView {
    CheckExists(Seq<char>),
    ListNamespaces(Seq<char>),
    Prompt { items: Seq<Seq<char>>, default_index: int },
    Changed(Seq<char>),
    Cancelled,
    Fail(KctxErrorView),
}

impl View for NamespaceEvent {
    type V = NamespaceEventView;

    open spec fn view(&self) -> NamespaceEventView {
        match self {
            NamespaceEvent::Start(n) => NamespaceEventView::Start(crate::kube_config::opt_view(*n)),
            NamespaceEvent::Checked { name, exists } => NamespaceEventView::Checked {
                name: name@,
                exists: *exists,
            },
            NamespaceEvent::Listed { current_namespace, names } => NamespaceEventView::Listed {
                current_namespace: current_namespace@,
                names: string_views(names@),
            },
            NamespaceEvent::Picked(n) => NamespaceEventView::Picked(crate::kube_config::opt_view(*n)),
        }
    }
}

impl View for NamespaceAction {
    type V = NamespaceActionView;

    open spec fn view(&self) -> NamespaceActionView {
        match self {
            NamespaceAction::CheckExists(n) => NamespaceActionView::CheckExists(n@),
            NamespaceAction::ListNamespaces(n) => NamespaceActionView::ListNamespaces(n@),
            NamespaceAction::Prompt { items, default_index } => NamespaceActionView::Prompt {
                items: string_views(items@),
                default_index: *default_index as int,
            },
            NamespaceAction::Changed(n) => NamespaceActionView::Changed(n@),
            NamespaceAction::Cancelled => NamespaceActionView::Cancelled,
            NamespaceAction::Fail(e) => NamespaceActionView::Fail(e@),
        }
    }
}

/// Giving the active context the namespace `ns`: the kubeconfig afterwards and what to do next.
pub open spec fn spec_apply_namespace(config: KubeConfigView, context: Seq<char>, ns: Seq<char>) -> (
    KubeConfigView,
    NamespaceActionView,
) {
    match spec_set_namespace(config, context, ns) {
        Ok(c) => (c, NamespaceActionView::Changed(ns)),
        Err(e) => (config, NamespaceActionView::Fail(e)),
    }
}

/// One step of the namespace command for the active context
/// `current_context_name`: the kubeconfig afterwards and what to do next.
pub open spec fn spec_namespace_step(
    config: KubeConfigView,
    current_context_name: Seq<char>,
    event: NamespaceEventView,
) -> (KubeConfigView, NamespaceActionView) {
    match event {
        NamespaceEventView::Start(requested) => match spec_plan(config, current_context_name) {
            Err(e) => (config, NamespaceActionView::Fail(e)),
            Ok(current) => match requested {
                Some(name) => (config, NamespaceActionView::CheckExists(name)),
                None => (config, NamespaceActionView::ListNamespaces(current)),
            },
        },
        NamespaceEventView::Checked { name, exists } => if exists {
            spec_apply_namespace(config, current_context_name, name)
        } else {
            (config, NamespaceActionView::Fail(KctxErrorView::NamespaceNotFound(name)))
        },
        NamespaceEventView::Listed { current_namespace, names } => (
            config,
            NamespaceActionView::Prompt {
                items: names,
                default_index: spec_default_index(names, current_namespace),
            },
        ),
        NamespaceEventView::Picked(None) => (config, NamespaceActionView::Cancelled),
        NamespaceEventView::Picked(Some(name)) => spec_apply_namespace(
            config,
            current_context_name,
            name,
        ),
    }
}

fn apply_namespace(config: &mut KubeConfig, context: &str, ns: String) -> (res: NamespaceAction)
    ensures
        (final(config)@, res@) == spec_apply_namespace(old(config)@, context@, ns@),
{
    let reported = ns.clone();
    match set_namespace(config, context, ns) {
        Ok(()) => NamespaceAction::Changed(reported),
        Err(e) => NamespaceAction::Fail(e),
    }
}

/// Runs one step of the namespace command on `config` for the active context.
pub fn namespace_step(config: &mut KubeConfig, current_context_name: &str, event: NamespaceEvent) -> (res:
    NamespaceAction)
    ensures
        (final(config)@, res@) == spec_namespace_step(old(config)@, current_context_name@, event@),
{
    match event {
        NamespaceEvent::Start(requested) => match plan(config, current_context_name) {
            Err(e) => NamespaceAction::Fail(e),
            Ok(current) => match requested {
                Some(name) => NamespaceAction::CheckExists(name),
                None => NamespaceAction::ListNamespaces(current),
            },
        },
        NamespaceEvent::Checked { name, exists } => match check_namespace_exists(name, exists) {
            Ok(name) => apply_namespace(config, current_context_name, name),
            Err(e) => NamespaceAction::Fail(e),
        },
        NamespaceEvent::Listed { current_namespace, names } => {
            let start: usize = default_index(&names, current_namespace.as_str());
            NamespaceAction::Prompt { items: names, default_index: start }
        },
        NamespaceEvent::Picked(None) => NamespaceAction::Cancelled,
        NamespaceEvent::Picked(Some(name)) => apply_namespace(config, current_context_name, name),
    }
}

/// A refused start asks the cluster nothing and writes nothing.
pub proof fn lemma_refuse_before_cluster(
    config: KubeConfigView,
    current_context_name: Seq<char>,
    requested: Option<Seq<char>>,
)
    ensures
        spec_plan(config, current_context_name) is Err ==> spec_namespace_step(
            config,
            current_context_name,
            NamespaceEventView::Start(requested),
        ) == (config, NamespaceActionView::Fail(spec_plan(config, current_context_name)->Err_0)),
{
}

/// Picking a namespace from the list does what naming an existing one does.
pub proof fn lemma_pick_is_like_naming(
    config: KubeConfigView,
    current_context_name: Seq<char>,
    name: Seq<char>,
)
    ensures
        spec_namespace_step(config, current_context_name, NamespaceEventView::Picked(Some(name)))
            == spec_namespace_step(
            config,
            current_context_name,
            NamespaceEventView::Checked { name, exists: true },
        ),
{
}

/// Cancelling the selection writes nothing, and the list starts on the namespace in use.
pub proof fn lemma_cancel_and_prompt(
    config: KubeConfigView,
    current_context_name: Seq<char>,
    current_namespace: Seq<char>,
    names: Seq<Seq<char>>,
)
    ensures
        spec_namespace_step(config, current_context_name, NamespaceEventView::Picked(None)) == (
            config,
            NamespaceActionView::Cancelled,
        ),
        spec_namespace_step(
            config,
            current_context_name,
            NamespaceEventView::Listed { current_namespace, names },
        ) == (
            config,
            NamespaceActionView::Prompt {
                items: names,
                default_index: spec_default_index(names, current_namespace),
            },
        ),
{
}

/// Every step that does not report a change leaves the kubeconfig as it was.
pub proof fn lemma_only_changes_write(
    config: KubeConfigView,
    current_context_name: Seq<char>,
    event: NamespaceEventView,
)
    ensures
        !(spec_namespace_step(config, current_context_name, event).1 is Changed) ==> spec_namespace_step(
            config,
            current_context_name,
            event,
        ).0 == config,
{
}

/// When a step reports a change to `ns`, reading the active context's
/// namespace from the new kubeconfig gives `ns`.
pub proof fn lemma_change_is_read_back(
    config: KubeConfigView,
    current_context_name: Seq<char>,
    event: NamespaceEventView,
)
    ensures
        spec_namespace_step(config, current_context_name, event).1 matches NamespaceActionView::Changed(
            ns,
        ) ==> spec_current_namespace(spec_namespace_step(config, current_context_name, event).0, current_context_name)
            == Ok::<Seq<char>, KctxErrorView>(ns),
{
    match event {
        NamespaceEventView::Checked { name, exists } => {
            if exists && spec_set_namespace(config, current_context_name, name) is Ok {
                lemma_set_namespace_then_read(config, current_context_name, name);
            }
        },
        NamespaceEventView::Picked(Some(name)) => {
            if spec_set_namespace(config, current_context_name, name) is Ok {
                lemma_set_namespace_then_read(config, current_context_name, name);
            }
        },
        _ => {},
    }
}

/// Whenever the active context's namespace can be read, picking any
/// namespace, or naming one that exists, is applied: the step reports that
/// namespace, reading the context afterwards gives it, and every other
/// context name reads as before.
pub proof fn lemma_readable_context_takes_any_namespace(
    config: KubeConfigView,
    ctx: Seq<char>,
    ns: Seq<char>,
    other: Seq<char>,
)
    ensures
        spec_current_namespace(config, ctx) is Ok ==> {
            &&& spec_namespace_step(config, ctx, NamespaceEventView::Picked(Some(ns))).1
                == NamespaceActionView::Changed(ns)
            &&& spec_namespace_step(config, ctx, NamespaceEventView::Checked { name: ns, exists: true }).1
                == NamespaceActionView::Changed(ns)
            &&& spec_current_namespace(
                spec_namespace_step(config, ctx, NamespaceEventView::Picked(Some(ns))).0,
                ctx,
            ) == Ok::<Seq<char>, KctxErrorView>(ns)
            &&& spec_namespace_step(config, ctx, NamespaceEventView::Picked(Some(ns))).0.current_context
                == config.current_context
            &&& (other != ctx ==> spec_current_namespace(
                spec_namespace_step(config, ctx, NamespaceEventView::Picked(Some(ns))).0,
                other,
            ) == spec_current_namespace(config, other))
        },
{
    lemma_set_namespace_refused_iff_unreadable(config, ctx, ns);
    if spec_current_namespace(config, ctx) is Ok {
        lemma_set_namespace_then_read(config, ctx, ns);
        lemma_set_namespace_keeps_names(config, ctx, ns);
        if other != ctx {
            lemma_set_namespace_keeps_others(config, ctx, ns, other);
        }
    }
}

} // verus!
