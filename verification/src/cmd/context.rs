//! Switching the active context.
use vstd::prelude::*;

use crate::cmd::{default_index, spec_default_index};
use crate::error::{KctxError, KctxErrorView};
use crate::kube_config::{
    context_names, spec_current_context_name, spec_current_namespace, KubeConfig, KubeConfigView,
    NamedContext,
};
use crate::search::{lemma_first_index, position_of, string_views};

verus! {

/// What switching context does next: switch to a named context, or let the
/// user pick one from a list that starts on the given entry.
#[derive(Debug)]
pub enum ContextSelection {
    Switch(String),
    Prompt { items: Vec<String>, default_index: usize },
}

/// The names of all contexts of the kubeconfig, in order.
pub fn list_context_names(config: &KubeConfig) -> (res: Vec<String>)
    ensures
        string_views(res@) == context_names(config@.contexts),
{
    let ghost views = config.contexts@.map_values(|c: NamedContext| c@);
    let mut res: Vec<String> = Vec::new();
    let mut i: usize = 0;
    while i < config.contexts.len()
        invariant
            views == config.contexts@.map_values(|c: NamedContext| c@),
            i <= config.contexts@.len(),
            string_views(res@) == context_names(views).take(i as int),
        decreases config.contexts@.len() - i,
    {
        let name = config.contexts[i].name.clone();
        assert(name@ == context_names(views)[i as int]);
        let ghost prev = res@;
        res.push(name);
        assert(res@ == prev.push(name));
        assert(string_views(res@) =~= string_views(prev).push(name@));
        assert(context_names(views).take(i + 1) =~= context_names(views).take(i as int).push(
            context_names(views)[i as int],
        ));
        i += 1;
    }
    assert(context_names(views).take(i as int) =~= context_names(views));
    res
}

/// Decides how to switch context: to `context_name` when one is given and it
/// exists, refused when it does not exist, else by a selection over all
/// contexts that starts on the active one.
pub fn plan(config: &KubeConfig, current_context_name: &str, context_name: Option<String>) -> (res:
    Result<ContextSelection, KctxError>)
    ensures
        match context_name {
            Some(name) => if context_names(config@.contexts).contains(name@) {
                res matches Ok(ContextSelection::Switch(t)) && t@ == name@
            } else {
                res matches Err(KctxError::UnknownContext(n)) && n@ == name@
            },
            None => res matches Ok(ContextSelection::Prompt { items, default_index })
                && string_views(items@) == context_names(config@.contexts)
                && default_index == spec_default_index(context_names(config@.contexts), current_context_name@),
        },
{
    let ctxs = list_context_names(config);
    match context_name {
        Some(name) => {
            proof {
                lemma_first_index(string_views(ctxs@), name@, 0);
            }
            match position_of(&ctxs, name.as_str()) {
                Some(_) => Ok(ContextSelection::Switch(name)),
                None => Err(KctxError::UnknownContext(name)),
            }
        },
        None => {
            let idx: usize = default_index(&ctxs, current_context_name);
            Ok(ContextSelection::Prompt { items: ctxs, default_index: idx })
        },
    }
}

/// Makes `target` the active context; the context entries stay as they are.
pub open spec fn spec_switch_context(config: KubeConfigView, target: Seq<char>) -> KubeConfigView {
    KubeConfigView { current_context: Some(target), ..config }
}

/// Makes `target` the active context.
pub fn switch_context(config: &mut KubeConfig, target: String)
    ensures
        final(config)@ == spec_switch_context(old(config)@, target@),
{
    config.current_context = Some(target);
}


/// After switching, the active context is the target, and every context name
/// reads the same namespace as before.
pub proof fn lemma_switch_context(config: KubeConfigView, target: Seq<char>, name: Seq<char>)
    ensures
        spec_current_context_name(spec_switch_context(config, target)) == target,
        spec_switch_context(config, target).contexts == config.contexts,
        spec_current_namespace(spec_switch_context(config, target), name) == spec_current_namespace(
            config,
            name,
        ),
{
}

/// What the context command learned from its last piece of outside work.
#[derive(Debug)]
pub enum ContextEvent {
    /// The command was started, with or without a context name.
    Start(Option<String>),
    /// The user picked an entry of the selection list, or cancelled it.
    Picked(Option<String>),
}

/// What the context command does next.
#[derive(Debug)]
pub enum ContextAction {
    /// Show a selection list of these names that starts on the given entry.
    Prompt { items: Vec<String>, default_index: usize },
    /// The active context is now this one: write the kubeconfig and report it.
    Switched(String),
    /// Stop without writing anything.
    Cancelled,
    /// Stop with this error, writing nothing.
    Fail(KctxError),
}

/// The mathematical value of a [`ContextEvent`].
pub enum ContextEventView {
    Start(Option<Seq<char>>),
    Picked(Option<Seq<char>>),
}

/// The mathematical value of a [`ContextAction`].
pub enum ContextActionView {
    Prompt { items: Seq<Seq<char>>, default_index: int },
    Switched(Seq<char>),
    Cancelled,
    Fail(KctxErrorView),
}

impl View for ContextEvent {
    type V = ContextEventView;

    open spec fn view(&self) -> ContextEventView {
        match self {
            ContextEvent::Start(n) => ContextEventView::Start(crate::kube_config::opt_view(*n)),
            ContextEvent::Picked(n) => ContextEventView::Picked(crate::kube_config::opt_view(*n)),
        }
    }
}

impl View for ContextAction {
    type V = ContextActionView;

    open spec fn view(&self) -> ContextActionView {
        match self {
            ContextAction::Prompt { items, default_index } => ContextActionView::Prompt {
                items: string_views(items@),
                default_index: *default_index as int,
            },
            ContextAction::Switched(t) => ContextActionView::Switched(t@),
            ContextAction::Cancelled => ContextActionView::Cancelled,
            ContextAction::Fail(e) => ContextActionView::Fail(e@),
        }
    }
}

/// One step of the context command: the kubeconfig afterwards and what to do next.
pub open spec fn spec_context_step(
    config: KubeConfigView,
    current_context_name: Seq<char>,
    event: ContextEventView,
) -> (KubeConfigView, ContextActionView) {
    match event {
        ContextEventView::Start(Some(name)) => if context_names(config.contexts).contains(name) {
            (spec_switch_context(config, name), ContextActionView::Switched(name))
        } else {
            (config, ContextActionView::Fail(KctxErrorView::UnknownContext(name)))
        },
        ContextEventView::Start(None) => (
            config,
            ContextActionView::Prompt {
                items: context_names(config.contexts),
                default_index: spec_default_index(context_names(config.contexts), current_context_name),
            },
        ),
        ContextEventView::Picked(Some(name)) => (
            spec_switch_context(config, name),
            ContextActionView::Switched(name),
        ),
        ContextEventView::Picked(None) => (config, ContextActionView::Cancelled),
    }
}

/// Runs one step of the context command on `config`.
pub fn context_step(config: &mut KubeConfig, current_context_name: &str, event: ContextEvent) -> (res:
    ContextAction)
    ensures
        (final(config)@, res@) == spec_context_step(old(config)@, current_context_name@, event@),
{
    match event {
        ContextEvent::Start(context_name) => match plan(config, current_context_name, context_name) {
            Ok(ContextSelection::Switch(target)) => {
                let reported = target.clone();
                switch_context(config, target);
                ContextAction::Switched(reported)
            },
            Ok(ContextSelection::Prompt { items, default_index }) => ContextAction::Prompt {
                items,
                default_index,
            },
            Err(e) => ContextAction::Fail(e),
        },
        ContextEvent::Picked(Some(target)) => {
            let reported = target.clone();
            switch_context(config, target);
            ContextAction::Switched(reported)
        },
        ContextEvent::Picked(None) => ContextAction::Cancelled,
    }
}

/// Picking an entry of the selection list does what naming that context does.
pub proof fn lemma_pick_is_like_naming(config: KubeConfigView, current: Seq<char>, k: int)
    requires
        0 <= k < context_names(config.contexts).len(),
    ensures
        spec_context_step(config, current, ContextEventView::Start(None)).1 matches ContextActionView::Prompt {
            items,
            default_index,
        } && items[k] == context_names(config.contexts)[k],
        spec_context_step(
            config,
            current,
            ContextEventView::Picked(Some(context_names(config.contexts)[k])),
        ) == spec_context_step(
            config,
            current,
            ContextEventView::Start(Some(context_names(config.contexts)[k])),
        ),
{
    assert(context_names(config.contexts).contains(context_names(config.contexts)[k]));
}

/// Cancelling the selection, or a refused name, leaves the kubeconfig as it was.
pub proof fn lemma_context_refusal_writes_nothing(
    config: KubeConfigView,
    current: Seq<char>,
    event: ContextEventView,
)
    ensures
        (spec_context_step(config, current, event).1 is Cancelled || spec_context_step(
            config,
            current,
            event,
        ).1 is Fail || spec_context_step(config, current, event).1 is Prompt) ==> spec_context_step(
            config,
            current,
            event,
        ).0 == config,
{
}

/// Naming or picking a context that exists always makes it the active one,
/// whatever context was active before, and leaves every entry as it was;
/// naming one that does not exist is refused with that name and changes nothing.
pub proof fn lemma_existing_context_always_switches(
    config: KubeConfigView,
    current: Seq<char>,
    name: Seq<char>,
)
    ensures
        context_names(config.contexts).contains(name) ==> spec_context_step(
            config,
            current,
            ContextEventView::Start(Some(name)),
        ) == (KubeConfigView { current_context: Some(name), contexts: config.contexts }, ContextActionView::Switched(name)),
        spec_context_step(config, current, ContextEventView::Picked(Some(name))) == (
            KubeConfigView { current_context: Some(name), contexts: config.contexts },
            ContextActionView::Switched(name),
        ),
        !context_names(config.contexts).contains(name) ==> spec_context_step(
            config,
            current,
            ContextEventView::Start(Some(name)),
        ) == (config, ContextActionView::Fail(KctxErrorView::UnknownContext(name))),
{
}

} // verus!
