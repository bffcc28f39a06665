//! Shell completion of namespace names: which names are offered for what the
//! user typed, and the steps that lead there (configuration, cache, cluster).
use vstd::prelude::*;

use crate::search::string_views;
use crate::text::{contains_substring, lowercase, occurs_in, to_lowercase};

verus! {

/// One completion offer: the text to insert and an optional description.
#[derive(Debug)]
pub struct CompletionCandidate {
    pub value: String,
    pub help: Option<String>,
}

/// The mathematical value of a [`CompletionCandidate`].
pub struct CompletionCandidateView {
    pub value: Seq<char>,
    pub help: Option<Seq<char>>,
}

impl View for CompletionCandidate {
    type V = CompletionCandidateView;

    open spec fn view(&self) -> CompletionCandidateView {
        CompletionCandidateView {
            value: self.value@,
            help: match self.help {
                Some(h) => Some(h@),
                None => None,
            },
        }
    }
}

/// The views of a list of candidates.
pub open spec fn candidate_views(v: Seq<CompletionCandidate>) -> Seq<CompletionCandidateView> {
    v.map_values(|c: CompletionCandidate| c@)
}

/// `name` is offered for the typed text `current` when, both lowercased, the
/// typed text occurs in the name.
pub open spec fn name_matches(name: Seq<char>, current: Seq<char>) -> bool {
    occurs_in(lowercase(name), lowercase(current))
}

/// The names offered for the typed text `current`, in their original order.
pub open spec fn matching_names(names: Seq<Seq<char>>, current: Seq<char>) -> Seq<Seq<char>>
    decreases names.len(),
{
    if names.len() == 0 {
        Seq::empty()
    } else {
        let rest = matching_names(names.drop_last(), current);
        if name_matches(names.last(), current) {
            rest.push(names.last())
        } else {
            rest
        }
    }
}

/// The offer made for one namespace name.
pub open spec fn namespace_candidate(name: Seq<char>) -> CompletionCandidateView {
    CompletionCandidateView { value: name, help: Some("Namespace"@) }
}

/// An offer of nothing, carrying a message for the user.
pub open spec fn message_candidate(help: Seq<char>) -> CompletionCandidateView {
    CompletionCandidateView { value: Seq::empty(), help: Some(help) }
}

/// The offers for a list of namespace names and the typed text.
pub open spec fn spec_namespace_candidates(names: Seq<Seq<char>>, current: Seq<char>) -> Seq<
    CompletionCandidateView,
> {
    matching_names(names, current).map_values(|n: Seq<char>| namespace_candidate(n))
}

/// The names of `names` whose lowercased form (the entry of `lowered` at the
/// same position) holds the lowercased query `query`, in order.
pub open spec fn select_matching(
    names: Seq<Seq<char>>,
    lowered: Seq<Seq<char>>,
    query: Seq<char>,
) -> Seq<Seq<char>>
    decreases names.len(),
{
    if names.len() == 0 {
        Seq::empty()
    } else {
        let rest = select_matching(names.drop_last(), lowered.drop_last(), query);
        if occurs_in(lowered.last(), query) {
            rest.push(names.last())
        } else {
            rest
        }
    }
}

/// Selecting on the lowercased names and the lowercased typed text is the
/// matching of the typed text.
pub proof fn lemma_select_matching_is_matching(names: Seq<Seq<char>>, current: Seq<char>)
    ensures
        select_matching(names, names.map_values(|n: Seq<char>| lowercase(n)), lowercase(current))
            == matching_names(names, current),
    decreases names.len(),
{
    if names.len() > 0 {
        let lowered = names.map_values(|n: Seq<char>| lowercase(n));
        assert(lowered.drop_last() =~= names.drop_last().map_values(|n: Seq<char>| lowercase(n)));
        lemma_select_matching_is_matching(names.drop_last(), current);
    }
}

/// The names of `names` whose lowercased form, given at the same position of
/// `lowered`, holds the already lowercased query `query`, in order.
pub fn matching_lowered(names: &Vec<String>, lowered: &Vec<String>, query: &str) -> (res: Vec<String>)
    requires
        names@.len() == lowered@.len(),
    ensures
        string_views(res@) == select_matching(string_views(names@), string_views(lowered@), query@),
{
    let ghost all = string_views(names@);
    let ghost low = string_views(lowered@);
    let mut res: Vec<String> = Vec::new();
    let mut i: usize = 0;
    while i < names.len()
        invariant
            all == string_views(names@),
            low == string_views(lowered@),
            names@.len() == lowered@.len(),
            i <= names@.len(),
            string_views(res@) == select_matching(all.take(i as int), low.take(i as int), query@),
        decreases names@.len() - i,
    {
        assert(all.take(i + 1).drop_last() =~= all.take(i as int));
        assert(low.take(i + 1).drop_last() =~= low.take(i as int));
        if contains_substring(lowered[i].as_str(), query) {
            let ghost prev = res@;
            res.push(names[i].clone());
            assert(string_views(res@) =~= string_views(prev).push(all[i as int]));
        }
        i += 1;
    }
    assert(all.take(names@.len() as int) =~= all);
    assert(low.take(names@.len() as int) =~= low);
    res
}

/// The lowercased forms of `names`, in order.
fn lowercase_all(names: &Vec<String>) -> (res: Vec<String>)
    ensures
        string_views(res@) == string_views(names@).map_values(|n: Seq<char>| lowercase(n)),
{
    let ghost all = string_views(names@);
    let mut res: Vec<String> = Vec::new();
    let mut i: usize = 0;
    while i < names.len()
        invariant
            all == string_views(names@),
            i <= names@.len(),
            string_views(res@) == all.take(i as int).map_values(|n: Seq<char>| lowercase(n)),
        decreases names@.len() - i,
    {
        let ghost prev = res@;
        res.push(to_lowercase(names[i].as_str()));
        assert(string_views(res@) =~= string_views(prev).push(lowercase(all[i as int])));
        assert(all.take(i + 1).map_values(|n: Seq<char>| lowercase(n)) =~= all.take(
            i as int,
        ).map_values(|n: Seq<char>| lowercase(n)).push(lowercase(all[i as int])));
        i += 1;
    }
    assert(all.take(names@.len() as int) =~= all);
    res
}

/// The names of `names` offered for the typed text `current`, in order.
pub fn filter_namespaces(names: &Vec<String>, current: &str) -> (res: Vec<String>)
    ensures
        string_views(res@) == matching_names(string_views(names@), current@),
        current@.len() == 0 ==> string_views(res@) == string_views(names@),
{
    let needle = to_lowercase(current);
    let lowered = lowercase_all(names);
    proof {
        lemma_empty_input_offers_all(string_views(names@), current@);
        lemma_select_matching_is_matching(string_views(names@), current@);
    }
    matching_lowered(names, &lowered, needle.as_str())
}

/// The offers for the namespaces of `names` that match the typed text `current`.
pub fn namespace_candidates(names: &Vec<String>, current: &str) -> (res: Vec<CompletionCandidate>)
    ensures
        candidate_views(res@) == spec_namespace_candidates(string_views(names@), current@),
{
    let matching = filter_namespaces(names, current);
    let ghost m = string_views(matching@);
    let mut res: Vec<CompletionCandidate> = Vec::new();
    let mut i: usize = 0;
    while i < matching.len()
        invariant
            m == string_views(matching@),
            i <= matching@.len(),
            candidate_views(res@) == m.take(i as int).map_values(|n: Seq<char>| namespace_candidate(n)),
        decreases matching@.len() - i,
    {
        let ghost prev = res@;
        res.push(CompletionCandidate {
            value: matching[i].clone(),
            help: Some(String::from_str("Namespace")),
        });
        assert(candidate_views(res@) =~= candidate_views(prev).push(namespace_candidate(m[i as int])));
        assert(m.take(i + 1).map_values(|n: Seq<char>| namespace_candidate(n)) =~= m.take(
            i as int,
        ).map_values(|n: Seq<char>| namespace_candidate(n)).push(namespace_candidate(m[i as int])));
        i += 1;
    }
    assert(m.take(matching@.len() as int) =~= m);
    res
}


/// What the completer learned from its last piece of outside work.
#[derive(Debug)]
pub enum CompletionEvent {
    /// The kubeconfig was read: the active context's name, or the error text.
    ConfigLoaded(Result<Option<String>, String>),
    /// The namespace cache of `context` was consulted: the fresh list, if any.
    CacheChecked { context: String, cached: Option<Vec<String>> },
    /// No runtime to reach the cluster could be started.
    RuntimeUnavailable,
    /// The cluster was asked for its namespaces: the names, or the error text.
    NamespacesFetched(Result<Vec<String>, String>),
}

/// What the completer does next.
#[derive(Debug)]
pub enum CompletionAction {
    /// Consult the namespace cache of this context.
    CheckCache(String),
    /// Ask the cluster of this context for its namespaces.
    FetchNamespaces(String),
    /// Stop and offer these candidates.
    Finish(Vec<CompletionCandidate>),
}

/// The mathematical value of a [`CompletionEvent`].
pub enum CompletionEventView {
    ConfigLoaded(Result<Option<Seq<char>>, Seq<char>>),
    CacheChecked { context: Seq<char>, cached: Option<Seq<Seq<char>>> },
    RuntimeUnavailable,
    NamespacesFetched(Result<Seq<Seq<char>>, Seq<char>>),
}

/// The mathematical value of a [`CompletionAction`].
pub enum CompletionActionView {
    CheckCache(Seq<char>),
    FetchNamespaces(Seq<char>),
    Finish(Seq<CompletionCandidateView>),
}

impl View for CompletionEvent {
    type V = CompletionEventView;

    open spec fn view(&self) -> CompletionEventView {
        match self {
            CompletionEvent::ConfigLoaded(r) => CompletionEventView::ConfigLoaded(
                match r {
                    Ok(Some(c)) => Ok(Some(c@)),
                    Ok(None) => Ok(None),
                    Err(e) => Err(e@),
                },
            ),
            CompletionEvent::CacheChecked { context, cached } => CompletionEventView::CacheChecked {
                context: context@,
                cached: match cached {
                    Some(ns) => Some(string_views(ns@)),
                    None => None,
                },
            },
            CompletionEvent::RuntimeUnavailable => CompletionEventView::RuntimeUnavailable,
            CompletionEvent::NamespacesFetched(r) => CompletionEventView::NamespacesFetched(
                match r {
                    Ok(ns) => Ok(string_views(ns@)),
                    Err(e) => Err(e@),
                },
            ),
        }
    }
}

impl View for CompletionAction {
    type V = CompletionActionView;

    open spec fn view(&self) -> CompletionActionView {
        match self {
            CompletionAction::CheckCache(c) => CompletionActionView::CheckCache(c@),
            CompletionAction::FetchNamespaces(c) => CompletionActionView::FetchNamespaces(c@),
            CompletionAction::Finish(cs) => CompletionActionView::Finish(candidate_views(cs@)),
        }
    }
}

/// The message shown when asking the cluster failed: a fixed one for a
/// timeout, else the error text after `Error: `.
pub open spec fn spec_fetch_error_help(error: Seq<char>) -> Seq<char> {
    if occurs_in(error, "Network timeout"@) {
        "Error: Network timeout (200ms)"@
    } else {
        "Error: "@ + error
    }
}

/// The next step of namespace completion for the typed text `current`.
pub open spec fn spec_completion_step(current: Seq<char>, event: CompletionEventView) -> CompletionActionView {
    match event {
        CompletionEventView::ConfigLoaded(Err(e)) => CompletionActionView::Finish(
            seq![message_candidate("Config Error: "@ + e)],
        ),
        CompletionEventView::ConfigLoaded(Ok(None)) => CompletionActionView::Finish(
            seq![message_candidate("Error: No active context set"@)],
        ),
        CompletionEventView::ConfigLoaded(Ok(Some(c))) => CompletionActionView::CheckCache(c),
        CompletionEventView::CacheChecked { context, cached: Some(ns) } => CompletionActionView::Finish(
            spec_namespace_candidates(ns, current),
        ),
        CompletionEventView::CacheChecked { context, cached: None } =>
            CompletionActionView::FetchNamespaces(context),
        CompletionEventView::RuntimeUnavailable => CompletionActionView::Finish(Seq::empty()),
        CompletionEventView::NamespacesFetched(Err(e)) => CompletionActionView::Finish(
            seq![message_candidate(spec_fetch_error_help(e))],
        ),
        CompletionEventView::NamespacesFetched(Ok(ns)) => CompletionActionView::Finish(
            spec_namespace_candidates(ns, current),
        ),
    }
}

/// The message shown when asking the cluster failed.
pub fn fetch_error_help(error: &str) -> (res: String)
    ensures
        res@ == spec_fetch_error_help(error@),
{
    if contains_substring(error, "Network timeout") {
        String::from_str("Error: Network timeout (200ms)")
    } else {
        let mut res = String::from_str("Error: ");
        res.append(error);
        res
    }
}

/// A single offer of nothing that carries `help` as its message.
fn message_only(help: String) -> (res: Vec<CompletionCandidate>)
    ensures
        candidate_views(res@) == seq![message_candidate(help@)],
{
    let mut res: Vec<CompletionCandidate> = Vec::new();
    res.push(CompletionCandidate { value: String::new(), help: Some(help) });
    assert(candidate_views(res@) =~= seq![message_candidate(help@)]);
    res
}

/// Decides the next step of namespace completion for the typed text `current`
/// from what the last step found out.
pub fn next_completion_step(current: &str, event: CompletionEvent) -> (res: CompletionAction)
    ensures
        res@ == spec_completion_step(current@, event@),
{
    match event {
        CompletionEvent::ConfigLoaded(Err(e)) => {
            let mut help = String::from_str("Config Error: ");
            help.append(e.as_str());
            CompletionAction::Finish(message_only(help))
        },
        CompletionEvent::ConfigLoaded(Ok(None)) => CompletionAction::Finish(
            message_only(String::from_str("Error: No active context set")),
        ),
        CompletionEvent::ConfigLoaded(Ok(Some(c))) => CompletionAction::CheckCache(c),
        CompletionEvent::CacheChecked { context, cached } => match cached {
            Some(ns) => CompletionAction::Finish(namespace_candidates(&ns, current)),
            None => CompletionAction::FetchNamespaces(context),
        },
        CompletionEvent::RuntimeUnavailable => {
            let res: Vec<CompletionCandidate> = Vec::new();
            assert(candidate_views(res@) =~= Seq::<CompletionCandidateView>::empty());
            CompletionAction::Finish(res)
        },
        CompletionEvent::NamespacesFetched(Err(e)) => CompletionAction::Finish(
            message_only(fetch_error_help(e.as_str())),
        ),
        CompletionEvent::NamespacesFetched(Ok(ns)) => CompletionAction::Finish(
            namespace_candidates(&ns, current),
        ),
    }
}

/// When the typed text lowercases to nothing, every namespace is offered, in order.
pub proof fn lemma_empty_input_offers_all(names: Seq<Seq<char>>, current: Seq<char>)
    ensures
        lowercase(current).len() == 0 ==> matching_names(names, current) == names,
    decreases names.len(),
{
    if names.len() > 0 && lowercase(current).len() == 0 {
        lemma_empty_input_offers_all(names.drop_last(), current);
        let l = lowercase(names.last());
        assert(l.subrange(0, 0 + lowercase(current).len() as int) =~= lowercase(current));
        assert(names.drop_last().push(names.last()) =~= names);
    }
}

/// Every offered name is one of the given names and matches the typed text,
/// and no more names are offered than given.
pub proof fn lemma_offers_match(names: Seq<Seq<char>>, current: Seq<char>)
    ensures
        matching_names(names, current).len() <= names.len(),
        forall|k: int|
            0 <= k < matching_names(names, current).len() ==> names.contains(
                #[trigger] matching_names(names, current)[k],
            ) && name_matches(matching_names(names, current)[k], current),
    decreases names.len(),
{
    if names.len() > 0 {
        let rest = names.drop_last();
        lemma_offers_match(rest, current);
        let m = matching_names(names, current);
        assert forall|k: int| 0 <= k < m.len() implies names.contains(#[trigger] m[k]) && name_matches(
            m[k],
            current,
        ) by {
            if k < matching_names(rest, current).len() {
                let x = matching_names(rest, current)[k];
                assert(m[k] == x);
                let j: int = choose|j: int| 0 <= j < rest.len() && rest[j] == x;
                assert(names[j] == x);
            } else {
                assert(m[k] == names.last());
                assert(names[names.len() - 1] == names.last());
            }
        }
    }
}

/// A fresh cached list answers completion at once, without asking the
/// cluster; without one, the cluster of that same context is asked.
pub proof fn lemma_cache_before_cluster(
    current: Seq<char>,
    context: Seq<char>,
    cached: Option<Seq<Seq<char>>>,
)
    ensures
        cached matches Some(ns) ==> spec_completion_step(
            current,
            CompletionEventView::CacheChecked { context, cached },
        ) == CompletionActionView::Finish(spec_namespace_candidates(ns, current)),
        cached is None ==> spec_completion_step(
            current,
            CompletionEventView::CacheChecked { context, cached },
        ) == CompletionActionView::FetchNamespaces(context),
{
}

/// `x` is `y` with some entries left out, the rest kept in order.
pub open spec fn is_subsequence<A>(x: Seq<A>, y: Seq<A>) -> bool
    decreases y.len(),
{
    if x.len() == 0 {
        true
    } else if y.len() == 0 {
        false
    } else if x.last() == y.last() {
        is_subsequence(x.drop_last(), y.drop_last())
    } else {
        is_subsequence(x, y.drop_last())
    }
}

/// `needle` inside `middle` inside `haystack` is inside `haystack`.
pub proof fn lemma_occurs_in_transitive(haystack: Seq<char>, middle: Seq<char>, needle: Seq<char>)
    requires
        occurs_in(haystack, middle),
        occurs_in(middle, needle),
    ensures
        occurs_in(haystack, needle),
{
    let i: int = choose|i: int|
        0 <= i && i + middle.len() <= haystack.len() && #[trigger] haystack.subrange(i, i + middle.len())
            == middle;
    let j: int = choose|j: int|
        0 <= j && j + needle.len() <= middle.len() && #[trigger] middle.subrange(j, j + needle.len())
            == needle;
    assert(haystack.subrange(i + j, i + j + needle.len()) =~= needle) by {
        assert forall|k: int| 0 <= k < needle.len() implies haystack.subrange(
            i + j,
            i + j + needle.len(),
        )[k] == needle[k] by {
            assert(needle[k] == middle.subrange(j, j + needle.len())[k]);
            assert(middle[j + k] == haystack.subrange(i, i + middle.len())[j + k]);
        }
    }
}

/// The offers for a list are always the list with some names left out.
pub proof fn lemma_matching_is_subsequence(names: Seq<Seq<char>>, current: Seq<char>)
    ensures
        is_subsequence(matching_names(names, current), names),
    decreases names.len(),
{
    if names.len() > 0 {
        let rest = names.drop_last();
        let m = matching_names(rest, current);
        lemma_matching_is_subsequence(rest, current);
        if name_matches(names.last(), current) {
            assert(m.push(names.last()).drop_last() =~= m);
        } else if m.len() > 0 {
            lemma_offers_match(rest, current);
            assert(name_matches(m[m.len() - 1], current));
        }
    }
}

/// Offers for the typed text `longer` are the offers for `shorter` that also
/// match `longer`, when lowercased `shorter` occurs in lowercased `longer`.
pub proof fn lemma_longer_query_filters_offers(
    names: Seq<Seq<char>>,
    shorter: Seq<char>,
    longer: Seq<char>,
)
    ensures
        occurs_in(lowercase(longer), lowercase(shorter)) ==> matching_names(names, longer)
            == matching_names(matching_names(names, shorter), longer),
    decreases names.len(),
{
    if names.len() > 0 && occurs_in(lowercase(longer), lowercase(shorter)) {
        let rest = names.drop_last();
        let l = names.last();
        lemma_longer_query_filters_offers(rest, shorter, longer);
        if name_matches(l, longer) {
            lemma_occurs_in_transitive(lowercase(l), lowercase(longer), lowercase(shorter));
        }
        let ms = matching_names(rest, shorter);
        if name_matches(l, shorter) {
            assert(ms.push(l).drop_last() =~= ms);
        }
    }
}

/// A longer typed text never adds offers: when lowercased `shorter` occurs in
/// lowercased `longer`, the names offered for `longer` are those offered for
/// `shorter` with some left out, in the same order.
pub proof fn lemma_longer_query_offers_subsequence(
    names: Seq<Seq<char>>,
    shorter: Seq<char>,
    longer: Seq<char>,
)
    ensures
        occurs_in(lowercase(longer), lowercase(shorter)) ==> is_subsequence(
            matching_names(names, longer),
            matching_names(names, shorter),
        ),
{
    lemma_longer_query_filters_offers(names, shorter, longer);
    lemma_matching_is_subsequence(matching_names(names, shorter), longer);
}

/// One more name is offered, at the end, exactly when the lowercased typed
/// text occurs in its lowercased form; no name is offered for an empty list.
pub proof fn lemma_matching_names_push(names: Seq<Seq<char>>, current: Seq<char>, n: Seq<char>)
    ensures
        matching_names(Seq::<Seq<char>>::empty(), current) == Seq::<Seq<char>>::empty(),
        occurs_in(lowercase(n), lowercase(current)) ==> matching_names(names.push(n), current)
            == matching_names(names, current).push(n),
        !occurs_in(lowercase(n), lowercase(current)) ==> matching_names(names.push(n), current)
            == matching_names(names, current),
{
    assert(names.push(n).drop_last() =~= names);
}

/// Selecting on lowercased forms offers one more name, at the end, exactly
/// when the lowercased query occurs in that name's lowercased form.
pub proof fn lemma_select_matching_push(
    names: Seq<Seq<char>>,
    lowered: Seq<Seq<char>>,
    query: Seq<char>,
    n: Seq<char>,
    l: Seq<char>,
)
    ensures
        select_matching(Seq::<Seq<char>>::empty(), lowered, query) == Seq::<Seq<char>>::empty(),
        occurs_in(l, query) ==> select_matching(names.push(n), lowered.push(l), query)
            == select_matching(names, lowered, query).push(n),
        !occurs_in(l, query) ==> select_matching(names.push(n), lowered.push(l), query)
            == select_matching(names, lowered, query),
{
    assert(names.push(n).drop_last() =~= names);
    assert(lowered.push(l).drop_last() =~= lowered);
}

/// Every name whose lowercased form holds the lowercased typed text is offered.
pub proof fn lemma_offers_complete(names: Seq<Seq<char>>, current: Seq<char>)
    ensures
        forall|k: int|
            0 <= k < names.len() && occurs_in(lowercase(#[trigger] names[k]), lowercase(current))
                ==> matching_names(names, current).contains(names[k]),
    decreases names.len(),
{
    if names.len() > 0 {
        let rest = names.drop_last();
        lemma_offers_complete(rest, current);
        lemma_matching_names_push(rest, current, names.last());
        assert(rest.push(names.last()) =~= names);
        let m = matching_names(names, current);
        let r = matching_names(rest, current);
        assert forall|k: int|
            0 <= k < names.len() && occurs_in(lowercase(#[trigger] names[k]), lowercase(current))
            implies m.contains(names[k]) by {
            if k < names.len() - 1 {
                assert(rest[k] == names[k]);
                assert(r.contains(names[k]));
                let j: int = choose|j: int| 0 <= j < r.len() && r[j] == names[k];
                if occurs_in(lowercase(names.last()), lowercase(current)) {
                    assert(m[j] == names[k]);
                } else {
                    assert(m[j] == names[k]);
                }
            } else {
                assert(m[m.len() - 1] == names[k]);
            }
        }
    }
}

} // verus!
