//! The namespace cache: where each context's cache file lives, what a saved
//! entry holds, and when a stored entry is still fresh.
use vstd::prelude::*;

use crate::error::{KctxError, KctxErrorView};
use crate::kube_config::opt_view;
use crate::search::string_views;
use crate::text::{chars_of, join_path, joined_path, push_char};

verus! {

/// How long a cached namespace list stays fresh, in seconds.
pub const CACHE_TTL_SECS: u64 = 300;

/// The cached namespace list of one context and when it was saved (seconds since the Unix epoch).
#[derive(Debug)]
pub struct NamespaceCache {
    pub namespaces: Vec<String>,
    pub timestamp: u64,
}

/// The mathematical value of a [`NamespaceCache`].
pub struct NamespaceCacheView {
    pub namespaces: Seq<Seq<char>>,
    pub timestamp: u64,
}

impl View for NamespaceCache {
    type V = NamespaceCacheView;

    open spec fn view(&self) -> NamespaceCacheView {
        NamespaceCacheView { namespaces: string_views(self.namespaces@), timestamp: self.timestamp }
    }
}

/// A context name with every `/` and `:` replaced by `_`.
pub open spec fn sanitized(name: Seq<char>) -> Seq<char> {
    Seq::new(name.len(), |i: int| if name[i] == '/' || name[i] == ':' { '_' } else { name[i] })
}

/// The name of a context's cache file.
pub open spec fn spec_cache_file_name(context_name: Seq<char>) -> Seq<char> {
    sanitized(context_name) + ".json"@
}

/// The path of a context's cache file inside the cache directory.
pub open spec fn spec_cache_path(cache_dir: Seq<char>, context_name: Seq<char>) -> Seq<char> {
    joined_path(cache_dir, spec_cache_file_name(context_name))
}

/// The cache directory: the override when one is set, else `kctx` inside the
/// platform's cache directory.
pub open spec fn spec_get_cache_dir(override_dir: Option<Seq<char>>, platform_dir: Option<Seq<char>>) -> Result<
    Seq<char>,
    KctxErrorView,
> {
    match override_dir {
        Some(d) => Ok(d),
        None => match platform_dir {
            Some(p) => Ok(joined_path(p, "kctx"@)),
            None => Err(KctxErrorView::CacheDirNotFound),
        },
    }
}

/// A cache entry saved at `now`.
pub open spec fn spec_save(namespaces: Seq<Seq<char>>, now: u64) -> NamespaceCacheView {
    NamespaceCacheView { namespaces, timestamp: now }
}

/// A stored entry is stale once more than the time to live has passed since
/// it was saved; an entry stamped later than `now` is not stale.
pub open spec fn spec_is_expired(entry: NamespaceCacheView, now: u64) -> bool {
    now > entry.timestamp + CACHE_TTL_SECS
}

/// What loading gives: nothing when no entry is stored or it is stale, else its namespaces.
pub open spec fn spec_load(stored: Option<NamespaceCacheView>, now: u64) -> Option<Seq<Seq<char>>> {
    match stored {
        None => None,
        Some(entry) => if spec_is_expired(entry, now) {
            None
        } else {
            Some(entry.namespaces)
        },
    }
}

impl NamespaceCache {
    /// Chooses the cache directory from an override and the platform's cache directory.
    pub fn get_cache_dir(override_dir: Option<String>, platform_dir: Option<String>) -> (res: Result<
        String,
        KctxError,
    >)
        ensures
            match res {
                Ok(d) => spec_get_cache_dir(opt_view(override_dir), opt_view(platform_dir)) == Ok::<
                    Seq<char>,
                    KctxErrorView,
                >(d@),
                Err(e) => spec_get_cache_dir(opt_view(override_dir), opt_view(platform_dir)) == Err::<
                    Seq<char>,
                    KctxErrorView,
                >(e@),
            },
    {
        match override_dir {
            Some(d) => Ok(d),
            None => match platform_dir {
                Some(p) => Ok(join_path(p.as_str(), "kctx")),
                None => Err(KctxError::CacheDirNotFound),
            },
        }
    }

    /// The name of a context's cache file: the context name with `/` and `:`
    /// replaced by `_`, then `.json`; it never holds a `/` or a `:`.
    pub fn cache_file_name(context_name: &str) -> (res: String)
        ensures
            res@ == spec_cache_file_name(context_name@),
            !res@.contains('/'),
            !res@.contains(':'),
    {
        let chars = chars_of(context_name);
        let mut res = String::new();
        let mut i: usize = 0;
        while i < chars.len()
            invariant
                chars@ == context_name@,
                i <= chars@.len(),
                res@ == sanitized(context_name@).take(i as int),
            decreases chars@.len() - i,
        {
            let c = chars[i];
            if c == '/' || c == ':' {
                push_char(&mut res, '_');
            } else {
                push_char(&mut res, c);
            }
            assert(sanitized(context_name@).take(i + 1) =~= sanitized(context_name@).take(i as int).push(
                sanitized(context_name@)[i as int],
            ));
            i += 1;
        }
        assert(sanitized(context_name@).take(i as int) =~= sanitized(context_name@));
        res.append(".json");
        proof {
            reveal_strlit(".json");
            if res@.contains('/') {
                let k: int = choose|k: int| 0 <= k < res@.len() && res@[k] == '/';
                assert(k >= context_name@.len());
            }
            if res@.contains(':') {
                let k: int = choose|k: int| 0 <= k < res@.len() && res@[k] == ':';
                assert(k >= context_name@.len());
            }
        }
        res
    }

    /// The path of a context's cache file inside `cache_dir`.
    pub fn get_cache_path(cache_dir: &str, context_name: &str) -> (res: String)
        ensures
            res@ == spec_cache_path(cache_dir@, context_name@),
    {
        let file_name = Self::cache_file_name(context_name);
        join_path(cache_dir, file_name.as_str())
    }

    /// The entry that saving `namespaces` at time `now` stores.
    pub fn save(namespaces: Vec<String>, now: u64) -> (res: NamespaceCache)
        ensures
            res@ == spec_save(string_views(namespaces@), now),
    {
        NamespaceCache { namespaces, timestamp: now }
    }

    /// Whether the entry is stale at time `now`.
    pub fn is_expired(&self, now: u64) -> (res: bool)
        ensures
            res == spec_is_expired(self@, now),
    {
        now >= self.timestamp && now - self.timestamp > CACHE_TTL_SECS
    }

    /// The cached namespaces of a stored entry (`None` when no entry is
    /// stored) if it is still fresh at time `now`.
    pub fn load(stored: Option<NamespaceCache>, now: u64) -> (res: Option<Vec<String>>)
        ensures
            match res {
                Some(ns) => spec_load(stored_view(stored), now) == Some(string_views(ns@)),
                None => spec_load(stored_view(stored), now) is None,
            },
    {
        match stored {
            None => None,
            Some(entry) => if entry.is_expired(now) {
                None
            } else {
                Some(entry.namespaces)
            },
        }
    }
}

/// The view of an optional stored entry.
pub open spec fn stored_view(stored: Option<NamespaceCache>) -> Option<NamespaceCacheView> {
    match stored {
        Some(entry) => Some(entry@),
        None => None,
    }
}


/// Loading within the time to live after saving gives back exactly the saved
/// namespaces; so does loading at a time earlier than the save (a clock set back).
pub proof fn lemma_load_after_save(namespaces: Seq<Seq<char>>, saved_at: u64, now: u64)
    requires
        now <= saved_at + CACHE_TTL_SECS,
    ensures
        spec_load(Some(spec_save(namespaces, saved_at)), now) == Some(namespaces),
{
}

/// Loading more than the time to live after saving gives nothing.
pub proof fn lemma_load_after_expiry(namespaces: Seq<Seq<char>>, saved_at: u64, now: u64)
    requires
        now > saved_at + CACHE_TTL_SECS,
    ensures
        spec_load(Some(spec_save(namespaces, saved_at)), now) is None,
{
}

/// Loading when nothing is stored gives nothing.
pub proof fn lemma_load_missing(now: u64)
    ensures
        spec_load(None, now) is None,
{
}

proof fn lemma_join_injective(base: Seq<char>, x: Seq<char>, y: Seq<char>)
    requires
        joined_path(base, x) == joined_path(base, y),
    ensures
        x == y,
{
    let p = if base.len() == 0 || base.last() == '/' { base } else { base + seq!['/'] };
    assert(joined_path(base, x) == p + x);
    assert(joined_path(base, y) == p + y);
    assert((p + x).subrange(p.len() as int, (p + x).len() as int) =~= x);
    assert((p + y).subrange(p.len() as int, (p + y).len() as int) =~= y);
}

/// Context names whose sanitised forms differ get different cache files, so
/// their cached namespace lists never mix.
pub proof fn lemma_cache_paths_distinct(cache_dir: Seq<char>, a: Seq<char>, b: Seq<char>)
    requires
        sanitized(a) != sanitized(b),
    ensures
        spec_cache_path(cache_dir, a) != spec_cache_path(cache_dir, b),
{
    if spec_cache_path(cache_dir, a) == spec_cache_path(cache_dir, b) {
        lemma_join_injective(cache_dir, spec_cache_file_name(a), spec_cache_file_name(b));
        let sa = sanitized(a) + ".json"@;
        let sb = sanitized(b) + ".json"@;
        assert(sa.len() == sb.len());
        assert(sa.subrange(0, sanitized(a).len() as int) =~= sanitized(a));
        assert(sb.subrange(0, sanitized(b).len() as int) =~= sanitized(b));
    }
}

/// A name that holds no `/` and no `:` is its own sanitised form; so two
/// different such names get different cache files.
pub proof fn lemma_plain_names_distinct(cache_dir: Seq<char>, a: Seq<char>, b: Seq<char>)
    requires
        a != b,
        !a.contains('/'),
        !a.contains(':'),
        !b.contains('/'),
        !b.contains(':'),
    ensures
        sanitized(a) == a,
        sanitized(b) == b,
        spec_cache_path(cache_dir, a) != spec_cache_path(cache_dir, b),
{
    assert(sanitized(a) =~= a) by {
        assert forall|i: int| 0 <= i < a.len() implies sanitized(a)[i] == a[i] by {
            assert(a[i] != '/' && a[i] != ':');
        }
    }
    assert(sanitized(b) =~= b) by {
        assert forall|i: int| 0 <= i < b.len() implies sanitized(b)[i] == b[i] by {
            assert(b[i] != '/' && b[i] != ':');
        }
    }
    lemma_cache_paths_distinct(cache_dir, a, b);
}

/// A character that the cache file name cannot hold as it is.
pub open spec fn is_separator(c: char) -> bool {
    c == '/' || c == ':'
}

/// Sanitising keeps every character in its place: the length stays, every
/// separator becomes `_`, and every other character is kept.
pub proof fn lemma_sanitized_keeps_positions(name: Seq<char>)
    ensures
        sanitized(name).len() == name.len(),
        forall|i: int| 0 <= i < name.len() && is_separator(name[i]) ==> #[trigger] sanitized(name)[i] == '_',
        forall|i: int| 0 <= i < name.len() && !is_separator(name[i]) ==> #[trigger] sanitized(name)[i] == name[i],
{
}

/// Sanitising a joined name is joining the sanitised parts.
pub proof fn lemma_sanitized_concat(a: Seq<char>, b: Seq<char>)
    ensures
        sanitized(a + b) == sanitized(a) + sanitized(b),
{
    assert(sanitized(a + b) =~= sanitized(a) + sanitized(b));
}

/// Two context names share a cache file only when they have the same length
/// and, at every position, either the same character or, in both, a separator
/// or `_`.
pub proof fn lemma_shared_cache_file(cache_dir: Seq<char>, a: Seq<char>, b: Seq<char>)
    ensures
        spec_cache_path(cache_dir, a) == spec_cache_path(cache_dir, b) ==> a.len() == b.len() && forall|
            i: int,
        |
            0 <= i < a.len() ==> (a[i] == b[i] || ((is_separator(a[i]) || a[i] == '_') && (
                is_separator(b[i]) || b[i] == '_'))),
{
    lemma_sanitized_keeps_positions(a);
    lemma_sanitized_keeps_positions(b);
    if spec_cache_path(cache_dir, a) == spec_cache_path(cache_dir, b) {
        if sanitized(a) != sanitized(b) {
            lemma_cache_paths_distinct(cache_dir, a, b);
        }
        assert(a.len() == b.len());
        assert forall|i: int| 0 <= i < a.len() implies (a[i] == b[i] || ((is_separator(a[i])
            || a[i] == '_') && (is_separator(b[i]) || b[i] == '_'))) by {
            assert(sanitized(a)[i] == sanitized(b)[i]);
        }
    }
}

} // verus!
