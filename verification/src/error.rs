//! The errors that the library reports, and their messages.
use vstd::prelude::*;

verus! {

/// Why an operation of the library was refused.
#[derive(Debug)]
pub enum KctxError {
    /// No context of the kubeconfig carries the requested name.
    ContextNotFound,
    /// The named context has no context data (read access).
    ContextDataMissing,
    /// The named context has no context data (write access).
    ContextEmpty,
    /// A context that the user asked to switch to does not exist.
    UnknownContext(String),
    /// No context is active, so there is nothing to change the namespace of.
    NoActiveContext,
    /// A namespace that the user asked for does not exist in the cluster.
    NamespaceNotFound(String),
    /// The cluster reported no named namespace.
    NoNamespaces,
    /// Neither an override nor a platform cache directory is known.
    CacheDirNotFound,
    /// Neither `KUBECONFIG` nor a home directory is known.
    KubeconfigPathNotFound,
}

/// The mathematical value of a [`KctxError`]: names are taken as character sequences.
pub enum KctxErrorView {
    ContextNotFound,
    ContextDataMissing,
    ContextEmpty,
    UnknownContext(Seq<char>),
    NoActiveContext,
    NamespaceNotFound(Seq<char>),
    NoNamespaces,
    CacheDirNotFound,
    KubeconfigPathNotFound,
}

impl View for KctxError {
    type V = KctxErrorView;

    open spec fn view(&self) -> KctxErrorView {
        match self {
            KctxError::ContextNotFound => KctxErrorView::ContextNotFound,
            KctxError::ContextDataMissing => KctxErrorView::ContextDataMissing,
            KctxError::ContextEmpty => KctxErrorView::ContextEmpty,
            KctxError::UnknownContext(n) => KctxErrorView::UnknownContext(n@),
            KctxError::NoActiveContext => KctxErrorView::NoActiveContext,
            KctxError::NamespaceNotFound(n) => KctxErrorView::NamespaceNotFound(n@),
            KctxError::NoNamespaces => KctxErrorView::NoNamespaces,
            KctxError::CacheDirNotFound => KctxErrorView::CacheDirNotFound,
            KctxError::KubeconfigPathNotFound => KctxErrorView::KubeconfigPathNotFound,
        }
    }
}

impl KctxErrorView {
    /// The text shown to the user for this error.
    pub open spec fn message(self) -> Seq<char> {
        match self {
            KctxErrorView::ContextNotFound => "Current context not found in config file"@,
            KctxErrorView::ContextDataMissing => "Context data is missing/invalid"@,
            KctxErrorView::ContextEmpty => "This context is empty or invalid"@,
            KctxErrorView::UnknownContext(n) => "the context "@ + n
                + " does not exist in the kubeconfig."@,
            KctxErrorView::NoActiveContext => "No active context set, cannot change namespace"@,
            KctxErrorView::NamespaceNotFound(n) => "Namespace "@ + n + " does not exist."@,
            KctxErrorView::NoNamespaces => "No namespaces found in the cluster."@,
            KctxErrorView::CacheDirNotFound => "Could not find cache directory"@,
            KctxErrorView::KubeconfigPathNotFound =>
                "Could not find kubeconfig path. Please set KUBECONFIG or ensure HOME is set."@,
        }
    }
}

impl KctxError {
    /// The text shown to the user for this error.
    pub fn message(&self) -> (res: String)
        ensures
            res@ == self@.message(),
    {
        match self {
            KctxError::ContextNotFound => String::from_str("Current context not found in config file"),
            KctxError::ContextDataMissing => String::from_str("Context data is missing/invalid"),
            KctxError::ContextEmpty => String::from_str("This context is empty or invalid"),
            KctxError::UnknownContext(n) => {
                let mut res = String::from_str("the context ");
                res.append(n.as_str());
                res.append(" does not exist in the kubeconfig.");
                res
            },
            KctxError::NoActiveContext => String::from_str(
                "No active context set, cannot change namespace",
            ),
            KctxError::NamespaceNotFound(n) => {
                let mut res = String::from_str("Namespace ");
                res.append(n.as_str());
                res.append(" does not exist.");
                res
            },
            KctxError::NoNamespaces => String::from_str("No namespaces found in the cluster."),
            KctxError::CacheDirNotFound => String::from_str("Could not find cache directory"),
            KctxError::KubeconfigPathNotFound => String::from_str(
                "Could not find kubeconfig path. Please set KUBECONFIG or ensure HOME is set.",
            ),
        }
    }
}

} // verus!
