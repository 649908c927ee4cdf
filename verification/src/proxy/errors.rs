//! Errors raised while building and running the proxy's routing tables.

use vstd::prelude::*;

verus! {

/// Errors of the proxy's routing logic.
#[derive(Debug, PartialEq, Eq)]
pub enum ProxyError {
    /// A route in the configuration is malformed; the text says how.
    InvalidRoute(String),
    /// An upstream URL lacks a scheme or an authority.
    InvalidUpstream,
    /// An upstream URL could not be parsed at all.
    InvalidUri(String),
    /// A dynamic route could not be resolved to an upstream.
    ResolverError,
}

/// A proxy error with its text taken by its characters.
pub enum ProxyErrorView {
    InvalidRoute(Seq<char>),
    InvalidUpstream,
    InvalidUri(Seq<char>),
    ResolverError,
}

impl ProxyError {
    pub open spec fn view(&self) -> ProxyErrorView {
        match self {
            ProxyError::InvalidRoute(m) => ProxyErrorView::InvalidRoute(m@),
            ProxyError::InvalidUpstream => ProxyErrorView::InvalidUpstream,
            ProxyError::InvalidUri(m) => ProxyErrorView::InvalidUri(m@),
            ProxyError::ResolverError => ProxyErrorView::ResolverError,
        }
    }
}

} // verus!
