//! Resolution of a dynamic route to a cell and from the cell to an
//! upstream. Asking the locator for an organization's cell happens
//! outside; its answer comes in as an argument.

use crate::proxy::errors::ProxyError;
use crate::support::strmap::StrMap;
use crate::support::text::str_eq;
use vstd::prelude::*;

verus! {

/// How a dynamic route finds its cell.
#[derive(Debug, PartialEq, Eq, Clone, Copy)]
pub enum Resolver {
    /// The cell that owns the organization in the `organization` parameter.
    CellFromOrganization,
    /// The cell named by the `id` parameter.
    CellFromId,
}

impl Resolver {
    /// The resolver named `name` in a configuration.
    pub open spec fn from_name_spec(name: Seq<char>) -> Option<Resolver> {
        if name == "cell_from_organization"@ {
            Some(Resolver::CellFromOrganization)
        } else if name == "cell_from_id"@ {
            Some(Resolver::CellFromId)
        } else {
            None
        }
    }

    /// The resolver configured under a name.
    pub fn from_name(name: &str) -> (r: Option<Resolver>)
        ensures
            r == Resolver::from_name_spec(name@),
    {
        if str_eq(name, "cell_from_organization") {
            Some(Resolver::CellFromOrganization)
        } else if str_eq(name, "cell_from_id") {
            Some(Resolver::CellFromId)
        } else {
            None
        }
    }
}

/// What must be known to name the cell.
#[derive(Debug, PartialEq, Eq)]
pub enum CellQuery {
    /// The locator is to be asked for this organization's cell.
    Organization(String),
    /// The cell is named directly.
    Cell(String),
}

/// The resolvers of dynamic routes.
pub struct Resolvers {}

impl Resolvers {
    pub fn try_new() -> (r: Result<Resolvers, ProxyError>)
        ensures
            r is Ok,
    {
        Ok(Resolvers {  })
    }

    /// What a resolver needs from the route's parameters; an error when the
    /// parameter it reads is missing.
    pub fn cell_query(&self, resolver: &Resolver, params: &StrMap<String>) -> (r: Result<CellQuery, ProxyError>)
        requires
            params.wf(),
        ensures
            match resolver {
                Resolver::CellFromOrganization => match r {
                    Ok(CellQuery::Organization(o)) => params@.contains_key("organization"@) && o == params@["organization"@],
                    Err(ProxyError::ResolverError) => !params@.contains_key("organization"@),
                    _ => false,
                },
                Resolver::CellFromId => match r {
                    Ok(CellQuery::Cell(c)) => params@.contains_key("id"@) && c == params@["id"@],
                    Err(ProxyError::ResolverError) => !params@.contains_key("id"@),
                    _ => false,
                },
            },
    {
        match resolver {
            Resolver::CellFromOrganization => match params.get("organization") {
                Some(o) => Ok(CellQuery::Organization(o.clone())),
                None => Err(ProxyError::ResolverError),
            },
            Resolver::CellFromId => match params.get("id") {
                Some(c) => Ok(CellQuery::Cell(c.clone())),
                None => Err(ProxyError::ResolverError),
            },
        }
    }

    /// The cell a query names: the one given directly, or the locator's
    /// answer for the organization (`lookup`, an error when there is none).
    pub fn cell_of(&self, query: CellQuery, lookup: Option<Result<String, ProxyError>>) -> (r: Result<String, ProxyError>)
        ensures
            match query {
                CellQuery::Cell(c) => r == Ok::<String, ProxyError>(c),
                CellQuery::Organization(_) => match lookup {
                    Some(l) => r == l,
                    None => r == Err::<String, ProxyError>(ProxyError::ResolverError),
                },
            },
    {
        match query {
            CellQuery::Cell(c) => Ok(c),
            CellQuery::Organization(_) => match lookup {
                Some(l) => l,
                None => Err(ProxyError::ResolverError),
            },
        }
    }

    /// The upstream mapped to the resolved cell; an error when the cell
    /// could not be resolved or has no upstream.
    pub fn resolve<'a>(&self, cell: Result<String, ProxyError>, cell_to_upstream: &'a StrMap<String>) -> (r: Result<&'a str, ProxyError>)
        requires
            cell_to_upstream.wf(),
        ensures
            match cell {
                Ok(c) => match r {
                    Ok(u) => cell_to_upstream@.contains_key(c@) && u@ == cell_to_upstream@[c@]@,
                    Err(e) => !cell_to_upstream@.contains_key(c@) && e == ProxyError::ResolverError,
                },
                Err(e) => r == Err::<&str, ProxyError>(e),
            },
    {
        match cell {
            Ok(c) => match cell_to_upstream.get(c.as_str()) {
                Some(u) => Ok(u.as_str()),
                None => Err(ProxyError::ResolverError),
            },
            Err(e) => Err(e),
        }
    }
}

} // verus!
