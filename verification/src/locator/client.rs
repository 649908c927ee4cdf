//! A client of a locator served over HTTP: the query it sends and how the
//! answer's status maps to a cell or an error. The request is sent
//! outside.

use crate::locator::api::{api_status, query_params};
use crate::locator::locator::{LocatorError, LocatorErrorView};
use vstd::prelude::*;

verus! {

/// Why a lookup through the client failed.
#[derive(Debug)]
pub enum ClientError {
    LocatorError(LocatorError),
    /// The backup route store failed; the text says how.
    BackupError(String),
    /// The request or the decoding of its answer failed; the text says how.
    ReqwestError(String),
    IoError(std::io::Error),
}

/// The query of a lookup: the id, then the locality when one is asked.
pub fn lookup_query(id: &str, locality: Option<&str>) -> (q: Vec<(String, String)>)
    ensures
        q@.len() == (if locality is Some { 2int } else { 1int }),
        q@[0].0@ == "id"@ && q@[0].1@ == id@,
        locality matches Some(l) ==> q@[1].0@ == "locality"@ && q@[1].1@ == l@,
{
    let mut q: Vec<(String, String)> = Vec::new();
    q.push(("id".to_owned(), id.to_owned()));
    match locality {
        Some(l) => q.push(("locality".to_owned(), l.to_owned())),
        None => {},
    }
    q
}

/// What the client makes of an answer: the cell for a 200 whose body
/// gave one, the locator's error for the statuses it answers errors with
/// (404: no cell, 503: not ready, any other: internal), `None` when a
/// 200's body could not be read.
pub open spec fn client_result(status: u16, cell: Option<Result<Seq<char>, Seq<char>>>) -> Option<Result<Seq<char>, LocatorErrorView>> {
    if status == 200 {
        match cell {
            Some(Ok(c)) => Some(Ok(c)),
            _ => None,
        }
    } else if status == 404 {
        Some(Err(LocatorErrorView::NoCell))
    } else if status == 503 {
        Some(Err(LocatorErrorView::NotReady))
    } else {
        Some(Err(LocatorErrorView::InternalError))
    }
}

/// The decoded body of an answer by its text.
pub open spec fn cell_view(cell: Option<Result<String, String>>) -> Option<Result<Seq<char>, Seq<char>>> {
    match cell {
        Some(Ok(c)) => Some(Ok(c@)),
        Some(Err(m)) => Some(Err(m@)),
        None => None,
    }
}

/// The result of a lookup from the answer's status and, for a 200, its
/// decoded cell (or why it could not be decoded): not found and not
/// ready are the locator's own errors, any other status an internal one.
pub fn lookup_result(status: u16, cell: Option<Result<String, String>>) -> (r: Result<String, ClientError>)
    ensures
        status == 200 ==> match cell {
            Some(Ok(c)) => r matches Ok(x) && x == c,
            Some(Err(m)) => r matches Err(ClientError::ReqwestError(x)) && x == m,
            None => r matches Err(ClientError::ReqwestError(_)),
        },
        status == 404 ==> r matches Err(ClientError::LocatorError(LocatorError::NoCell)),
        status == 503 ==> r matches Err(ClientError::LocatorError(LocatorError::NotReady)),
        status != 200 && status != 404 && status != 503 ==> r matches Err(ClientError::LocatorError(LocatorError::InternalError)),
        match client_result(status, cell_view(cell)) {
            Some(Ok(c)) => r matches Ok(x) && x@ == c,
            Some(Err(e)) => r matches Err(ClientError::LocatorError(le)) && le@ == e,
            None => r matches Err(ClientError::ReqwestError(_)),
        },
{
    if status == 200 {
        match cell {
            Some(Ok(c)) => Ok(c),
            Some(Err(m)) => Err(ClientError::ReqwestError(m)),
            None => Err(ClientError::ReqwestError("missing body".to_owned())),
        }
    } else if status == 404 {
        Err(ClientError::LocatorError(LocatorError::NoCell))
    } else if status == 503 {
        Err(ClientError::LocatorError(LocatorError::NotReady))
    } else {
        Err(ClientError::LocatorError(LocatorError::InternalError))
    }
}

/// The API reads the client's query as the lookup it was made for: the
/// organization (sent as `id`) and the locality when one is asked.
pub proof fn law_api_reads_client_query(id: Seq<char>, locality: Option<Seq<char>>, q: Seq<(String, String)>)
    requires
        q.len() == (if locality is Some { 2int } else { 1int }),
        q[0].0@ == "id"@ && q[0].1@ == id,
        locality matches Some(l) ==> q[1].0@ == "locality"@ && q[1].1@ == l,
    ensures
        query_params(q) == Some((id, locality)),
{
    broadcast use Seq::lemma_filter_push;

    let po = |p: (String, String)| crate::locator::api::is_org_key(p.0@);
    let pl = |p: (String, String)| p.0@ == "locality"@;
    reveal_strlit("id");
    reveal_strlit("org_id");
    reveal_strlit("locality");
    let e = Seq::<(String, String)>::empty();
    assert(e.filter(po) =~= e) by {
        reveal(Seq::filter);
    }
    assert(e.filter(pl) =~= e) by {
        reveal(Seq::filter);
    }
    assert("id"@.len() == 2 && "org_id"@.len() == 6 && "locality"@.len() == 8);
    assert(po(q[0]) && !pl(q[0]));
    assert(locality is Some ==> !po(q[1]) && pl(q[1]));
    let q1 = e.push(q[0]);
    assert(q1.filter(po) =~= seq![q[0]]);
    assert(q1.filter(pl) =~= e);
    if locality is Some {
        assert(q =~= q1.push(q[1]));
        assert(q.filter(po) =~= seq![q[0]]);
        assert(q.filter(pl) =~= seq![q[1]]);
    } else {
        assert(q =~= q1);
    }
}

/// Asking a locator through its HTTP API gives what asking it directly
/// gives (the answer's body being read back as the cell it carries),
/// except that a cell of another locality comes back as no cell: the API
/// answers both with 404.
pub proof fn law_client_agrees_with_api(result: Result<Seq<char>, LocatorErrorView>)
    ensures
        client_result(
            api_status(result),
            match result {
                Ok(c) => Some(Ok(c)),
                Err(_) => None,
            },
        ) == Some(
            match result {
                Err(LocatorErrorView::LocalityMismatch { .. }) => Err(LocatorErrorView::NoCell),
                r => r,
            },
        ),
{
}

} // verus!
