use vstd::prelude::*;

use crate::text::{has_prefix, strip_prefix};

verus! {

/// The transport backends, chosen by the scheme of an endpoint URI.
#[derive(Clone, Copy, Debug, PartialEq, Eq, Structural)]
pub enum TransportKind {
    Tcp,
    Tls,
    Inproc,
}

/// The backend that serves an endpoint, by its scheme: `tcp://`, `tls://` (or `tcps://`) and
/// `inproc://`.
pub open spec fn transport_of(uri: Seq<char>) -> Option<TransportKind> {
    if has_prefix(uri, "tcp://"@) {
        Some(TransportKind::Tcp)
    } else if has_prefix(uri, "tls://"@) || has_prefix(uri, "tcps://"@) {
        Some(TransportKind::Tls)
    } else if has_prefix(uri, "inproc://"@) {
        Some(TransportKind::Inproc)
    } else {
        None
    }
}

/// The length of the scheme prefix of an endpoint whose transport is known.
pub open spec fn scheme_prefix_len(uri: Seq<char>) -> int {
    if has_prefix(uri, "tcp://"@) {
        "tcp://"@.len() as int
    } else if has_prefix(uri, "tls://"@) {
        "tls://"@.len() as int
    } else if has_prefix(uri, "tcps://"@) {
        "tcps://"@.len() as int
    } else {
        "inproc://"@.len() as int
    }
}

/// The backend that serves an endpoint, and the backend-specific rest of its URI.
pub fn select_transport(uri: &str) -> (r: Option<(TransportKind, &str)>)
    ensures
        match r {
            Some((kind, rest)) => transport_of(uri@) == Some(kind) && rest@ == uri@.subrange(
                scheme_prefix_len(uri@),
                uri@.len() as int,
            ),
            None => transport_of(uri@) is None,
        },
{
    proof {
        reveal_strlit("tcp://");
        reveal_strlit("tls://");
        reveal_strlit("tcps://");
        reveal_strlit("inproc://");
    }
    if let Some(rest) = strip_prefix(uri, "tcp://") {
        return Some((TransportKind::Tcp, rest));
    }
    if let Some(rest) = strip_prefix(uri, "tls://") {
        return Some((TransportKind::Tls, rest));
    }
    if let Some(rest) = strip_prefix(uri, "tcps://") {
        return Some((TransportKind::Tls, rest));
    }
    if let Some(rest) = strip_prefix(uri, "inproc://") {
        return Some((TransportKind::Inproc, rest));
    }
    None
}

/// Why a listener could not accept a connection.
#[derive(Clone, Copy, Debug, PartialEq, Eq, Structural)]
pub enum AcceptFailure {
    /// The other side broke the protocol (a failed handshake, an unsupported version).
    Protocol,
    /// The listener's socket failed.
    Io,
}

/// What a listener does after a failed accept.
#[derive(Clone, Copy, Debug, PartialEq, Eq, Structural)]
pub enum ListenerStep {
    /// Log it and accept the next connection.
    Continue,
    /// Stop listening.
    Stop,
}

/// A protocol failure is logged and the listener goes on; an I/O failure ends it.
pub fn after_accept_failure(failure: AcceptFailure) -> (r: ListenerStep)
    ensures
        r == (if failure == AcceptFailure::Protocol {
            ListenerStep::Continue
        } else {
            ListenerStep::Stop
        }),
{
    match failure {
        AcceptFailure::Protocol => ListenerStep::Continue,
        AcceptFailure::Io => ListenerStep::Stop,
    }
}

/// How a new connection is authorized.
pub enum Authorization {
    /// An in-process connection with a known identity: authorized at once.
    Inproc(String),
    /// A connection that must go through the challenge handshake.
    Challenge,
    /// An in-process connection that no internal service is known by.
    Refused,
}

/// The identity of an in-process endpoint: that of its last registration.
pub open spec fn inproc_identity_in(ids: Seq<(String, String)>, uri: Seq<char>) -> Option<Seq<char>>
    decreases ids.len(),
{
    if ids.len() == 0 {
        None
    } else if ids.last().0@ == uri {
        Some(ids.last().1@)
    } else {
        inproc_identity_in(ids.drop_last(), uri)
    }
}

/// Chooses the authorizer of a connection by the scheme of its remote endpoint: in-process
/// connections are looked up in `inproc_ids`, every other one is challenged.
pub fn authorize_by_scheme(inproc_ids: &Vec<(String, String)>, remote_endpoint: &String) -> (r:
    Authorization)
    ensures
        match r {
            Authorization::Inproc(id) => has_prefix(remote_endpoint@, "inproc://"@)
                && inproc_identity_in(inproc_ids@, remote_endpoint@) == Some(id@),
            Authorization::Refused => has_prefix(remote_endpoint@, "inproc://"@)
                && inproc_identity_in(inproc_ids@, remote_endpoint@) is None,
            Authorization::Challenge => !has_prefix(remote_endpoint@, "inproc://"@),
        },
{
    if strip_prefix(remote_endpoint.as_str(), "inproc://").is_none() {
        return Authorization::Challenge;
    }
    let mut k: usize = inproc_ids.len();
    assert(inproc_ids@.subrange(0, k as int) =~= inproc_ids@);
    while k > 0
        invariant
            has_prefix(remote_endpoint@, "inproc://"@),
            k <= inproc_ids@.len(),
            inproc_identity_in(inproc_ids@, remote_endpoint@) == inproc_identity_in(
                inproc_ids@.subrange(0, k as int),
                remote_endpoint@,
            ),
        decreases k,
    {
        assert(inproc_ids@.subrange(0, k as int).drop_last() =~= inproc_ids@.subrange(0, k - 1));
        if inproc_ids[k - 1].0 == *remote_endpoint {
            return Authorization::Inproc(inproc_ids[k - 1].1.clone());
        }
        k = k - 1;
    }
    Authorization::Refused
}

} // verus!
