//! The temper connection held by the core, and the resolution of resource
//! references for display.
//!
//! Reading from temper is network I/O and stays with the caller: it hands the
//! outcome of each read back here as a `ResourceLookup`, and the decisions
//! about what that outcome means are made and proved here.
use vstd::prelude::*;

use crate::resource_ref::{parse_ref, ref_value, ResourceId};

verus! {

/// The temper connection held by the core.
///
/// The client reuses the machine's existing temper credentials. Until they
/// exist there is no client, and `connect_error` names why, so that the UI
/// shows that state rather than pretending to be connected.
pub struct TemperState<C> {
    client: Option<C>,
    connect_error: Option<String>,
}

impl<C> TemperState<C> {
    /// Exactly one of the two holds: a client, or the reason there is none.
    #[verifier::type_invariant]
    spec fn connected_or_explained(&self) -> bool {
        self.client.is_some() != self.connect_error.is_some()
    }

    /// The client, where the connection was made.
    pub closed spec fn client_model(&self) -> Option<C> {
        self.client
    }

    /// Why there is no client, where the connection failed.
    pub closed spec fn error_model(&self) -> Option<Seq<char>> {
        match self.connect_error {
            Some(e) => Some(e@),
            None => None,
        }
    }

    /// The state after an attempt to build the client: the client where it was
    /// built, else the message of the attempt's error.
    pub fn connect(attempt: Result<C, String>) -> (s: Self)
        ensures
            match attempt {
                Ok(c) => s.client_model() == Some(c) && s.error_model() is None,
                Err(e) => s.client_model() is None && s.error_model() == Some(e@),
            },
    {
        match attempt {
            Ok(client) => TemperState { client: Some(client), connect_error: None },
            Err(err) => TemperState { client: None, connect_error: Some(err) },
        }
    }

    /// The client, or the error every command reports when there is none.
    pub fn connected_client(&self) -> (r: Result<&C, String>)
        ensures
            match self.client_model() {
                Some(c) => r == Ok::<&C, String>(&c),
                None => r matches Err(e) && e@ == "temper is not connected"@,
            },
    {
        match &self.client {
            Some(c) => Ok(c),
            None => Err(String::from_str("temper is not connected")),
        }
    }
}

/// Whether temper is connected, and why not, as the UI shows it.
#[derive(Debug, PartialEq)]
pub struct ConnectionStatus {
    pub connected: bool,
    pub error: Option<String>,
}

/// The connection's status: connected exactly when there is a client, with
/// the connection's error where there is none.
pub fn temper_connection_status<C>(state: &TemperState<C>) -> (s: ConnectionStatus)
    ensures
        s.connected == state.client_model().is_some(),
        s.error.is_some() == state.error_model().is_some(),
        s.error matches Some(e) ==> state.error_model() == Some(e@),
        s.connected == s.error.is_none(),
{
    proof {
        use_type_invariant(state);
    }
    let error = match &state.connect_error {
        Some(e) => Some(e.clone()),
        None => None,
    };
    ConnectionStatus { connected: state.client.is_some(), error }
}

/// What a reference resolved to. `Unresolved` is the server saying there is
/// nothing (or nothing the person can see) at that id; `Failed` is the read
/// not completing, which verifies nothing either way.
#[derive(Debug, PartialEq)]
pub enum RefResolution {
    Resolved {
        id: String,
        title: String,
        doc_type: String,
        context_ref: Option<String>,
        decorated_ref: String,
    },
    Unresolved { id: String, reason: String },
    Failed { id: String, message: String },
}

/// The fields of a resource that a read from temper returned.
pub struct ResourceView {
    pub title: String,
    pub doc_type_name: String,
    pub context_ref: Option<String>,
    pub decorated_ref: String,
}

/// How a read of one resource from temper ended.
pub enum ResourceLookup {
    /// The resource, as read.
    Found(ResourceView),
    /// Nothing at that id.
    NotFound,
    /// The resource was there and is gone.
    Gone,
    /// The resource is not visible to the person signed in.
    Forbidden,
    /// The read did not complete; the message says why.
    Failed(String),
}

/// The first step of resolving a reference: either the resource to read, or
/// the resolution already, where the text names no resource.
pub enum ResolveStep {
    Lookup(ResourceId),
    Settled(RefResolution),
}

/// Starts resolving the reference `raw`: a text that names no resource is
/// unresolved at once; otherwise the resource it names is to be read.
pub fn begin_resolve(raw: String) -> (step: ResolveStep)
    ensures
        match ref_value(raw@) {
            Some(v) => step == ResolveStep::Lookup(ResourceId(v)),
            None => step matches ResolveStep::Settled(RefResolution::Unresolved { id, reason })
                && id == raw && reason@ == "not a resource reference"@,
        },
{
    match parse_ref(raw.as_str()) {
        Some(id) => ResolveStep::Lookup(id),
        None => ResolveStep::Settled(
            RefResolution::Unresolved { id: raw, reason: String::from_str("not a resource reference") },
        ),
    }
}

/// Finishes resolving the reference `raw` from the outcome of reading the
/// resource it names. A resource that is absent, gone or hidden reads as
/// unresolved; only a read that did not complete reads as failed.
pub fn finish_resolve(raw: String, lookup: ResourceLookup) -> (r: RefResolution)
    ensures
        match lookup {
            ResourceLookup::Found(view) => r == RefResolution::Resolved {
                id: raw,
                title: view.title,
                doc_type: view.doc_type_name,
                context_ref: view.context_ref,
                decorated_ref: view.decorated_ref,
            },
            ResourceLookup::NotFound => r matches RefResolution::Unresolved { id, reason } && id
                == raw && reason@ == "no resource at this reference"@,
            ResourceLookup::Gone => r matches RefResolution::Unresolved { id, reason } && id == raw
                && reason@ == "this resource is gone"@,
            ResourceLookup::Forbidden => r matches RefResolution::Unresolved { id, reason } && id
                == raw && reason@ == "not visible to you"@,
            ResourceLookup::Failed(message) => r == RefResolution::Failed { id: raw, message },
        },
{
    match lookup {
        ResourceLookup::Found(view) => RefResolution::Resolved {
            id: raw,
            title: view.title,
            doc_type: view.doc_type_name,
            context_ref: view.context_ref,
            decorated_ref: view.decorated_ref,
        },
        ResourceLookup::NotFound => RefResolution::Unresolved {
            id: raw,
            reason: String::from_str("no resource at this reference"),
        },
        ResourceLookup::Gone => RefResolution::Unresolved {
            id: raw,
            reason: String::from_str("this resource is gone"),
        },
        ResourceLookup::Forbidden => RefResolution::Unresolved {
            id: raw,
            reason: String::from_str("not visible to you"),
        },
        ResourceLookup::Failed(message) => RefResolution::Failed { id: raw, message },
    }
}

} // verus!
