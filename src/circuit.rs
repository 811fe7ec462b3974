use vstd::prelude::*;

use crate::dispatch::{CircuitDispatcher, CircuitHandler};
use crate::routing::{
    connect_outcome, connected, disconnected, has_circuit, routed_node, CircuitView, RoutingError, RoutingTable,
};

verus! {

/// A service asks to be connected to a circuit through this node.
pub struct ServiceConnectRequest {
    pub circuit: String,
    pub service_id: String,
}

/// A service asks to be disconnected from a circuit.
pub struct ServiceDisconnectRequest {
    pub circuit: String,
    pub service_id: String,
}

/// The status carried by a connect or disconnect response.
#[derive(Clone, Copy, Debug, PartialEq, Eq, Structural)]
pub enum RequestStatus {
    Accepted,
    ErrorCircuitDoesNotExist,
    ErrorNodeNotMember,
    ErrorServiceAlreadyConnected,
    ErrorServiceNotConnected,
}

/// The reply to a connect or disconnect request.
pub struct ServiceResponse {
    pub circuit: String,
    pub service_id: String,
    pub status: RequestStatus,
}

/// A message from one service of a circuit to another.
pub struct DirectMessage {
    pub circuit: String,
    pub sender: String,
    pub recipient: String,
    pub payload: Vec<u8>,
}

/// Why a circuit message could not be routed.
#[derive(Clone, Copy, Debug, PartialEq, Eq, Structural)]
pub enum CircuitErrorKind {
    UnknownCircuit,
    UnknownService,
}

/// An error sent back to the source of a message that could not be routed.
pub struct CircuitError {
    pub circuit: String,
    pub service_id: String,
    pub kind: CircuitErrorKind,
}

/// What becomes of a direct message.
pub enum DirectRoute {
    /// Forward the message to the node that hosts its recipient.
    Forward { node_id: String, message: DirectMessage },
    /// Answer the source with an error.
    Reject(CircuitError),
}

/// The response status that a routing outcome maps to.
pub open spec fn status_of(r: Result<(), RoutingError>) -> RequestStatus {
    match r {
        Ok(()) => RequestStatus::Accepted,
        Err(RoutingError::UnknownCircuit) => RequestStatus::ErrorCircuitDoesNotExist,
        Err(RoutingError::NodeNotMember) => RequestStatus::ErrorNodeNotMember,
        Err(RoutingError::ServiceConnectedElsewhere) => RequestStatus::ErrorServiceAlreadyConnected,
        Err(_) => RequestStatus::ErrorServiceNotConnected,
    }
}

fn status_from(r: Result<(), RoutingError>) -> (s: RequestStatus)
    ensures
        s == status_of(r),
{
    match r {
        Ok(()) => RequestStatus::Accepted,
        Err(RoutingError::UnknownCircuit) => RequestStatus::ErrorCircuitDoesNotExist,
        Err(RoutingError::NodeNotMember) => RequestStatus::ErrorNodeNotMember,
        Err(RoutingError::ServiceConnectedElsewhere) => RequestStatus::ErrorServiceAlreadyConnected,
        Err(_) => RequestStatus::ErrorServiceNotConnected,
    }
}

/// Handles a service connect request that reached this node: the service is routed to
/// `local_node`. The request is idempotent.
pub fn handle_service_connect(
    table: &mut RoutingTable,
    local_node: &String,
    request: ServiceConnectRequest,
) -> (r: ServiceResponse)
    requires
        old(table).wf(),
    ensures
        final(table).wf(),
        r.circuit@ == request.circuit@,
        r.service_id@ == request.service_id@,
        r.status == status_of(
            connect_outcome(old(table)@, request.circuit@, request.service_id@, local_node@),
        ),
        r.status == RequestStatus::Accepted ==> final(table)@ == connected(
            old(table)@,
            request.circuit@,
            request.service_id@,
            local_node@,
        ),
        r.status != RequestStatus::Accepted ==> final(table)@ == old(table)@,
{
    let outcome = table.connect_service(
        &request.circuit,
        request.service_id.clone(),
        local_node.clone(),
    );
    let status = status_from(outcome);
    ServiceResponse { circuit: request.circuit, service_id: request.service_id, status }
}

/// Handles a service disconnect request.
pub fn handle_service_disconnect(table: &mut RoutingTable, request: ServiceDisconnectRequest) -> (r:
    ServiceResponse)
    requires
        old(table).wf(),
    ensures
        final(table).wf(),
        r.circuit@ == request.circuit@,
        r.service_id@ == request.service_id@,
        r.status == (if !has_circuit(old(table)@, request.circuit@) {
            RequestStatus::ErrorCircuitDoesNotExist
        } else if routed_node(old(table)@, request.circuit@, request.service_id@) is None {
            RequestStatus::ErrorServiceNotConnected
        } else {
            RequestStatus::Accepted
        }),
        routed_node(final(table)@, request.circuit@, request.service_id@) is None,
        r.status == RequestStatus::Accepted ==> final(table)@ == disconnected(
            old(table)@,
            request.circuit@,
            request.service_id@,
        ),
        r.status != RequestStatus::Accepted ==> final(table)@ == old(table)@,
{
    let outcome = table.disconnect_service(&request.circuit, &request.service_id);
    proof {
        if outcome is Ok {
            crate::routing::lemma_disconnect_wf(old(table)@, request.circuit@, request.service_id@);
        }
    }
    let status = status_from(outcome);
    ServiceResponse { circuit: request.circuit, service_id: request.service_id, status }
}

/// What routing direct message `message` with table `t` must give: the node of its recipient,
/// or an error naming the circuit and the recipient, of the kind that says which is unknown.
pub open spec fn routes_direct(t: Seq<CircuitView>, message: DirectMessage, r: DirectRoute) -> bool {
    match r {
        DirectRoute::Forward { node_id, message: m } => routed_node(t, message.circuit@, message.recipient@)
            == Some(node_id@) && m == message,
        DirectRoute::Reject(e) => routed_node(t, message.circuit@, message.recipient@) is None
            && e.circuit@ == message.circuit@ && e.service_id@ == message.recipient@ && e.kind == (
        if has_circuit(t, message.circuit@) {
            CircuitErrorKind::UnknownService
        } else {
            CircuitErrorKind::UnknownCircuit
        }),
    }
}

/// Routes a direct message: to the node of its recipient, or back to its source as a circuit
/// error when the circuit or the recipient is unknown.
pub fn handle_direct_message(table: &RoutingTable, message: DirectMessage) -> (r: DirectRoute)
    requires
        table.wf(),
    ensures
        routes_direct(table@, message, r),
{
    match table.routed_node(&message.circuit, &message.recipient) {
        Some(node_id) => DirectRoute::Forward { node_id, message },
        None => {
            let known = table.has_circuit(&message.circuit);
            let kind = if known {
                CircuitErrorKind::UnknownService
            } else {
                CircuitErrorKind::UnknownCircuit
            };
            DirectRoute::Reject(
                CircuitError { circuit: message.circuit, service_id: message.recipient, kind },
            )
        },
    }
}

/// Routes a circuit error to the node of the service it is addressed to; an error for a
/// service that is not routed is dropped, so that errors never answer errors.
pub fn handle_circuit_error(table: &RoutingTable, error: &CircuitError) -> (r: Option<String>)
    requires
        table.wf(),
    ensures
        match r {
            Some(n) => routed_node(table@, error.circuit@, error.service_id@) == Some(n@),
            None => routed_node(table@, error.circuit@, error.service_id@) is None,
        },
{
    table.routed_node(&error.circuit, &error.service_id)
}

/// A typed circuit message, as the circuit dispatch loop receives it.
pub enum CircuitRequest {
    Connect(ServiceConnectRequest),
    Disconnect(ServiceDisconnectRequest),
    Direct(DirectMessage),
    AdminDirect(DirectMessage),
    Error(CircuitError),
}

/// The message type of a circuit request, and the handler that serves it.
pub open spec fn request_kind(r: CircuitRequest) -> (crate::wire::CircuitMessageType, CircuitHandler) {
    match r {
        CircuitRequest::Connect(_) => (
            crate::wire::CircuitMessageType::ServiceConnectRequest,
            CircuitHandler::ServiceConnect,
        ),
        CircuitRequest::Disconnect(_) => (
            crate::wire::CircuitMessageType::ServiceDisconnectRequest,
            CircuitHandler::ServiceDisconnect,
        ),
        CircuitRequest::Direct(_) => (
            crate::wire::CircuitMessageType::CircuitDirectMessage,
            CircuitHandler::DirectMessage,
        ),
        CircuitRequest::AdminDirect(_) => (
            crate::wire::CircuitMessageType::AdminDirectMessage,
            CircuitHandler::AdminDirectMessage,
        ),
        CircuitRequest::Error(_) => (
            crate::wire::CircuitMessageType::CircuitErrorMessage,
            CircuitHandler::CircuitError,
        ),
    }
}

/// What the circuit dispatch loop did with a request.
pub enum CircuitOutcome {
    Respond(ServiceResponse),
    Route(DirectRoute),
    /// Forward a circuit error to this node, or drop it where its service is not routed.
    ErrorRoute(Option<String>),
    /// No suitable handler is registered for the request's type; it is dropped.
    Unhandled(crate::wire::CircuitMessageType),
}

/// Runs the handler registered for a request's type, on the routing table.
pub fn dispatch_circuit(
    dispatcher: &CircuitDispatcher,
    table: &mut RoutingTable,
    local_node: &String,
    request: CircuitRequest,
) -> (r: CircuitOutcome)
    requires
        old(table).wf(),
    ensures
        final(table).wf(),
        dispatcher.handler(request_kind(request).0) != Some(request_kind(request).1) ==> r
            == CircuitOutcome::Unhandled(request_kind(request).0) && final(table)@ == old(table)@,
        dispatcher.handler(request_kind(request).0) == Some(request_kind(request).1) ==> match (
            request,
            r,
        ) {
            (CircuitRequest::Connect(q), CircuitOutcome::Respond(resp)) => resp.status == status_of(
                connect_outcome(old(table)@, q.circuit@, q.service_id@, local_node@),
            ) && (resp.status == RequestStatus::Accepted ==> final(table)@ == connected(
                old(table)@,
                q.circuit@,
                q.service_id@,
                local_node@,
            )) && (resp.status != RequestStatus::Accepted ==> final(table)@ == old(table)@),
            (CircuitRequest::Disconnect(q), CircuitOutcome::Respond(resp)) => routed_node(
                final(table)@,
                q.circuit@,
                q.service_id@,
            ) is None && (resp.status == RequestStatus::Accepted ==> final(table)@ == disconnected(
                old(table)@,
                q.circuit@,
                q.service_id@,
            )) && (resp.status != RequestStatus::Accepted ==> final(table)@ == old(table)@),
            (CircuitRequest::Direct(m), CircuitOutcome::Route(route)) => final(table)@ == old(
                table,
            )@ && routes_direct(old(table)@, m, route),
            (CircuitRequest::AdminDirect(m), CircuitOutcome::Route(route)) => final(table)@ == old(
                table,
            )@ && routes_direct(old(table)@, m, route),
            (CircuitRequest::Error(e), CircuitOutcome::ErrorRoute(n)) => final(table)@ == old(
                table,
            )@ && match n {
                Some(node) => routed_node(old(table)@, e.circuit@, e.service_id@) == Some(node@),
                None => routed_node(old(table)@, e.circuit@, e.service_id@) is None,
            },
            _ => false,
        },
{
    match request {
        CircuitRequest::Connect(q) => {
            match dispatcher.handler_for(crate::wire::CircuitMessageType::ServiceConnectRequest) {
                Some(CircuitHandler::ServiceConnect) => CircuitOutcome::Respond(
                    handle_service_connect(table, local_node, q),
                ),
                _ => CircuitOutcome::Unhandled(crate::wire::CircuitMessageType::ServiceConnectRequest),
            }
        },
        CircuitRequest::Disconnect(q) => {
            match dispatcher.handler_for(crate::wire::CircuitMessageType::ServiceDisconnectRequest) {
                Some(CircuitHandler::ServiceDisconnect) => CircuitOutcome::Respond(
                    handle_service_disconnect(table, q),
                ),
                _ => CircuitOutcome::Unhandled(
                    crate::wire::CircuitMessageType::ServiceDisconnectRequest,
                ),
            }
        },
        CircuitRequest::Direct(m) => {
            match dispatcher.handler_for(crate::wire::CircuitMessageType::CircuitDirectMessage) {
                Some(CircuitHandler::DirectMessage) => CircuitOutcome::Route(
                    handle_direct_message(table, m),
                ),
                _ => CircuitOutcome::Unhandled(crate::wire::CircuitMessageType::CircuitDirectMessage),
            }
        },
        CircuitRequest::AdminDirect(m) => {
            match dispatcher.handler_for(crate::wire::CircuitMessageType::AdminDirectMessage) {
                Some(CircuitHandler::AdminDirectMessage) => CircuitOutcome::Route(
                    handle_direct_message(table, m),
                ),
                _ => CircuitOutcome::Unhandled(crate::wire::CircuitMessageType::AdminDirectMessage),
            }
        },
        CircuitRequest::Error(e) => {
            match dispatcher.handler_for(crate::wire::CircuitMessageType::CircuitErrorMessage) {
                Some(CircuitHandler::CircuitError) => CircuitOutcome::ErrorRoute(
                    handle_circuit_error(table, &e),
                ),
                _ => CircuitOutcome::Unhandled(crate::wire::CircuitMessageType::CircuitErrorMessage),
            }
        },
    }
}

} // verus!
