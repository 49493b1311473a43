use vstd::prelude::*;
use crate::address::{Address, is_valid_address, suffixed};
use crate::packet::{
    ErrorCode, Fulfill, IldcpResponse, Reject, check_ildcp_request, ildcp_response_bytes,
    is_ildcp_request, spec_peer_protocol_fulfillment,
};
use crate::service::{Account, IncomingRequest, IncomingService, RoutingRelation};

verus! {

/// Message of the Reject sent where no valid client address can be derived.
pub const INVALID_CLIENT_ADDRESS: &'static str = "Could not derive a valid client address";

/// The address a provisioning query from `from` is answered with, under the
/// node address `node`: a child gets its username under the node's address,
/// any other account its own stored address.
pub open spec fn ildcp_client_address<A: Account>(node: Seq<char>, from: A) -> Seq<char> {
    if from.spec_routing_relation() == RoutingRelation::Child {
        suffixed(node, from.spec_username())
    } else {
        from.spec_client_address()
    }
}

/// Whether `response` is the answer to a provisioning query from `from` at a
/// node whose address is `node`: a Fulfill carrying the client address, asset
/// scale and asset code, or, where that address is not valid, a Reject with
/// `T00` attributed to the node.
pub open spec fn ildcp_answers<A: Account>(
    node: Seq<char>,
    from: A,
    response: Result<Fulfill, Reject>,
) -> bool {
    let client = ildcp_client_address(node, from);
    if is_valid_address(client) {
        &&& response is Ok
        &&& response->Ok_0.fulfillment@ == spec_peer_protocol_fulfillment()
        &&& response->Ok_0.data@ == ildcp_response_bytes(
            client,
            from.spec_asset_scale(),
            from.spec_asset_code(),
        )
    } else {
        &&& response is Err
        &&& response->Err_0.code == ErrorCode::T00InternalError
        &&& response->Err_0.message@ == INVALID_CLIENT_ADDRESS@
        &&& response->Err_0.triggered_by matches Some(a) && a@ == node
        &&& response->Err_0.data@.len() == 0
    }
}

/// A pipeline stage that answers address-provisioning queries from the
/// querying account's own data and hands every other request to `next`.
#[derive(Debug)]
pub struct IldcpService<I> {
    pub ilp_address: Address,
    pub next: I,
}

impl<I> IldcpService<I> {
    /// The stage for a node at `ilp_address`, in front of `next`.
    pub fn new(ilp_address: Address, next: I) -> (r: IldcpService<I>)
        ensures
            r.ilp_address@ == ilp_address@,
            r.next == next,
    {
        IldcpService { ilp_address, next }
    }
}

impl<A: Account, I: IncomingService<A>> IncomingService<A> for IldcpService<I> {
    open spec fn responds(&self, request: IncomingRequest<A>, response: Result<Fulfill, Reject>) -> bool {
        if is_ildcp_request(&request.prepare) {
            ildcp_answers(self.ilp_address@, request.from, response)
        } else {
            self.next.responds(request, response)
        }
    }

    fn handle_request(&mut self, request: IncomingRequest<A>) -> (r: Result<Fulfill, Reject>) {
        if check_ildcp_request(&request.prepare) {
            let from = &request.from;
            let client_address = if from.routing_relation() == RoutingRelation::Child {
                self.ilp_address.with_suffix(from.username().as_str())
            } else {
                Ok(from.client_address().clone())
            };
            match client_address {
                Ok(client_address) => {
                    let response = IldcpResponse {
                        client_address,
                        asset_scale: from.asset_scale(),
                        asset_code: String::from_str(from.asset_code()),
                    };
                    Ok(response.to_fulfill())
                },
                Err(_) => Err(
                    Reject {
                        code: ErrorCode::T00InternalError,
                        message: String::from_str(INVALID_CLIENT_ADDRESS),
                        triggered_by: Some(self.ilp_address.clone()),
                        data: Vec::new(),
                    },
                ),
            }
        } else {
            self.next.handle_request(request)
        }
    }
}

} // verus!

verus! {

/// A request that is no provisioning query is answered exactly as the wrapped
/// stage alone would answer it.
pub proof fn lemma_forwarding_is_transparent<A: Account, I: IncomingService<A>>(
    service: IldcpService<I>,
    request: IncomingRequest<A>,
    response: Result<Fulfill, Reject>,
)
    requires
        !is_ildcp_request(&request.prepare),
    ensures
        <IldcpService<I> as IncomingService<A>>::responds(&service, request, response)
            <==> service.next.responds(request, response),
{
}

/// A provisioning query asked twice of one stage gets the same answer, byte
/// for byte: `before` is the stage at the first call, `after` the stage that
/// call left, which answers as `before` does.
pub proof fn lemma_provisioning_is_idempotent<A: Account, I: IncomingService<A>>(
    before: IldcpService<I>,
    after: IldcpService<I>,
    request: IncomingRequest<A>,
    r1: Result<Fulfill, Reject>,
    r2: Result<Fulfill, Reject>,
)
    requires
        is_ildcp_request(&request.prepare),
        forall|q: IncomingRequest<A>, s: Result<Fulfill, Reject>|
            #[trigger] <IldcpService<I> as IncomingService<A>>::responds(&after, q, s)
                == <IldcpService<I> as IncomingService<A>>::responds(&before, q, s),
        <IldcpService<I> as IncomingService<A>>::responds(&before, request, r1),
        <IldcpService<I> as IncomingService<A>>::responds(&after, request, r2),
    ensures
        r1 is Ok <==> r2 is Ok,
        r1 is Ok ==> r1->Ok_0.fulfillment@ == r2->Ok_0.fulfillment@ && r1->Ok_0.data@
            == r2->Ok_0.data@,
        r1 is Err ==> r1->Err_0.code == r2->Err_0.code && r1->Err_0.message@
            == r2->Err_0.message@,
{
    assert(<IldcpService<I> as IncomingService<A>>::responds(&before, request, r2));
}

} // verus!
