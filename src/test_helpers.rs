use vstd::prelude::*;
use crate::address::{Address, Username, is_valid_address, is_valid_segment, suffixed};
use crate::ildcp::IldcpService;
use crate::packet::{ErrorCode, Fulfill, Reject};
use crate::service::{Account, IncomingRequest, IncomingService, RoutingRelation};

verus! {

/// Address of the node that the helpers stand for.
pub const SERVICE_ADDRESS: &'static str = "example.connector";

/// Message of the Reject given by `UnreachableService`.
pub const NO_OTHER_HANDLER: &'static str = "No other incoming handler!";

/// The node address `example.connector`.
pub fn service_address() -> (r: Address)
    ensures
        r@ == SERVICE_ADDRESS@,
{
    proof {
        reveal_strlit("example.connector");
        assert(is_valid_address(SERVICE_ADDRESS@));
    }
    Address::from_valid_text(SERVICE_ADDRESS)
}

/// An account with a fixed asset (`XYZ`, scale 9).
#[derive(Debug)]
pub struct TestAccount {
    pub id: u64,
    pub username: Username,
    pub ilp_address: Address,
    pub routing_relation: RoutingRelation,
}

impl TestAccount {
    /// An account named `username`: a child is placed under `SERVICE_ADDRESS`,
    /// any other account takes `ilp_address`.
    pub fn new(
        id: u64,
        username: &str,
        ilp_address: Option<&str>,
        routing_relation: RoutingRelation,
    ) -> (r: TestAccount)
        requires
            is_valid_segment(username@),
            routing_relation == RoutingRelation::Child ==> is_valid_address(
                suffixed(SERVICE_ADDRESS@, username@),
            ),
            routing_relation != RoutingRelation::Child ==> (ilp_address matches Some(a)
                && is_valid_address(a@)),
        ensures
            r.id == id,
            r.username@ == username@,
            r.routing_relation == routing_relation,
            routing_relation == RoutingRelation::Child ==> r.ilp_address@ == suffixed(
                SERVICE_ADDRESS@,
                username@,
            ),
            routing_relation != RoutingRelation::Child ==> r.ilp_address@ == ilp_address->Some_0@,
    {
        let parsed = if routing_relation == RoutingRelation::Child {
            service_address().with_suffix(username)
        } else {
            match ilp_address {
                Some(a) => Address::parse(a),
                None => Err(crate::address::AddressError::InvalidAddress),
            }
        };
        let username = Username::from_valid_text(username);
        match parsed {
            Ok(ilp_address) => TestAccount { id, username, ilp_address, routing_relation },
            Err(_) => {
                proof {
                    assert(false);
                }
                TestAccount { id, username, ilp_address: service_address(), routing_relation }
            },
        }
    }
}

impl Clone for TestAccount {
    fn clone(&self) -> (r: Self)
        ensures
            r.id == self.id,
            r.username@ == self.username@,
            r.ilp_address@ == self.ilp_address@,
            r.routing_relation == self.routing_relation,
    {
        TestAccount {
            id: self.id,
            username: self.username.clone(),
            ilp_address: self.ilp_address.clone(),
            routing_relation: self.routing_relation,
        }
    }
}

impl Account for TestAccount {
    open spec fn spec_id(&self) -> u64 {
        self.id
    }

    open spec fn spec_username(&self) -> Seq<char> {
        self.username@
    }

    open spec fn spec_asset_code(&self) -> Seq<char> {
        "XYZ"@
    }

    open spec fn spec_asset_scale(&self) -> u8 {
        9
    }

    open spec fn spec_client_address(&self) -> Seq<char> {
        self.ilp_address@
    }

    open spec fn spec_routing_relation(&self) -> RoutingRelation {
        self.routing_relation
    }

    fn id(&self) -> (r: u64) {
        self.id
    }

    fn username(&self) -> (r: &Username) {
        &self.username
    }

    fn asset_code(&self) -> (r: &str) {
        "XYZ"
    }

    fn asset_scale(&self) -> (r: u8) {
        9
    }

    fn client_address(&self) -> (r: &Address) {
        &self.ilp_address
    }

    fn routing_relation(&self) -> (r: RoutingRelation) {
        self.routing_relation
    }
}

/// The last stage of a pipeline: rejects every request as unreachable.
#[derive(Debug)]
pub struct UnreachableService {
    pub ilp_address: Address,
}

impl<A: Account> IncomingService<A> for UnreachableService {
    open spec fn responds(&self, request: IncomingRequest<A>, response: Result<Fulfill, Reject>) -> bool {
        &&& response is Err
        &&& response->Err_0.code == ErrorCode::F02Unreachable
        &&& response->Err_0.message@ == NO_OTHER_HANDLER@
        &&& response->Err_0.triggered_by matches Some(a) && a@ == self.ilp_address@
        &&& response->Err_0.data@.len() == 0
    }

    fn handle_request(&mut self, request: IncomingRequest<A>) -> (r: Result<Fulfill, Reject>) {
        Err(
            Reject {
                code: ErrorCode::F02Unreachable,
                message: String::from_str(NO_OTHER_HANDLER),
                triggered_by: Some(self.ilp_address.clone()),
                data: Vec::new(),
            },
        )
    }
}

/// A provisioning stage for `SERVICE_ADDRESS` in front of a stage that
/// rejects everything.
pub fn test_service() -> (r: IldcpService<UnreachableService>)
    ensures
        r.ilp_address@ == SERVICE_ADDRESS@,
        r.next.ilp_address@ == SERVICE_ADDRESS@,
{
    IldcpService::new(service_address(), UnreachableService { ilp_address: service_address() })
}

} // verus!
