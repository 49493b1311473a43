use vstd::prelude::*;
use crate::address::{Address, Username};
use crate::packet::{Fulfill, Prepare, Reject};

verus! {

/// How this node and an account stand in the topology.
#[derive(Debug, Clone, Copy, PartialEq, Eq, Structural)]
pub enum RoutingRelation {
    Parent,
    Peer,
    Child,
    NotSet,
}

/// What the node knows of an account that sends it requests.
pub trait Account {
    spec fn spec_id(&self) -> u64;

    spec fn spec_username(&self) -> Seq<char>;

    spec fn spec_asset_code(&self) -> Seq<char>;

    spec fn spec_asset_scale(&self) -> u8;

    spec fn spec_client_address(&self) -> Seq<char>;

    spec fn spec_routing_relation(&self) -> RoutingRelation;

    fn id(&self) -> (r: u64)
        ensures
            r == self.spec_id(),
    ;

    fn username(&self) -> (r: &Username)
        ensures
            r@ == self.spec_username(),
    ;

    fn asset_code(&self) -> (r: &str)
        ensures
            r@ == self.spec_asset_code(),
    ;

    fn asset_scale(&self) -> (r: u8)
        ensures
            r == self.spec_asset_scale(),
    ;

    fn client_address(&self) -> (r: &Address)
        ensures
            r@ == self.spec_client_address(),
    ;

    fn routing_relation(&self) -> (r: RoutingRelation)
        ensures
            r == self.spec_routing_relation(),
    ;
}

/// A received Prepare and the account that sent it.
#[derive(Debug)]
pub struct IncomingRequest<A> {
    pub from: A,
    pub prepare: Prepare,
}

/// A stage of the incoming pipeline: it answers each request with a Fulfill
/// or a Reject, itself or through the stage it wraps. Handling a request
/// leaves unchanged how the stage answers later requests.
pub trait IncomingService<A: Account> {
    /// Whether `response` is an answer this stage may give to `request`.
    spec fn responds(&self, request: IncomingRequest<A>, response: Result<Fulfill, Reject>) -> bool;

    fn handle_request(&mut self, request: IncomingRequest<A>) -> (r: Result<Fulfill, Reject>)
        ensures
            old(self).responds(request, r),
            forall|q: IncomingRequest<A>, s: Result<Fulfill, Reject>|
                #[trigger] final(self).responds(q, s) == old(self).responds(q, s),
    ;
}

} // verus!
