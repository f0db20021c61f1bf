//! The one member whose address is configured: the local node.

use vstd::prelude::*;
use crate::exporter::{
    round,
    target_views,
    Exporter,
    Fetched,
    Request,
    RequestView,
    Target,
    TargetView,
};
use crate::patroni::{DiscoveryError, ExporterResult};

verus! {

/// A client of the local node.
#[derive(Clone, Debug)]
pub struct PatroniClient {
    url: String,
    host_name: String,
}

impl PatroniClient {
    /// Where the node serves its status.
    pub closed spec fn address(&self) -> Seq<char> {
        self.url@
    }

    /// The name under which the node is reported.
    pub closed spec fn host(&self) -> Seq<char> {
        self.host_name@
    }

    pub fn new(url: &str, host_name: String) -> (r: PatroniClient)
        ensures
            r.address() == url@,
            r.host() == host_name@,
    {
        PatroniClient { url: url.to_owned(), host_name }
    }
}

impl Exporter for PatroniClient {
    /// The node is known without a lookup.
    open spec fn lookup(&self, service: Seq<char>) -> Option<RequestView> {
        None
    }

    /// The node itself, whatever is handed in as an answer.
    open spec fn found(&self, answer: Option<Fetched>) -> Result<Seq<TargetView>, DiscoveryError> {
        Ok(seq![TargetView { name: self.host(), url: self.address() }])
    }

    fn name(&self) -> (r: &'static str)
        ensures
            r@ == "patroni"@,
    {
        "patroni"
    }

    fn request(&self, service: &str) -> (r: Option<Request>) {
        None
    }

    fn targets(&self, answer: &Option<Fetched>) -> (r: Result<Vec<Target>, DiscoveryError>) {
        let mut targets: Vec<Target> = Vec::new();
        targets.push(Target { name: self.host_name.clone(), url: self.url.clone() });
        assert(target_views(targets@) =~= seq![
            TargetView { name: self.host(), url: self.address() },
        ]);
        Ok(targets)
    }

    fn service(&self, answer: &Option<Fetched>, statuses: &Vec<Fetched>) -> (r: ExporterResult) {
        round(self.targets(answer), statuses)
    }
}

} // verus!
