//! Members looked up in a catalog of services.

use vstd::prelude::*;
use vstd::string::StringExecFns;
use crate::exporter::{
    round,
    target_views,
    Exporter,
    Fetched,
    Request,
    RequestView,
    Target,
    TargetView,
};
use crate::ip::{ip_text, is_ip_text};
use crate::json::{json_document, Json};
use crate::patroni::{DiscoveryError, ExporterResult};
use crate::text::{decimal_text, push_decimal, text_of};

verus! {

/// Whether the uuid crate reads a text as a UUID.
pub uninterp spec fn is_uuid(text: Seq<char>) -> bool;

/// `uuid::Uuid::parse_str`: whether the text is read as a UUID.
#[verifier::external_body]
fn uuid_parses(text: &str) -> (r: bool)
    ensures
        r == is_uuid(text@),
{
    uuid::Uuid::parse_str(text).is_ok()
}

/// A client of the catalog.
#[derive(Clone, Debug)]
pub struct ConsulClient {
    token: Option<String>,
    url: String,
}

/// One instance of a service, as the catalog lists it.
#[derive(Debug)]
pub struct ConsulService {
    pub id: String,
    pub node: String,
    pub datacenter: String,
    pub service_address: String,
    pub service_port: u16,
}

/// An instance of a service, as mathematics.
pub struct ServiceView {
    pub id: Seq<char>,
    pub node: Seq<char>,
    pub datacenter: Seq<char>,
    pub service_address: Seq<char>,
    pub service_port: u16,
}

impl View for ConsulService {
    type V = ServiceView;

    open spec fn view(&self) -> ServiceView {
        ServiceView {
            id: self.id@,
            node: self.node@,
            datacenter: self.datacenter@,
            service_address: self.service_address@,
            service_port: self.service_port,
        }
    }
}

/// The view of each instance.
pub open spec fn service_views(services: Seq<ConsulService>) -> Seq<ServiceView> {
    Seq::new(services.len(), |i: int| services[i]@)
}

/// The port under `ServicePort`: a number that fits 16 bits.
pub open spec fn port_in(item: Json) -> Option<u16> {
    match item.number_at("ServicePort"@) {
        Some(n) => if n <= u16::MAX {
            Some(n as u16)
        } else {
            None
        },
        None => None,
    }
}

/// The instance that an item of the catalog's answer describes: `ID` is a UUID,
/// `Node` and `Datacenter` are texts, `ServiceAddress` is an IP address and
/// `ServicePort` a number that fits 16 bits.
pub open spec fn service_of(item: Json) -> Option<ServiceView> {
    match (
        item.text_at("ID"@),
        item.text_at("Node"@),
        item.text_at("Datacenter"@),
        item.text_at("ServiceAddress"@),
        port_in(item),
    ) {
        (Some(id), Some(node), Some(datacenter), Some(service_address), Some(service_port)) => {
            if is_uuid(id) && is_ip_text(service_address) {
                Some(ServiceView { id, node, datacenter, service_address, service_port })
            } else {
                None
            }
        },
        _ => None,
    }
}

/// The instances that the items describe, where each item describes one.
pub open spec fn services_of(items: Seq<Json>) -> Option<Seq<ServiceView>> {
    if forall|i: int| 0 <= i < items.len() ==> service_of(#[trigger] items[i]) is Some {
        Some(Seq::new(items.len(), |i: int| service_of(items[i]).unwrap()))
    } else {
        None
    }
}

/// The instances of the catalog's answer, which is an array of them.
pub open spec fn services_in(answer: Json) -> Option<Seq<ServiceView>> {
    match answer {
        Json::Array(items) => services_of(items@),
        _ => None,
    }
}

/// Where an instance serves its status.
pub open spec fn status_url(service: ServiceView) -> Seq<char> {
    "http://"@ + service.service_address + ":"@ + decimal_text(service.service_port as nat) + "/"@
}

/// The member that an instance is: its node's name, and the URL of its status.
pub open spec fn target_of(service: ServiceView) -> TargetView {
    TargetView { name: service.node, url: status_url(service) }
}

/// The members that the catalog's answer lists. Without an answer the catalog is
/// unreachable; an answer that is no JSON of the expected form is undecodable.
pub open spec fn listed(answer: Option<Fetched>) -> Result<Seq<TargetView>, DiscoveryError> {
    match answer {
        Some(Fetched::Body(body)) => match json_document(body@) {
            Some(answer) => match services_in(answer) {
                Some(services) => Ok(
                    Seq::new(services.len(), |i: int| target_of(services[i])),
                ),
                None => Err(DiscoveryError::Undecodable),
            },
            None => Err(DiscoveryError::Undecodable),
        },
        _ => Err(DiscoveryError::Unreachable),
    }
}

impl ConsulService {
    /// Decodes an item of the catalog's answer.
    pub fn from_json(item: &Json) -> (r: Option<ConsulService>)
        ensures
            match r {
                Some(service) => service_of(*item) == Some(service@),
                None => service_of(*item) is None,
            },
    {
        let id = match item.text("ID") {
            Some(text) => text,
            None => return None,
        };
        let node = match item.text("Node") {
            Some(text) => text,
            None => return None,
        };
        let datacenter = match item.text("Datacenter") {
            Some(text) => text,
            None => return None,
        };
        let service_address = match item.text("ServiceAddress") {
            Some(text) => text,
            None => return None,
        };
        let service_port = match item.number("ServicePort") {
            Some(n) => if n <= u16::MAX as u64 {
                n as u16
            } else {
                return None;
            },
            None => return None,
        };
        if !uuid_parses(id) || !ip_text(service_address) {
            return None;
        }
        Some(
            ConsulService {
                id: id.to_owned(),
                node: node.to_owned(),
                datacenter: datacenter.to_owned(),
                service_address: service_address.to_owned(),
                service_port,
            },
        )
    }

    /// Where the instance serves its status.
    pub fn status_url(&self) -> (r: String)
        ensures
            r@ == status_url(self@),
    {
        let mut url = "http://".to_owned();
        url.append(self.service_address.as_str());
        url.append(":");
        push_decimal(&mut url, self.service_port);
        url.append("/");
        url
    }

    /// The member that the instance is.
    pub fn target(&self) -> (r: Target)
        ensures
            r@ == target_of(self@),
    {
        Target { name: self.node.clone(), url: self.status_url() }
    }
}

/// Decodes the catalog's answer.
pub fn services(answer: &Json) -> (r: Option<Vec<ConsulService>>)
    ensures
        match r {
            Some(services) => services_in(*answer) == Some(service_views(services@)),
            None => services_in(*answer) is None,
        },
{
    let items = match answer {
        Json::Array(items) => items,
        _ => return None,
    };
    let mut services: Vec<ConsulService> = Vec::new();
    let mut i: usize = 0;
    while i < items.len()
        invariant
            i <= items.len(),
            services@.len() == i,
            services_in(*answer) == services_of(items@),
            forall|k: int| 0 <= k < i ==> service_of(#[trigger] items@[k]) == Some(services@[k]@),
        decreases items.len() - i,
    {
        match ConsulService::from_json(&items[i]) {
            Some(service) => services.push(service),
            None => return None,
        }
        i += 1;
    }
    Some(services)
}

impl ConsulClient {
    /// The URL of the catalog's API, to which the paths of its calls are added.
    pub closed spec fn base(&self) -> Seq<char> {
        self.url@
    }

    /// The token to present to the catalog, if there is one.
    pub closed spec fn credential(&self) -> Option<Seq<char>> {
        text_of(self.token)
    }

    pub fn new(url: &str, token: &Option<String>) -> (r: ConsulClient)
        ensures
            r.base() == url@,
            r.credential() == text_of(*token),
    {
        ConsulClient {
            token: match token {
                Some(token) => Some(token.clone()),
                None => None,
            },
            url: url.to_owned(),
        }
    }

    /// The token to present to the catalog, if there is one.
    pub fn token(&self) -> (r: Option<&str>)
        ensures
            match r {
                Some(token) => self.credential() == Some(token@),
                None => self.credential() is None,
            },
    {
        match &self.token {
            Some(token) => Some(token.as_str()),
            None => None,
        }
    }
}

impl Exporter for ConsulClient {
    /// A GET of `v1/catalog/service/` and the service's name.
    open spec fn lookup(&self, service: Seq<char>) -> Option<RequestView> {
        Some(RequestView::Get(self.base() + "v1/catalog/service/"@ + service))
    }

    open spec fn found(&self, answer: Option<Fetched>) -> Result<Seq<TargetView>, DiscoveryError> {
        listed(answer)
    }

    fn name(&self) -> (r: &'static str)
        ensures
            r@ == "consul"@,
    {
        "consul"
    }

    fn request(&self, service: &str) -> (r: Option<Request>) {
        let mut url = self.url.clone();
        url.append("v1/catalog/service/");
        url.append(service);
        Some(Request::Get(url))
    }

    fn targets(&self, answer: &Option<Fetched>) -> (r: Result<Vec<Target>, DiscoveryError>) {
        let body = match answer {
            Some(Fetched::Body(body)) => body,
            _ => return Err(DiscoveryError::Unreachable),
        };
        let answer = match Json::from_slice(body.as_slice()) {
            Some(answer) => answer,
            None => return Err(DiscoveryError::Undecodable),
        };
        let services = match services(&answer) {
            Some(services) => services,
            None => return Err(DiscoveryError::Undecodable),
        };
        let mut targets: Vec<Target> = Vec::new();
        let mut i: usize = 0;
        while i < services.len()
            invariant
                i <= services.len(),
                targets@.len() == i,
                forall|k: int| 0 <= k < i ==> (#[trigger] targets@[k])@ == target_of(services@[k]@),
            decreases services.len() - i,
        {
            targets.push(services[i].target());
            i += 1;
        }
        assert(target_views(targets@) =~= Seq::new(
            service_views(services@).len(),
            |i: int| target_of(service_views(services@)[i]),
        ));
        Ok(targets)
    }

    fn service(&self, answer: &Option<Fetched>, statuses: &Vec<Fetched>) -> (r: ExporterResult) {
        round(self.targets(answer), statuses)
    }
}

} // verus!
