//! What the program's options select: how much to log, and how the members of the
//! cluster are found.

use vstd::prelude::*;
use crate::consul::ConsulClient;
use crate::etcd::EtcdClient;
use crate::exporter::{Exporter, Fetched, Request, RequestView, Target, TargetView};
use crate::patroni::{DiscoveryError, ExporterResult};
use crate::patroni_local::PatroniClient;
use crate::text::{str_eq, text_of};

verus! {

/// A text with every character in lower case, as `str::to_lowercase` gives it.
pub uninterp spec fn lowercase(text: Seq<char>) -> Seq<char>;

/// A text without the white space at its ends, as `str::trim` gives it.
pub uninterp spec fn trimmed(text: Seq<char>) -> Seq<char>;

/// `str::to_lowercase`: the text in lower case.
#[verifier::external_body]
fn to_lowercase(text: &str) -> (r: String)
    ensures
        r@ == lowercase(text@),
{
    text.to_lowercase()
}

/// `str::trim`: the text without the white space at its ends.
#[verifier::external_body]
fn trim(text: &str) -> (r: &str)
    ensures
        r@ == trimmed(text@),
{
    text.trim()
}

/// How much the program logs.
#[derive(Clone, Copy, Debug, PartialEq, Eq, Structural)]
pub enum LogLevel {
    Info,
    Debug,
    Trace,
}

/// The way in which the members of the cluster are found.
#[derive(Clone, Copy, Debug, PartialEq, Eq, Structural)]
pub enum Method {
    /// In a catalog of services.
    Consul,
    /// In a key-value store.
    Etcd,
    /// Not at all: the local node is the one member.
    Patroni,
}

/// An option that the chosen method needs and that was not given.
#[derive(Clone, Copy, Debug, PartialEq, Eq, Structural)]
pub enum ConfigError {
    /// The catalog's URL.
    MissingConsulUrl,
    /// The store's URL.
    MissingEtcdUrl,
}

/// The client of the chosen method.
#[derive(Clone, Debug)]
pub enum Backend {
    Consul(ConsulClient),
    Etcd(EtcdClient),
    Patroni(PatroniClient),
}

/// The level for a number of `-v` flags: none logs information, one debugging
/// output, more of them everything.
pub fn log_level(verbose: u8) -> (r: LogLevel)
    ensures
        r == (if verbose == 0 {
            LogLevel::Info
        } else if verbose == 1 {
            LogLevel::Debug
        } else {
            LogLevel::Trace
        }),
{
    if verbose == 0 {
        LogLevel::Info
    } else if verbose == 1 {
        LogLevel::Debug
    } else {
        LogLevel::Trace
    }
}

impl Method {
    /// The method that a word names: `consul`, `etcd`, and the local node for any
    /// other word.
    pub open spec fn named(word: Seq<char>) -> Method {
        if word == "consul"@ {
            Method::Consul
        } else if word == "etcd"@ {
            Method::Etcd
        } else {
            Method::Patroni
        }
    }

    /// The method that a word names.
    pub fn from_word(word: &str) -> (r: Method)
        ensures
            r == Method::named(word@),
    {
        if str_eq(word, "consul") {
            Method::Consul
        } else if str_eq(word, "etcd") {
            Method::Etcd
        } else {
            Method::Patroni
        }
    }

    /// The method that an option names, in whatever case and with white space
    /// around it.
    pub fn parse(option: &str) -> (r: Method)
        ensures
            r == Method::named(trimmed(lowercase(option@))),
    {
        let lower = to_lowercase(option);
        Method::from_word(trim(lower.as_str()))
    }
}

/// The client of a method, made from the options that the method uses. The
/// catalog and the store need their URL.
pub fn backend(
    method: Method,
    consul_url: &Option<String>,
    consul_token: &Option<String>,
    etcd_url: &Option<String>,
    local_addr: &str,
    name: String,
) -> (r: Result<Backend, ConfigError>)
    ensures
        match method {
            Method::Consul => match *consul_url {
                Some(url) => r matches Ok(Backend::Consul(client)) && client.base() == url@
                    && client.credential() == text_of(*consul_token),
                None => r == Err::<Backend, _>(ConfigError::MissingConsulUrl),
            },
            Method::Etcd => match *etcd_url {
                Some(url) => r matches Ok(Backend::Etcd(client)) && client.base() == url@,
                None => r == Err::<Backend, _>(ConfigError::MissingEtcdUrl),
            },
            Method::Patroni => r matches Ok(Backend::Patroni(client)) && client.address()
                == local_addr@ && client.host() == name@,
        },
{
    match method {
        Method::Consul => match consul_url {
            Some(url) => Ok(Backend::Consul(ConsulClient::new(url.as_str(), consul_token))),
            None => Err(ConfigError::MissingConsulUrl),
        },
        Method::Etcd => match etcd_url {
            Some(url) => Ok(Backend::Etcd(EtcdClient::new(url.as_str()))),
            None => Err(ConfigError::MissingEtcdUrl),
        },
        Method::Patroni => Ok(Backend::Patroni(PatroniClient::new(local_addr, name))),
    }
}

impl Exporter for Backend {
    open spec fn lookup(&self, service: Seq<char>) -> Option<RequestView> {
        match *self {
            Backend::Consul(client) => client.lookup(service),
            Backend::Etcd(client) => client.lookup(service),
            Backend::Patroni(client) => client.lookup(service),
        }
    }

    open spec fn found(&self, answer: Option<Fetched>) -> Result<Seq<TargetView>, DiscoveryError> {
        match *self {
            Backend::Consul(client) => client.found(answer),
            Backend::Etcd(client) => client.found(answer),
            Backend::Patroni(client) => client.found(answer),
        }
    }

    fn name(&self) -> (r: &'static str)
        ensures
            r@ == match *self {
                Backend::Consul(_) => "consul"@,
                Backend::Etcd(_) => "etcd"@,
                Backend::Patroni(_) => "patroni"@,
            },
    {
        match self {
            Backend::Consul(client) => client.name(),
            Backend::Etcd(client) => client.name(),
            Backend::Patroni(client) => client.name(),
        }
    }

    fn request(&self, service: &str) -> (r: Option<Request>) {
        match self {
            Backend::Consul(client) => client.request(service),
            Backend::Etcd(client) => client.request(service),
            Backend::Patroni(client) => client.request(service),
        }
    }

    fn targets(&self, answer: &Option<Fetched>) -> (r: Result<Vec<Target>, DiscoveryError>) {
        match self {
            Backend::Consul(client) => client.targets(answer),
            Backend::Etcd(client) => client.targets(answer),
            Backend::Patroni(client) => client.targets(answer),
        }
    }

    fn service(&self, answer: &Option<Fetched>, statuses: &Vec<Fetched>) -> (r: ExporterResult) {
        match self {
            Backend::Consul(client) => client.service(answer, statuses),
            Backend::Etcd(client) => client.service(answer, statuses),
            Backend::Patroni(client) => client.service(answer, statuses),
        }
    }
}

} // verus!
