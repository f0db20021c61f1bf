//! The status report that every cluster member serves, and its decoding.

use vstd::prelude::*;
use crate::ip::{ip_text, is_ip_text};
use crate::json::{json_document, Json};
use crate::text::str_eq;

verus! {

/// What a poll of an exporter yields: the members that answered, by name, or the
/// reason why the cluster could not be looked up.
pub type ExporterResult = Result<Vec<(String, PatroniStatus)>, DiscoveryError>;

/// Why a lookup of the cluster's members failed as a whole.
#[derive(Clone, Copy, Debug, PartialEq, Eq, Structural)]
pub enum DiscoveryError {
    /// The catalog or the store gave no answer.
    Unreachable,
    /// The answer is not of the expected form.
    Undecodable,
}

/// The lifecycle state of the database that a member manages.
#[derive(Clone, Copy, Debug, PartialEq, Eq, Structural)]
pub enum PatroniState {
    Starting,
    Running,
    Stopped,
}

/// The role of a member in its cluster.
#[derive(Clone, Copy, Debug, PartialEq, Eq, Structural)]
pub enum PatroniRole {
    Master,
    Replica,
}

/// One replication connection that a member reports.
#[derive(Clone, Debug)]
pub struct PatroniReplConn {
    usename: String,
    client_addr: String,
    state: String,
    sync_state: String,
}

/// What the reporting agent says of itself.
#[derive(Clone, Debug)]
pub struct PatroniInfo {
    version: String,
    scope: String,
}

/// A member's report on itself.
#[derive(Clone, Debug)]
pub struct PatroniStatus {
    pending_restart: bool,
    state: PatroniState,
    role: PatroniRole,
    server_version: u32,
    cluster_unlocked: bool,
    timeline: u32,
    replication: Vec<PatroniReplConn>,
    patroni: PatroniInfo,
}

/// A replication connection, as mathematics.
pub struct ReplConnView {
    pub usename: Seq<char>,
    pub client_addr: Seq<char>,
    pub state: Seq<char>,
    pub sync_state: Seq<char>,
}

/// A status report, as mathematics.
pub struct StatusView {
    pub pending_restart: bool,
    pub state: PatroniState,
    pub role: PatroniRole,
    pub server_version: u32,
    pub cluster_unlocked: bool,
    pub timeline: u32,
    pub replication: Seq<ReplConnView>,
    pub version: Seq<char>,
    pub scope: Seq<char>,
}

impl View for PatroniReplConn {
    type V = ReplConnView;

    closed spec fn view(&self) -> ReplConnView {
        ReplConnView {
            usename: self.usename@,
            client_addr: self.client_addr@,
            state: self.state@,
            sync_state: self.sync_state@,
        }
    }
}

impl View for PatroniStatus {
    type V = StatusView;

    closed spec fn view(&self) -> StatusView {
        StatusView {
            pending_restart: self.pending_restart,
            state: self.state,
            role: self.role,
            server_version: self.server_version,
            cluster_unlocked: self.cluster_unlocked,
            timeline: self.timeline,
            replication: Seq::new(self.replication@.len(), |i: int| self.replication@[i]@),
            version: self.patroni.version@,
            scope: self.patroni.scope@,
        }
    }
}

/// The members by name, each with the view of its report.
pub open spec fn member_views(members: Seq<(String, PatroniStatus)>) -> Seq<
    (Seq<char>, StatusView),
> {
    Seq::new(members.len(), |i: int| (members[i].0@, members[i].1@))
}

impl PatroniState {
    /// The word that a report uses for the state.
    pub open spec fn text(self) -> Seq<char> {
        match self {
            PatroniState::Starting => "starting"@,
            PatroniState::Running => "running"@,
            PatroniState::Stopped => "stopped"@,
        }
    }

    /// The state that a word of a report names.
    pub open spec fn named(text: Seq<char>) -> Option<PatroniState> {
        if text == "starting"@ {
            Some(PatroniState::Starting)
        } else if text == "running"@ {
            Some(PatroniState::Running)
        } else if text == "stopped"@ {
            Some(PatroniState::Stopped)
        } else {
            None
        }
    }

    pub fn to_string(&self) -> (r: String)
        ensures
            r@ == self.text(),
    {
        match self {
            PatroniState::Starting => "starting".to_owned(),
            PatroniState::Running => "running".to_owned(),
            PatroniState::Stopped => "stopped".to_owned(),
        }
    }

    /// Reads the word of a report; any other word names no state.
    pub fn parse(text: &str) -> (r: Option<PatroniState>)
        ensures
            r == PatroniState::named(text@),
    {
        if str_eq(text, "starting") {
            Some(PatroniState::Starting)
        } else if str_eq(text, "running") {
            Some(PatroniState::Running)
        } else if str_eq(text, "stopped") {
            Some(PatroniState::Stopped)
        } else {
            None
        }
    }
}

impl PatroniRole {
    /// The word that a report uses for the role.
    pub open spec fn text(self) -> Seq<char> {
        match self {
            PatroniRole::Master => "master"@,
            PatroniRole::Replica => "replica"@,
        }
    }

    /// The role that a word of a report names.
    pub open spec fn named(text: Seq<char>) -> Option<PatroniRole> {
        if text == "master"@ {
            Some(PatroniRole::Master)
        } else if text == "replica"@ {
            Some(PatroniRole::Replica)
        } else {
            None
        }
    }

    pub fn to_string(&self) -> (r: String)
        ensures
            r@ == self.text(),
    {
        match self {
            PatroniRole::Master => "master".to_owned(),
            PatroniRole::Replica => "replica".to_owned(),
        }
    }

    /// Reads the word of a report; any other word names no role.
    pub fn parse(text: &str) -> (r: Option<PatroniRole>)
        ensures
            r == PatroniRole::named(text@),
    {
        if str_eq(text, "master") {
            Some(PatroniRole::Master)
        } else if str_eq(text, "replica") {
            Some(PatroniRole::Replica)
        } else {
            None
        }
    }
}

/// The state that a report names under `state`.
pub open spec fn state_in(report: Json) -> Option<PatroniState> {
    match report.text_at("state"@) {
        Some(text) => PatroniState::named(text),
        None => None,
    }
}

/// The role that a report names under `role`.
pub open spec fn role_in(report: Json) -> Option<PatroniRole> {
    match report.text_at("role"@) {
        Some(text) => PatroniRole::named(text),
        None => None,
    }
}

/// The number under `key`, where it fits 32 bits.
pub open spec fn short_at(report: Json, key: Seq<char>) -> Option<u32> {
    match report.number_at(key) {
        Some(n) => if n <= u32::MAX {
            Some(n as u32)
        } else {
            None
        },
        None => None,
    }
}

/// Whether a restart is pending: what stands under `pending_restart`, and `false`
/// where the report has no such key.
pub open spec fn pending_restart_in(report: Json) -> Option<bool> {
    match report.field("pending_restart"@) {
        None => Some(false),
        Some(Json::Bool(flag)) => Some(flag),
        Some(_) => None,
    }
}

/// Whether the report has an object under `xlog`.
pub open spec fn has_xlog(report: Json) -> bool {
    report.field("xlog"@) matches Some(Json::Object(_))
}

/// The version and the scope of the agent, under `patroni`.
pub open spec fn info_in(report: Json) -> Option<(Seq<char>, Seq<char>)> {
    match report.field("patroni"@) {
        Some(info) => match (info.text_at("version"@), info.text_at("scope"@)) {
            (Some(version), Some(scope)) => Some((version, scope)),
            _ => None,
        },
        None => None,
    }
}

/// The replication connection that an item describes: four texts, of which
/// `client_addr` is an IP address.
pub open spec fn conn_of(item: Json) -> Option<ReplConnView> {
    match (
        item.text_at("usename"@),
        item.text_at("client_addr"@),
        item.text_at("state"@),
        item.text_at("sync_state"@),
    ) {
        (Some(usename), Some(client_addr), Some(state), Some(sync_state)) => if is_ip_text(
            client_addr,
        ) {
            Some(ReplConnView { usename, client_addr, state, sync_state })
        } else {
            None
        },
        _ => None,
    }
}

/// The connections that the items describe, where each item describes one.
pub open spec fn conns_of(items: Seq<Json>) -> Option<Seq<ReplConnView>> {
    if forall|i: int| 0 <= i < items.len() ==> conn_of(#[trigger] items[i]) is Some {
        Some(Seq::new(items.len(), |i: int| conn_of(items[i]).unwrap()))
    } else {
        None
    }
}

/// The connections under `replication`; none where the report has no such key.
pub open spec fn replication_in(report: Json) -> Option<Seq<ReplConnView>> {
    match report.field("replication"@) {
        None => Some(Seq::empty()),
        Some(Json::Array(items)) => conns_of(items@),
        Some(_) => None,
    }
}

/// The status that a report describes. A report is an object with `state`, `role`,
/// `server_version`, `cluster_unlocked`, `timeline`, `xlog` and `patroni`, and
/// optionally `pending_restart` and `replication`; other keys are ignored.
pub open spec fn status_of(report: Json) -> Option<StatusView> {
    match (
        pending_restart_in(report),
        state_in(report),
        role_in(report),
        short_at(report, "server_version"@),
        report.flag_at("cluster_unlocked"@),
        short_at(report, "timeline"@),
        replication_in(report),
        info_in(report),
    ) {
        (
            Some(pending_restart),
            Some(state),
            Some(role),
            Some(server_version),
            Some(cluster_unlocked),
            Some(timeline),
            Some(replication),
            Some((version, scope)),
        ) => if has_xlog(report) {
            Some(
                StatusView {
                    pending_restart,
                    state,
                    role,
                    server_version,
                    cluster_unlocked,
                    timeline,
                    replication,
                    version,
                    scope,
                },
            )
        } else {
            None
        },
        _ => None,
    }
}

/// The status that a text describes, where the text is a JSON document that
/// describes one.
pub open spec fn status_in(text: Seq<u8>) -> Option<StatusView> {
    match json_document(text) {
        Some(report) => status_of(report),
        None => None,
    }
}

/// A report is rejected unless its `state` is one of `starting`, `running` and
/// `stopped` and its `role` one of `master` and `replica`: any other value, or
/// none, yields no status, whatever else the report holds.
pub proof fn lemma_unknown_state_or_role_is_rejected(report: Json)
    requires
        !(report.text_at("state"@) matches Some(state) && (state == "starting"@ || state
            == "running"@ || state == "stopped"@)) || !(report.text_at("role"@) matches Some(role)
            && (role == "master"@ || role == "replica"@)),
    ensures
        status_of(report) is None,
        forall|text: Seq<u8>| json_document(text) == Some(report) ==> status_in(text) is None,
{
}

/// The status of a report has as many replication connections as the array under
/// `replication` has items, and none where the report has no such key.
pub proof fn lemma_replication_counts_the_items(report: Json)
    requires
        status_of(report) is Some,
    ensures
        status_of(report).unwrap().replication.len() == (match report.field("replication"@) {
            Some(Json::Array(items)) => items@.len(),
            _ => 0,
        }),
{
}

/// The number under `key`, where it fits 32 bits.
fn short(report: &Json, key: &str) -> (r: Option<u32>)
    ensures
        r == short_at(*report, key@),
{
    match report.number(key) {
        Some(n) => if n <= u32::MAX as u64 {
            Some(n as u32)
        } else {
            None
        },
        None => None,
    }
}

impl PatroniReplConn {
    /// Decodes one item of `replication`.
    pub fn from_json(item: &Json) -> (r: Option<PatroniReplConn>)
        ensures
            match r {
                Some(conn) => conn_of(*item) == Some(conn@),
                None => conn_of(*item) is None,
            },
    {
        let usename = match item.text("usename") {
            Some(text) => text,
            None => return None,
        };
        let client_addr = match item.text("client_addr") {
            Some(text) => text,
            None => return None,
        };
        let state = match item.text("state") {
            Some(text) => text,
            None => return None,
        };
        let sync_state = match item.text("sync_state") {
            Some(text) => text,
            None => return None,
        };
        if !ip_text(client_addr) {
            return None;
        }
        Some(
            PatroniReplConn {
                usename: usename.to_owned(),
                client_addr: client_addr.to_owned(),
                state: state.to_owned(),
                sync_state: sync_state.to_owned(),
            },
        )
    }
}

/// Decodes what stands under `replication`.
fn replication(report: &Json) -> (r: Option<Vec<PatroniReplConn>>)
    ensures
        match r {
            Some(conns) => replication_in(*report) == Some(
                Seq::new(conns@.len(), |i: int| conns@[i]@),
            ),
            None => replication_in(*report) is None,
        },
{
    let items = match report.get("replication") {
        None => {
            let conns: Vec<PatroniReplConn> = Vec::new();
            return Some(conns);
        },
        Some(Json::Array(items)) => items,
        Some(_) => return None,
    };
    let mut conns: Vec<PatroniReplConn> = Vec::new();
    let mut i: usize = 0;
    while i < items.len()
        invariant
            i <= items.len(),
            conns@.len() == i,
            replication_in(*report) == conns_of(items@),
            forall|k: int| 0 <= k < i ==> conn_of(#[trigger] items@[k]) == Some(conns@[k]@),
        decreases items.len() - i,
    {
        match PatroniReplConn::from_json(&items[i]) {
            Some(conn) => conns.push(conn),
            None => return None,
        }
        i += 1;
    }
    Some(conns)
}

impl PatroniStatus {
    pub fn postgres_version(&self) -> (r: u32)
        ensures
            r == self@.server_version,
    {
        self.server_version
    }

    pub fn patroni_version(&self) -> (r: &str)
        ensures
            r@ == self@.version,
    {
        self.patroni.version.as_str()
    }

    pub fn status(&self) -> (r: String)
        ensures
            r@ == self@.state.text(),
    {
        self.state.to_string()
    }

    pub fn pending_restart(&self) -> (r: bool)
        ensures
            r == self@.pending_restart,
    {
        self.pending_restart
    }

    pub fn is_master(&self) -> (r: bool)
        ensures
            r == (self@.role == PatroniRole::Master),
    {
        self.role == PatroniRole::Master
    }

    pub fn is_running(&self) -> (r: bool)
        ensures
            r == (self@.state == PatroniState::Running),
    {
        self.state == PatroniState::Running
    }

    pub fn role(&self) -> (r: String)
        ensures
            r@ == self@.role.text(),
    {
        self.role.to_string()
    }

    pub fn repl_slots(&self) -> (r: usize)
        ensures
            r == self@.replication.len(),
    {
        self.replication.len()
    }

    pub fn timeline(&self) -> (r: u32)
        ensures
            r == self@.timeline,
    {
        self.timeline
    }

    /// Decodes a report.
    pub fn from_json(report: &Json) -> (r: Option<PatroniStatus>)
        ensures
            match r {
                Some(status) => status_of(*report) == Some(status@),
                None => status_of(*report) is None,
            },
    {
        let pending_restart = match report.get("pending_restart") {
            None => false,
            Some(Json::Bool(flag)) => *flag,
            Some(_) => return None,
        };
        let state = match report.text("state") {
            Some(text) => match PatroniState::parse(text) {
                Some(state) => state,
                None => return None,
            },
            None => return None,
        };
        let role = match report.text("role") {
            Some(text) => match PatroniRole::parse(text) {
                Some(role) => role,
                None => return None,
            },
            None => return None,
        };
        let server_version = match short(report, "server_version") {
            Some(n) => n,
            None => return None,
        };
        let cluster_unlocked = match report.flag("cluster_unlocked") {
            Some(flag) => flag,
            None => return None,
        };
        let timeline = match short(report, "timeline") {
            Some(n) => n,
            None => return None,
        };
        match report.get("xlog") {
            Some(Json::Object(_)) => {},
            _ => return None,
        }
        let replication = match replication(report) {
            Some(conns) => conns,
            None => return None,
        };
        let patroni = match report.get("patroni") {
            Some(info) => match (info.text("version"), info.text("scope")) {
                (Some(version), Some(scope)) => PatroniInfo {
                    version: version.to_owned(),
                    scope: scope.to_owned(),
                },
                _ => return None,
            },
            None => return None,
        };
        let status = PatroniStatus {
            pending_restart,
            state,
            role,
            server_version,
            cluster_unlocked,
            timeline,
            replication,
            patroni,
        };
        Some(status)
    }

    /// Decodes the text of a report.
    pub fn from_slice(text: &[u8]) -> (r: Option<PatroniStatus>)
        ensures
            match r {
                Some(status) => status_in(text@) == Some(status@),
                None => status_in(text@) is None,
            },
    {
        match Json::from_slice(text) {
            Some(report) => PatroniStatus::from_json(&report),
            None => None,
        }
    }
}

} // verus!
