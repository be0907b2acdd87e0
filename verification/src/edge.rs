//! Edge (home-control) server emulator: a redundant primary/secondary pair
//! that routes MQTT commands through whichever edge is active, and promotes
//! the secondary when the primary loses power and failover is enabled.

use vstd::prelude::*;

use crate::strmap::StrMap;
use crate::text::{concat3, str_eq, to_owned};
use crate::value::{value_get, view_bool, view_get, view_str, Value, ValueView};

verus! {

/// Errors produced by the edge model.
#[derive(Debug, PartialEq, Eq)]
pub enum EdgeError {
    /// Edge config contains a malformed or unsupported value.
    InvalidConfig(String),
    /// Neither the primary nor the secondary edge is currently active.
    NoActiveEdge,
}

impl EdgeError {
    /// The human-readable message of the error.
    pub fn message(&self) -> (m: String)
        ensures
            match self {
                EdgeError::InvalidConfig(detail) => m@ == "invalid edge config: "@ + detail@,
                EdgeError::NoActiveEdge => m@ == "no active edge server is available"@,
            },
    {
        match self {
            EdgeError::InvalidConfig(detail) => crate::text::concat2(
                "invalid edge config: ",
                detail.as_str(),
            ),
            EdgeError::NoActiveEdge => to_owned("no active edge server is available"),
        }
    }
}

/// Operational state of an edge server.
#[derive(Debug, Clone, Copy, PartialEq, Eq, Structural)]
pub enum EdgeStatus {
    Active,
    Standby,
    Failed,
}

/// One edge server in the redundant pair.
#[derive(Debug, PartialEq, Eq)]
pub struct EdgeServer {
    pub id: String,
    pub status: EdgeStatus,
}

/// Outcome of a successful route.
#[derive(Debug, PartialEq, Eq)]
pub struct RoutedCommand {
    pub edge_id: String,
    pub source_client: String,
    pub target_device: String,
    pub protocol: Option<String>,
    pub action: String,
}

/// Result of a primary to secondary failover.
#[derive(Debug, PartialEq, Eq)]
pub struct FailoverOutcome {
    pub from: String,
    pub to: String,
}

/// Two-edge model with an optional secondary and an automatic-failover flag.
#[derive(Debug, PartialEq, Eq)]
pub struct EdgeModel {
    primary: EdgeServer,
    secondary: Option<EdgeServer>,
    failover_enabled: bool,
}

pub struct EdgeServerView {
    pub id: Seq<char>,
    pub status: EdgeStatus,
}

pub struct EdgeModelView {
    pub primary: EdgeServerView,
    pub secondary: Option<EdgeServerView>,
    pub failover_enabled: bool,
}

impl View for EdgeServer {
    type V = EdgeServerView;

    open spec fn view(&self) -> EdgeServerView {
        EdgeServerView { id: self.id@, status: self.status }
    }
}

impl View for EdgeModel {
    type V = EdgeModelView;

    closed spec fn view(&self) -> EdgeModelView {
        EdgeModelView {
            primary: self.primary@,
            secondary: match self.secondary {
                Some(s) => Some(s@),
                None => None,
            },
            failover_enabled: self.failover_enabled,
        }
    }
}

/// The id of the edge that routes commands: the primary when it is active,
/// else the secondary when it is active.
pub open spec fn active_edge(m: EdgeModelView) -> Option<Seq<char>> {
    if m.primary.status == EdgeStatus::Active {
        Some(m.primary.id)
    } else {
        match m.secondary {
            Some(s) => if s.status == EdgeStatus::Active {
                Some(s.id)
            } else {
                None
            },
            None => None,
        }
    }
}

/// The model after the primary loses power.
pub open spec fn after_power_loss(m: EdgeModelView) -> EdgeModelView {
    if m.primary.status == EdgeStatus::Failed {
        m
    } else {
        EdgeModelView {
            primary: EdgeServerView { id: m.primary.id, status: EdgeStatus::Failed },
            secondary: if m.failover_enabled {
                match m.secondary {
                    Some(s) => Some(EdgeServerView { id: s.id, status: EdgeStatus::Active }),
                    None => None,
                }
            } else {
                m.secondary
            },
            failover_enabled: m.failover_enabled,
        }
    }
}

/// Whether a power loss in `m` promotes the secondary.
pub open spec fn power_loss_fails_over(m: EdgeModelView) -> bool {
    m.primary.status != EdgeStatus::Failed && m.failover_enabled && m.secondary is Some
}

pub open spec fn status_of_text(s: Seq<char>) -> Option<EdgeStatus> {
    if s == "active"@ {
        Some(EdgeStatus::Active)
    } else if s == "standby"@ {
        Some(EdgeStatus::Standby)
    } else if s == "failed"@ {
        Some(EdgeStatus::Failed)
    } else {
        None
    }
}

/// Parses an edge status name.
pub fn parse_status(value: &str) -> (r: Result<EdgeStatus, EdgeError>)
    ensures
        match r {
            Ok(status) => status_of_text(value@) == Some(status),
            Err(EdgeError::InvalidConfig(m)) => status_of_text(value@) is None && m@
                == "unsupported edge status "@ + value@ + "; expected active, standby, or failed"@,
            Err(EdgeError::NoActiveEdge) => false,
        },
{
    if str_eq(value, "active") {
        Ok(EdgeStatus::Active)
    } else if str_eq(value, "standby") {
        Ok(EdgeStatus::Standby)
    } else if str_eq(value, "failed") {
        Ok(EdgeStatus::Failed)
    } else {
        Err(
            EdgeError::InvalidConfig(
                concat3(
                    "unsupported edge status ",
                    value,
                    "; expected active, standby, or failed",
                ),
            ),
        )
    }
}

/// The server a config entry describes: `id` and `status` with fallbacks
/// when missing; `None` when the status text is not a known status.
pub open spec fn server_from_config(
    value: Option<ValueView>,
    fallback_id: Seq<char>,
    fallback_status: EdgeStatus,
) -> Option<EdgeServerView> {
    match value {
        Some(v) if v is Mapping => {
            let id = match view_get(v, "id"@) {
                Some(x) => match view_str(x) {
                    Some(s) => s,
                    None => fallback_id,
                },
                None => fallback_id,
            };
            match view_get(v, "status"@) {
                Some(x) => match view_str(x) {
                    Some(s) => match status_of_text(s) {
                        Some(st) => Some(EdgeServerView { id, status: st }),
                        None => None,
                    },
                    None => Some(EdgeServerView { id, status: fallback_status }),
                },
                None => Some(EdgeServerView { id, status: fallback_status }),
            }
        },
        _ => Some(EdgeServerView { id: fallback_id, status: fallback_status }),
    }
}

/// The message for an edge server config whose status is not a known one.
pub open spec fn bad_status_message(value: Option<ValueView>) -> Option<Seq<char>> {
    match value {
        Some(v) if v is Mapping => match view_get(v, "status"@) {
            Some(x) => match view_str(x) {
                Some(s) => if status_of_text(s) is None {
                    Some("unsupported edge status "@ + s + "; expected active, standby, or failed"@)
                } else {
                    None
                },
                None => None,
            },
            None => None,
        },
        _ => None,
    }
}

/// The message for an `edge:` config that cannot be read: the primary's
/// unknown status first, then the secondary's.
pub open spec fn edge_config_error(config: Map<Seq<char>, ValueView>) -> Option<Seq<char>> {
    let primary = bad_status_message(
        if config.contains_key("primary"@) {
            Some(config["primary"@])
        } else {
            None
        },
    );
    if primary is Some {
        primary
    } else if config.contains_key("secondary"@) {
        bad_status_message(Some(config["secondary"@]))
    } else {
        None
    }
}

fn edge_server_from_config(
    value: Option<&Value>,
    fallback_id: &str,
    fallback_status: EdgeStatus,
) -> (r: Result<EdgeServer, EdgeError>)
    ensures
        match r {
            Ok(server) => server_from_config(
                match value {
                    Some(v) => Some(v@),
                    None => None,
                },
                fallback_id@,
                fallback_status,
            ) == Some(server@),
            Err(EdgeError::InvalidConfig(m)) => server_from_config(
                match value {
                    Some(v) => Some(v@),
                    None => None,
                },
                fallback_id@,
                fallback_status,
            ) is None && bad_status_message(
                match value {
                    Some(v) => Some(v@),
                    None => None,
                },
            ) == Some(m@),
            Err(EdgeError::NoActiveEdge) => false,
        },
{
    let mapping = match value {
        Some(v) => match v.as_mapping() {
            Some(_) => v,
            None => {
                return Ok(EdgeServer { id: to_owned(fallback_id), status: fallback_status });
            },
        },
        None => {
            return Ok(EdgeServer { id: to_owned(fallback_id), status: fallback_status });
        },
    };
    let id = match value_get(mapping, "id") {
        Some(x) => match x.as_str() {
            Some(s) => s.clone(),
            None => to_owned(fallback_id),
        },
        None => to_owned(fallback_id),
    };
    let status = match value_get(mapping, "status") {
        Some(x) => match x.as_str() {
            Some(s) => parse_status(s.as_str())?,
            None => fallback_status,
        },
        None => fallback_status,
    };
    Ok(EdgeServer { id, status })
}

/// Whether the `failover.enabled` flag of an edge config is set (default true).
pub open spec fn failover_flag(failover: Option<ValueView>) -> bool {
    match failover {
        Some(f) => match view_get(f, "enabled"@) {
            Some(e) => match view_bool(e) {
                Some(b) => b,
                None => true,
            },
            None => true,
        },
        None => true,
    }
}

/// The model an `edge:` config map describes, or `None` when a status is
/// not one of `active`, `standby`, `failed`.
pub open spec fn configured_edge(config: Map<Seq<char>, ValueView>) -> Option<EdgeModelView> {
    let primary = server_from_config(
        if config.contains_key("primary"@) {
            Some(config["primary"@])
        } else {
            None
        },
        "edge_primary"@,
        EdgeStatus::Active,
    );
    let secondary = if config.contains_key("secondary"@) {
        server_from_config(Some(config["secondary"@]), "edge_secondary"@, EdgeStatus::Standby)
    } else {
        None
    };
    if primary is None || (config.contains_key("secondary"@) && secondary is None) {
        None
    } else {
        Some(
            EdgeModelView {
                primary: primary.unwrap(),
                secondary,
                failover_enabled: failover_flag(
                    if config.contains_key("failover"@) {
                        Some(config["failover"@])
                    } else {
                        None
                    },
                ),
            },
        )
    }
}

impl EdgeModel {
    pub open spec fn spec_default() -> EdgeModelView {
        EdgeModelView {
            primary: EdgeServerView { id: "edge_primary"@, status: EdgeStatus::Active },
            secondary: Some(EdgeServerView { id: "edge_secondary"@, status: EdgeStatus::Standby }),
            failover_enabled: true,
        }
    }

    /// A model from explicit servers and failover flag.
    pub fn with_servers(primary: EdgeServer, secondary: Option<EdgeServer>, failover_enabled: bool) -> (m: Self)
        ensures
            m@.primary == primary@,
            m@.secondary == match secondary {
                Some(s) => Some(s@),
                None => None::<EdgeServerView>,
            },
            m@.failover_enabled == failover_enabled,
    {
        EdgeModel { primary, secondary, failover_enabled }
    }

    /// Builds the model from an `edge:` config map. Missing values fall back
    /// to a primary `edge_primary` (active) and secondary `edge_secondary`
    /// (standby, only when configured) with failover enabled.
    pub fn try_from_config(config: &StrMap<Value>) -> (r: Result<Self, EdgeError>)
        ensures
            match r {
                Ok(m) => configured_edge(config@.map_values(|v: Value| v@)) == Some(m@),
                Err(EdgeError::InvalidConfig(m)) => configured_edge(
                    config@.map_values(|v: Value| v@),
                ) is None && edge_config_error(config@.map_values(|v: Value| v@)) == Some(m@),
                Err(EdgeError::NoActiveEdge) => false,
            },
    {
        let primary = edge_server_from_config(
            config.get("primary"),
            "edge_primary",
            EdgeStatus::Active,
        )?;
        let secondary = match config.get("secondary") {
            Some(v) => Some(edge_server_from_config(Some(v), "edge_secondary", EdgeStatus::Standby)?),
            None => None,
        };
        let failover_enabled = match config.get("failover") {
            Some(f) => match value_get(f, "enabled") {
                Some(e) => match e.as_bool() {
                    Some(b) => b,
                    None => true,
                },
                None => true,
            },
            None => true,
        };
        Ok(EdgeModel { primary, secondary, failover_enabled })
    }

    /// Builds the model from config, falling back to the default pair when
    /// the config is malformed.
    pub fn from_config(config: &StrMap<Value>) -> (m: Self)
        ensures
            m@ == match configured_edge(config@.map_values(|v: Value| v@)) {
                Some(c) => c,
                None => EdgeModel::spec_default(),
            },
    {
        match Self::try_from_config(config) {
            Ok(m) => m,
            Err(_) => Self::default(),
        }
    }

    /// The id of the currently active edge, if any.
    pub fn active_id(&self) -> (r: Option<&str>)
        ensures
            match r {
                Some(id) => active_edge(self@) == Some(id@),
                None => active_edge(self@) is None,
            },
    {
        if self.primary.status == EdgeStatus::Active {
            return Some(self.primary.id.as_str());
        }
        match &self.secondary {
            Some(edge) => if edge.status == EdgeStatus::Active {
                Some(edge.id.as_str())
            } else {
                None
            },
            None => None,
        }
    }

    /// The secondary's status, if a secondary is configured.
    pub fn secondary_status(&self) -> (r: Option<EdgeStatus>)
        ensures
            r == match self@.secondary {
                Some(s) => Some(s.status),
                None => None,
            },
    {
        match &self.secondary {
            Some(edge) => Some(edge.status),
            None => None,
        }
    }

    /// Routes an MQTT command through the active edge.
    pub fn route_mqtt_command(
        &self,
        source_client: &str,
        target_device: &str,
        protocol: Option<String>,
    ) -> (r: Result<RoutedCommand, EdgeError>)
        ensures
            match r {
                Ok(routed) => active_edge(self@) == Some(routed.edge_id@) && routed.source_client@
                    == source_client@ && routed.target_device@ == target_device@
                    && routed.protocol == protocol && routed.action@ == "mqtt_command_route"@,
                Err(e) => active_edge(self@) is None && e == EdgeError::NoActiveEdge,
            },
    {
        match self.active_id() {
            Some(edge_id) => Ok(
                RoutedCommand {
                    edge_id: to_owned(edge_id),
                    source_client: to_owned(source_client),
                    target_device: to_owned(target_device),
                    protocol,
                    action: to_owned("mqtt_command_route"),
                },
            ),
            None => Err(EdgeError::NoActiveEdge),
        }
    }

    /// Simulates power loss to the primary. The primary becomes failed; when
    /// failover is enabled and a secondary exists, the secondary becomes
    /// active and the failover is reported.
    pub fn apply_power_lost_to_primary(&mut self) -> (r: Option<FailoverOutcome>)
        ensures
            final(self)@ == after_power_loss(old(self)@),
            match r {
                Some(outcome) => power_loss_fails_over(old(self)@) && outcome.from@ == old(self)@.primary.id && outcome.to@ == old(self)@.secondary.unwrap().id,
                None => !power_loss_fails_over(old(self)@),
            },
    {
        if self.primary.status == EdgeStatus::Failed {
            return None;
        }
        self.primary.status = EdgeStatus::Failed;
        if !self.failover_enabled {
            return None;
        }
        match &mut self.secondary {
            Some(secondary) => {
                secondary.status = EdgeStatus::Active;
                let to = secondary.id.clone();
                Some(FailoverOutcome { from: self.primary.id.clone(), to })
            },
            None => None,
        }
    }
}

impl Default for EdgeModel {
    fn default() -> (m: Self)
        ensures
            m@ == EdgeModel::spec_default(),
    {
        EdgeModel {
            primary: EdgeServer { id: to_owned("edge_primary"), status: EdgeStatus::Active },
            secondary: Some(EdgeServer { id: to_owned("edge_secondary"), status: EdgeStatus::Standby }),
            failover_enabled: true,
        }
    }
}

/// Power loss is idempotent: once the primary has failed, a second power
/// loss changes nothing and reports no failover.
pub proof fn law_power_loss_idempotent(m: EdgeModelView)
    ensures
        after_power_loss(after_power_loss(m)) == after_power_loss(m),
        !power_loss_fails_over(after_power_loss(m)),
{
}

/// After a failover, commands are routed through the promoted secondary.
pub proof fn law_failover_routes_through_secondary(m: EdgeModelView)
    requires
        power_loss_fails_over(m),
    ensures
        active_edge(after_power_loss(m)) == Some(m.secondary.unwrap().id),
{
}

/// After the primary loses power with failover disabled, no edge that was
/// not already active becomes active, and routing fails unless the
/// secondary was active before.
pub proof fn law_no_failover_without_flag(m: EdgeModelView)
    requires
        !m.failover_enabled,
        m.secondary is Some ==> m.secondary.unwrap().status != EdgeStatus::Active,
    ensures
        active_edge(after_power_loss(m)) is None,
{
}

/// Failover is on unless the config's `failover` entry sets `enabled` to
/// `false`; so with no `failover` entry, a primary power loss promotes a
/// configured secondary to active.
pub proof fn law_edge_failover_on_by_default(config: Map<Seq<char>, ValueView>)
    requires
        configured_edge(config) is Some,
    ensures
        configured_edge(config)->Some_0.failover_enabled == !(config.contains_key("failover"@) && view_get(
            config["failover"@],
            "enabled"@,
        ) == Some(ValueView::Bool(false))),
        ({
            let m = configured_edge(config)->Some_0;
            !config.contains_key("failover"@) && config.contains_key("secondary"@) && m.primary.status
                != EdgeStatus::Failed ==> (power_loss_fails_over(m) && after_power_loss(m).secondary
                == Some(EdgeServerView { id: m.secondary->Some_0.id, status: EdgeStatus::Active }))
        }),
{
}

} // verus!
