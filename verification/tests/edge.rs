use roomci::edge::{parse_status, EdgeError, EdgeModel, EdgeServer, EdgeStatus};

#[test]
fn routes_command_through_active_edge() {
    let edge = EdgeModel::default();

    let routed = edge
        .route_mqtt_command("ipad_controller", "living_light", Some("dali".to_string()))
        .unwrap();

    assert_eq!(routed.edge_id, "edge_primary");
    assert_eq!(routed.target_device, "living_light");
}

#[test]
fn routing_fails_when_no_edge_is_active() {
    let edge = EdgeModel::with_servers(
        EdgeServer { id: "edge_primary".to_string(), status: EdgeStatus::Failed },
        None,
        true,
    );

    let error = edge.route_mqtt_command("ipad_controller", "living_light", None).unwrap_err();

    assert_eq!(error, EdgeError::NoActiveEdge);
}

#[test]
fn power_loss_with_failover_disabled_does_not_promote_secondary() {
    let mut edge = EdgeModel::with_servers(
        EdgeServer { id: "edge_primary".to_string(), status: EdgeStatus::Active },
        Some(EdgeServer { id: "edge_secondary".to_string(), status: EdgeStatus::Standby }),
        false,
    );

    let outcome = edge.apply_power_lost_to_primary();

    assert!(outcome.is_none());
    assert_eq!(edge.secondary_status(), Some(EdgeStatus::Standby));
    assert!(edge.active_id().is_none());
}

#[test]
fn primary_power_loss_activates_secondary() {
    let mut edge = EdgeModel::default();

    let outcome = edge.apply_power_lost_to_primary().unwrap();

    assert_eq!(outcome.from, "edge_primary");
    assert_eq!(outcome.to, "edge_secondary");
    assert_eq!(edge.secondary_status(), Some(EdgeStatus::Active));
}

#[test]
fn second_power_loss_changes_nothing_more() {
    let mut edge = EdgeModel::default();
    edge.apply_power_lost_to_primary().unwrap();

    assert!(edge.apply_power_lost_to_primary().is_none());
    assert_eq!(edge.active_id(), Some("edge_secondary"));
}

#[test]
fn failover_routes_through_the_secondary() {
    let mut edge = EdgeModel::default();
    edge.apply_power_lost_to_primary().unwrap();

    let routed = edge.route_mqtt_command("ipad", "lamp", None).unwrap();

    assert_eq!(routed.edge_id, "edge_secondary");
    assert_eq!(routed.action, "mqtt_command_route");
}

#[test]
fn edge_status_text_is_parsed_or_rejected() {
    assert_eq!(parse_status("standby"), Ok(EdgeStatus::Standby));
    let error = parse_status("rebooting").unwrap_err();
    assert_eq!(
        error.message(),
        "invalid edge config: unsupported edge status rebooting; expected active, standby, or failed"
    );
}
