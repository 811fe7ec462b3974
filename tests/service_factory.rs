use splinterd::orchestrator::{
    FactoryCreateError, OrchestratorError, ScabbardFactory, ServiceDefinition, ServiceOrchestrator, ServiceState,
    DEFAULT_DB_SIZE,
};
use splinterd::routing::RoutingTable;
use splinterd::circuit::{handle_service_connect, RequestStatus, ServiceConnectRequest};

#[test]
fn scabbard_factory() {
    let admin_keys: Vec<String> = vec![];
    let mut args = Vec::new();
    args.push((
        "admin_keys".to_string(),
        serde_json::to_string(&admin_keys).expect("failed to serialize admin_keys"),
    ));

    let factory = ScabbardFactory::new(Some("/tmp".into()), Some(1024 * 1024));
    let service = factory
        .create(
            "0".into(),
            "",
            vec!["1".into(), "2".into(), "3".into()],
            args,
        )
        .expect("failed to create service");

    assert_eq!(service.service_id(), "0");
}

#[test]
fn scabbard_factory_defaults() {
    let factory = ScabbardFactory::new(None, None);
    assert_eq!(factory.db_dir, "/var/lib/splinter");
    assert_eq!(factory.db_size, 1028 * 1028 * 1028);
    assert_eq!(DEFAULT_DB_SIZE, 1_086_373_952);
    assert_eq!(factory.available_service_types(), &["scabbard".to_string()]);
}

#[test]
fn scabbard_factory_parses_admin_keys() {
    let factory = ScabbardFactory::new(None, None);
    let args = vec![("admin_keys".to_string(), "[\"k1\",\"k2\"]".to_string())];
    let service = factory.create("s".into(), "scabbard", vec![], args).unwrap();
    assert_eq!(service.admin_keys, vec!["k1".to_string(), "k2".to_string()]);
}

#[test]
fn scabbard_factory_rejects_missing_or_malformed_keys() {
    let factory = ScabbardFactory::new(None, None);
    match factory.create("s".into(), "scabbard", vec![], vec![]) {
        Err(FactoryCreateError::InvalidArguments(m)) => {
            assert_eq!(m, "admin_keys argument not specified")
        }
        _ => panic!("expected invalid arguments"),
    }
    let args = vec![("admin_keys".to_string(), "not json".to_string())];
    match factory.create("s".into(), "scabbard", vec![], args) {
        Err(FactoryCreateError::InvalidArguments(m)) => {
            assert!(m.starts_with("failed to parse admin_keys list: "));
            assert!(m.len() > "failed to parse admin_keys list: ".len());
        }
        _ => panic!("expected invalid arguments"),
    }
}

fn scabbard_definition(circuit: &str, service_id: &str) -> ServiceDefinition {
    ServiceDefinition {
        circuit: circuit.to_string(),
        service_id: service_id.to_string(),
        service_type: "scabbard".to_string(),
        peer_services: vec![],
        arguments: vec![("admin_keys".to_string(), "[]".to_string())],
    }
}

#[test]
fn orchestrator_starts_service_that_then_connects() {
    let mut orchestrator = ServiceOrchestrator::new(ScabbardFactory::new(None, None));
    orchestrator
        .initialize_service(scabbard_definition("c1", "s1"))
        .expect("service should start");
    let c1 = "c1".to_string();
    let s1 = "s1".to_string();
    assert_eq!(orchestrator.service_state(&c1, &s1), Some(ServiceState::Started));
    assert_eq!(orchestrator.service(&c1, &s1).unwrap().service_id(), "s1");

    let mut table = RoutingTable::new();
    table.add_circuit(c1.clone(), vec!["node-a".to_string()]).unwrap();
    let response = handle_service_connect(
        &mut table,
        &"node-a".to_string(),
        ServiceConnectRequest { circuit: c1.clone(), service_id: s1.clone() },
    );
    assert_eq!(response.status, RequestStatus::Accepted);
    assert_eq!(table.routed_node(&c1, &s1), Some("node-a".to_string()));
}

#[test]
fn orchestrator_lifecycle_moves_forward() {
    let mut orchestrator = ServiceOrchestrator::new(ScabbardFactory::new(None, None));
    let c = "c".to_string();
    let s = "s".to_string();
    orchestrator.initialize_service(scabbard_definition("c", "s")).unwrap();
    assert!(orchestrator.initialize_service(scabbard_definition("c", "s")).is_err());
    assert!(orchestrator.destroy_service(&c, &s).is_err());
    orchestrator.shutdown_service(&c, &s).unwrap();
    assert_eq!(orchestrator.service_state(&c, &s), Some(ServiceState::Stopped));
    orchestrator.restart_service(&c, &s).unwrap();
    orchestrator.record_failure(&c, &s, "panicked".to_string()).unwrap();
    assert_eq!(orchestrator.service_state(&c, &s), Some(ServiceState::Stopped));
    orchestrator.destroy_service(&c, &s).unwrap();
    assert_eq!(orchestrator.service_state(&c, &s), Some(ServiceState::Destroyed));
    assert!(orchestrator.restart_service(&c, &s).is_err());
    assert!(matches!(
        orchestrator.initialize_service(scabbard_definition("c", "s")),
        Err(OrchestratorError::ServiceExists)
    ));
    assert_eq!(orchestrator.service_state(&c, &s), Some(ServiceState::Destroyed));
}

#[test]
fn orchestrator_rejects_unknown_type() {
    let mut orchestrator = ServiceOrchestrator::new(ScabbardFactory::new(None, None));
    let mut def = scabbard_definition("c", "s");
    def.service_type = "other".to_string();
    assert!(orchestrator.initialize_service(def).is_err());
    assert_eq!(orchestrator.service_state(&"c".to_string(), &"s".to_string()), None);
}
