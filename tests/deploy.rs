use server_manager::deploy::{
    creation_body, port_binding_key, port_bindings, DeployAction, DeployStage, DeployStep,
    Deployment, PortMapping, ServiceDefinition, StepOutcome,
};
use server_manager::engine::{docker, EngineCall, Method};

fn mapping(protocol: &str, host_port: &str, container_port: &str) -> PortMapping {
    PortMapping {
        protocol: protocol.to_string(),
        host_ip: "0.0.0.0".to_string(),
        host_port: host_port.to_string(),
        container_port: container_port.to_string(),
    }
}

fn definition() -> ServiceDefinition {
    ServiceDefinition {
        image: "nginx".to_string(),
        tag: "1.27".to_string(),
        container_name: "web".to_string(),
        command: Some("nginx -g 'daemon off;'".to_string()),
        binds: Some(vec!["/srv/www:/usr/share/nginx/html".to_string()]),
        ports: vec![mapping("tcp", "8080", "80"), mapping("udp", "5353", "53")],
    }
}

#[test]
fn binding_key_is_port_slash_protocol() {
    assert_eq!(port_binding_key(&mapping("tcp", "8080", "80")), "80/tcp");
}

#[test]
fn later_mapping_with_same_key_wins() {
    let ports = vec![mapping("tcp", "8080", "80"), mapping("tcp", "9090", "80"), mapping("tcp", "443", "443")];
    let b = port_bindings(&ports);
    assert_eq!(b.len(), 2);
    assert_eq!(b[0].0, "80/tcp");
    assert_eq!(b[0].1.host_port, "9090");
    assert_eq!(b[1].0, "443/tcp");
}

#[test]
fn body_carries_descriptor() {
    let body = creation_body(&definition());
    assert_eq!(body.image, "nginx");
    assert_eq!(body.command.as_deref(), Some("nginx -g 'daemon off;'"));
    assert_eq!(body.host_config.binds, Some(vec!["/srv/www:/usr/share/nginx/html".to_string()]));
    let keys: Vec<String> = body.host_config.port_bindings.iter().map(|e| e.0.clone()).collect();
    assert_eq!(keys, vec!["80/tcp", "53/udp"]);
}

#[test]
fn successful_deploy_pulls_creates_starts() {
    let (mut d, first) = Deployment::new(definition());
    match first {
        DeployAction::Call(req) => {
            assert_eq!(req.call, EngineCall::Pull);
            assert_eq!(req.method, Method::Post);
            assert_eq!(req.path, "/v1.47/images/create?fromImage=nginx&tag=1.27");
        }
        _ => panic!("expected a pull"),
    }
    match d.advance(StepOutcome::Succeeded) {
        DeployAction::Create(req, body) => {
            assert_eq!(req.path, "/v1.47/containers/create?name=web");
            assert_eq!(body.image, "nginx");
        }
        _ => panic!("expected a creation"),
    }
    match d.advance(StepOutcome::Created("abc".to_string())) {
        DeployAction::Call(req) => {
            assert_eq!(req.call, EngineCall::Start);
            assert_eq!(req.path, "/v1.47/containers/abc/start");
        }
        _ => panic!("expected a start"),
    }
    assert!(matches!(d.advance(StepOutcome::Succeeded), DeployAction::Finished));
    assert_eq!(d.stage(), DeployStage::Done);
}

#[test]
fn failed_pull_creates_and_starts_nothing() {
    let (mut d, _) = Deployment::new(definition());
    assert!(matches!(d.advance(StepOutcome::Failed), DeployAction::Abort(DeployStep::Pull)));
    for outcome in [StepOutcome::Succeeded, StepOutcome::Created("x".to_string()), StepOutcome::Failed] {
        assert!(matches!(d.advance(outcome), DeployAction::Abort(DeployStep::Pull)));
    }
    assert_eq!(d.stage(), DeployStage::Failed(DeployStep::Pull));
}

#[test]
fn failed_create_does_not_start() {
    let (mut d, _) = Deployment::new(definition());
    d.advance(StepOutcome::Succeeded);
    assert!(matches!(d.advance(StepOutcome::Failed), DeployAction::Abort(DeployStep::Create)));
    assert!(matches!(d.advance(StepOutcome::Created("x".to_string())), DeployAction::Abort(DeployStep::Create)));
}

#[test]
fn creation_without_id_fails() {
    let (mut d, _) = Deployment::new(definition());
    d.advance(StepOutcome::Succeeded);
    assert!(matches!(d.advance(StepOutcome::Succeeded), DeployAction::Abort(DeployStep::Create)));
}

#[test]
fn failed_start_is_reported() {
    let (mut d, _) = Deployment::new(definition());
    d.advance(StepOutcome::Succeeded);
    d.advance(StepOutcome::Created("abc".to_string()));
    assert!(matches!(d.advance(StepOutcome::Failed), DeployAction::Abort(DeployStep::Start)));
}

#[test]
fn accepted_statuses() {
    assert!(EngineCall::Pull.accepts(200));
    assert!(!EngineCall::Pull.accepts(404));
    assert!(EngineCall::Create.accepts(201));
    assert!(!EngineCall::Create.accepts(200));
    assert!(EngineCall::Start.accepts(204));
    assert!(EngineCall::Start.accepts(304));
    assert!(EngineCall::Stop.accepts(304));
    assert!(EngineCall::Remove.accepts(204));
    assert!(!EngineCall::Remove.accepts(304));
    assert!(EngineCall::List.accepts(200));
}

#[test]
fn proxy_requests() {
    let s = docker();
    assert_eq!(s.list_containers().path, "/v1.47/containers/json?all=true");
    assert_eq!(s.stop_container(&"c1".to_string()).path, "/v1.47/containers/c1/stop");
    let rm = s.remove_container(&"c1".to_string());
    assert_eq!(rm.path, "/v1.47/containers/c1");
    assert_eq!(rm.method, Method::Delete);
    assert_eq!(
        s.logs_container(&"c1".to_string()).path,
        "/v1.47/containers/c1/logs?stdout=true&timestamps=true&tail=1000"
    );
    assert_eq!(s.version().path, "/v1.47/version");
    assert_eq!(s.start_container(&"c1".to_string()).path, "/v1.47/containers/c1/start");
}
