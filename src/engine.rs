//! The container engine's HTTP API as this agent uses it: the request for each
//! operation, the statuses that mean success, and the shapes of the values
//! exchanged.
use vstd::prelude::*;
use vstd::string::*;

verus! {

/// An HTTP method used against the engine.
#[derive(PartialEq, Eq, Structural, Clone, Copy, Debug)]
pub enum Method {
    Get,
    Post,
    Delete,
}

/// An operation of the engine's API.
#[derive(PartialEq, Eq, Structural, Clone, Copy, Debug)]
pub enum EngineCall {
    List,
    Start,
    Stop,
    Remove,
    Logs,
    Create,
    Pull,
    Version,
}

/// The response statuses that mean an operation succeeded.
pub open spec fn accepted_status(call: EngineCall, status: u16) -> bool {
    match call {
        EngineCall::List | EngineCall::Logs | EngineCall::Pull | EngineCall::Version => status == 200,
        EngineCall::Start | EngineCall::Stop => status == 204 || status == 304,
        EngineCall::Remove => status == 204,
        EngineCall::Create => status == 201,
    }
}

impl EngineCall {
    /// Whether a response with `status` means the operation succeeded.
    pub fn accepts(&self, status: u16) -> (r: bool)
        ensures
            r == accepted_status(*self, status),
    {
        match self {
            EngineCall::List | EngineCall::Logs | EngineCall::Pull | EngineCall::Version => status
                == 200,
            EngineCall::Start | EngineCall::Stop => status == 204 || status == 304,
            EngineCall::Remove => status == 204,
            EngineCall::Create => status == 201,
        }
    }
}

/// A request to the engine: the operation, its method and its path.
pub struct EngineRequest {
    pub call: EngineCall,
    pub method: Method,
    pub path: String,
}

/// Requests the pull of `name:tag`.
pub fn pull_request(name: &String, tag: &String) -> (r: EngineRequest)
    ensures
        r.call == EngineCall::Pull,
        r.method == Method::Post,
        r.path@ == "/v1.47/images/create?fromImage="@ + name@ + "&tag="@ + tag@,
{
    let path = String::from_str("/v1.47/images/create?fromImage=").concat(name.as_str()).concat(
        "&tag=",
    ).concat(tag.as_str());
    EngineRequest { call: EngineCall::Pull, method: Method::Post, path }
}

/// Requests the creation of a container named `name`; the body goes with it.
pub fn create_request(name: &String) -> (r: EngineRequest)
    ensures
        r.call == EngineCall::Create,
        r.method == Method::Post,
        r.path@ == "/v1.47/containers/create?name="@ + name@,
{
    let path = String::from_str("/v1.47/containers/create?name=").concat(name.as_str());
    EngineRequest { call: EngineCall::Create, method: Method::Post, path }
}

/// Requests the start of container `id`.
pub fn start_request(id: &String) -> (r: EngineRequest)
    ensures
        r.call == EngineCall::Start,
        r.method == Method::Post,
        r.path@ == "/v1.47/containers/"@ + id@ + "/start"@,
{
    let path = String::from_str("/v1.47/containers/").concat(id.as_str()).concat("/start");
    EngineRequest { call: EngineCall::Start, method: Method::Post, path }
}

/// A published port of a container, as the engine lists it.
pub struct Port {
    pub private_port: i64,
    pub public_port: i64,
    pub port_type: String,
}

/// A container, as the engine lists it.
pub struct Container {
    pub id: String,
    pub names: Vec<String>,
    pub image: String,
    pub command: String,
    pub created: i64,
    pub ports: Vec<Port>,
    pub status: String,
}

/// The engine's version report.
pub struct Version {
    pub version: String,
    pub api_version: String,
}

/// Where a container port is published on the host.
pub struct PortBinding {
    pub host_ip: String,
    pub host_port: String,
}

impl View for PortBinding {
    type V = (Seq<char>, Seq<char>);

    open spec fn view(&self) -> (Seq<char>, Seq<char>) {
        (self.host_ip@, self.host_port@)
    }
}

/// Host-side settings of a new container: its port bindings, keyed by
/// `"{container_port}/{protocol}"` with no key twice, and its bind mounts.
pub struct HostConfig {
    pub port_bindings: Vec<(String, PortBinding)>,
    pub binds: Option<Vec<String>>,
}

/// The body of a container creation request.
pub struct ContainerCreationBody {
    pub image: String,
    pub command: Option<String>,
    pub host_config: HostConfig,
}

/// The engine's answer to a creation request.
pub struct ContainerCreationResponse {
    pub id: String,
}

/// The proxy for the engine's container operations.
pub struct DockerService {}

/// The proxy service.
pub fn docker() -> (r: DockerService) {
    DockerService {  }
}

impl DockerService {
    /// Requests the list of all containers, stopped ones included.
    pub fn list_containers(&self) -> (r: EngineRequest)
        ensures
            r.call == EngineCall::List,
            r.method == Method::Get,
            r.path@ == "/v1.47/containers/json?all=true"@,
    {
        EngineRequest {
            call: EngineCall::List,
            method: Method::Get,
            path: String::from_str("/v1.47/containers/json?all=true"),
        }
    }

    /// Requests the start of container `id`.
    pub fn start_container(&self, id: &String) -> (r: EngineRequest)
        ensures
            r.call == EngineCall::Start,
            r.method == Method::Post,
            r.path@ == "/v1.47/containers/"@ + id@ + "/start"@,
    {
        start_request(id)
    }

    /// Requests the stop of container `id`.
    pub fn stop_container(&self, id: &String) -> (r: EngineRequest)
        ensures
            r.call == EngineCall::Stop,
            r.method == Method::Post,
            r.path@ == "/v1.47/containers/"@ + id@ + "/stop"@,
    {
        let path = String::from_str("/v1.47/containers/").concat(id.as_str()).concat("/stop");
        EngineRequest { call: EngineCall::Stop, method: Method::Post, path }
    }

    /// Requests the removal of container `id`.
    pub fn remove_container(&self, id: &String) -> (r: EngineRequest)
        ensures
            r.call == EngineCall::Remove,
            r.method == Method::Delete,
            r.path@ == "/v1.47/containers/"@ + id@,
    {
        let path = String::from_str("/v1.47/containers/").concat(id.as_str());
        EngineRequest { call: EngineCall::Remove, method: Method::Delete, path }
    }

    /// Requests the last thousand timestamped output lines of container `id`.
    pub fn logs_container(&self, id: &String) -> (r: EngineRequest)
        ensures
            r.call == EngineCall::Logs,
            r.method == Method::Get,
            r.path@ == "/v1.47/containers/"@ + id@ + "/logs?stdout=true&timestamps=true&tail=1000"@,
    {
        let path = String::from_str("/v1.47/containers/").concat(id.as_str()).concat(
            "/logs?stdout=true&timestamps=true&tail=1000",
        );
        EngineRequest { call: EngineCall::Logs, method: Method::Get, path }
    }

    /// Requests the engine's version.
    pub fn version(&self) -> (r: EngineRequest)
        ensures
            r.call == EngineCall::Version,
            r.method == Method::Get,
            r.path@ == "/v1.47/version"@,
    {
        EngineRequest {
            call: EngineCall::Version,
            method: Method::Get,
            path: String::from_str("/v1.47/version"),
        }
    }
}

} // verus!
