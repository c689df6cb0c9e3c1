//! Deploying a service descriptor: pull the image, create the container,
//! start it. Each step may fail; the first failure ends the deployment and
//! nothing done before it is undone.
use vstd::prelude::*;
use vstd::string::*;

use crate::engine::{
    create_request, pull_request, start_request, ContainerCreationBody, EngineRequest, HostConfig,
    PortBinding,
};
use crate::store::{has_path, lemma_position, lemma_written, position, unique_paths, written};

verus! {

/// One port to publish, as a descriptor states it.
pub struct PortMapping {
    pub protocol: String,
    pub host_ip: String,
    pub host_port: String,
    pub container_port: String,
}

/// A declarative description of one containerized service.
pub struct ServiceDefinition {
    pub image: String,
    pub tag: String,
    pub container_name: String,
    pub command: Option<String>,
    pub binds: Option<Vec<String>>,
    pub ports: Vec<PortMapping>,
}

/// The key that a port mapping is bound under.
pub open spec fn binding_key(m: PortMapping) -> Seq<char> {
    m.container_port@ + "/"@ + m.protocol@
}

/// The binding entry of one port mapping.
pub open spec fn binding_entry(m: PortMapping) -> (Seq<char>, (Seq<char>, Seq<char>)) {
    (binding_key(m), (m.host_ip@, m.host_port@))
}

/// The port bindings of `ports`, inserted in order into a map keyed by
/// binding key: a later mapping with the same key replaces the earlier one.
pub open spec fn bindings_of(ports: Seq<PortMapping>) -> Seq<(Seq<char>, (Seq<char>, Seq<char>))>
    decreases ports.len(),
{
    if ports.len() == 0 {
        Seq::empty()
    } else {
        written(bindings_of(ports.drop_last()), binding_entry(ports.last()))
    }
}

pub open spec fn entries_view(entries: Seq<(String, PortBinding)>) -> Seq<
    (Seq<char>, (Seq<char>, Seq<char>)),
> {
    entries.map_values(|e: (String, PortBinding)| (e.0@, e.1@))
}

/// The key that `mapping` is bound under: `"{container_port}/{protocol}"`.
pub fn port_binding_key(mapping: &PortMapping) -> (r: String)
    ensures
        r@ == binding_key(*mapping),
{
    mapping.container_port.clone().concat("/").concat(mapping.protocol.as_str())
}

/// The position of `key` among `entries`, if present.
fn find_key(entries: &Vec<(String, PortBinding)>, key: &String) -> (r: Option<usize>)
    requires
        unique_paths(entries_view(entries@)),
    ensures
        r is None <==> !has_path(entries_view(entries@), key@),
        r matches Some(i) ==> i < entries@.len() && position(entries_view(entries@), key@) == i,
{
    let ghost v = entries_view(entries@);
    let mut i: usize = 0;
    while i < entries.len()
        invariant
            i <= entries@.len(),
            v == entries_view(entries@),
            unique_paths(v),
            forall|j: int| 0 <= j < i ==> #[trigger] v[j].0 != key@,
        decreases entries@.len() - i,
    {
        if entries[i].0 == *key {
            proof {
                lemma_position(v, key@, i as int);
            }
            return Some(i);
        }
        i = i + 1;
    }
    None
}

/// The port bindings of a descriptor's ports, one entry per distinct key;
/// where two mappings share a key, the later one wins.
pub fn port_bindings(ports: &Vec<PortMapping>) -> (r: Vec<(String, PortBinding)>)
    ensures
        entries_view(r@) == bindings_of(ports@),
        unique_paths(entries_view(r@)),
{
    let mut entries: Vec<(String, PortBinding)> = Vec::new();
    let mut i: usize = 0;
    assert(entries_view(entries@) =~= bindings_of(ports@.subrange(0, 0)));
    while i < ports.len()
        invariant
            i <= ports@.len(),
            entries_view(entries@) == bindings_of(ports@.subrange(0, i as int)),
            unique_paths(entries_view(entries@)),
        decreases ports@.len() - i,
    {
        let m = &ports[i];
        let key = port_binding_key(m);
        let binding = PortBinding { host_ip: m.host_ip.clone(), host_port: m.host_port.clone() };
        let ghost before = entries_view(entries@);
        let ghost entry = binding_entry(*m);
        proof {
            assert(ports@.subrange(0, i + 1).drop_last() =~= ports@.subrange(0, i as int));
            assert(ports@.subrange(0, i + 1).last() == ports@[i as int]);
            lemma_written(before, entry);
        }
        match find_key(&entries, &key) {
            Some(k) => {
                entries.set(k, (key, binding));
                assert(entries_view(entries@) =~= written(before, entry));
            },
            None => {
                entries.push((key, binding));
                assert(entries_view(entries@) =~= written(before, entry));
            },
        }
        i = i + 1;
    }
    assert(ports@.subrange(0, ports@.len() as int) =~= ports@);
    entries
}

/// A copy of a list of strings.
fn copy_strings(v: &Vec<String>) -> (r: Vec<String>)
    ensures
        r@ == v@,
{
    let mut out: Vec<String> = Vec::new();
    let mut i: usize = 0;
    while i < v.len()
        invariant
            i <= v@.len(),
            out@ == v@.subrange(0, i as int),
        decreases v@.len() - i,
    {
        out.push(v[i].clone());
        assert(out@ =~= v@.subrange(0, i + 1));
        i = i + 1;
    }
    assert(v@.subrange(0, v@.len() as int) =~= v@);
    out
}

/// The creation request body for a descriptor: its image (without the tag),
/// its command, its port bindings and its bind mounts.
pub fn creation_body(def: &ServiceDefinition) -> (r: ContainerCreationBody)
    ensures
        r.image@ == def.image@,
        r.command is Some <==> def.command is Some,
        r.command matches Some(c) ==> c@ == def.command->Some_0@,
        r.host_config.binds is Some <==> def.binds is Some,
        r.host_config.binds matches Some(b) ==> b@ == def.binds->Some_0@,
        entries_view(r.host_config.port_bindings@) == bindings_of(def.ports@),
{
    let command = match &def.command {
        Some(c) => Some(c.clone()),
        None => None,
    };
    let binds = match &def.binds {
        Some(b) => Some(copy_strings(b)),
        None => None,
    };
    ContainerCreationBody {
        image: def.image.clone(),
        command,
        host_config: HostConfig { port_bindings: port_bindings(&def.ports), binds },
    }
}

/// A step of a deployment that calls the engine.
#[derive(PartialEq, Eq, Structural, Clone, Copy, Debug)]
pub enum DeployStep {
    Pull,
    Create,
    Start,
}

/// Where a deployment stands.
#[derive(PartialEq, Eq, Structural, Clone, Copy, Debug)]
pub enum DeployStage {
    /// Waiting for the image pull.
    Pulling,
    /// Waiting for the container creation.
    Creating,
    /// Waiting for the container start.
    Starting,
    /// The container was started.
    Done,
    /// The step failed; nothing after it was attempted.
    Failed(DeployStep),
}

/// What the engine reported for the step in progress.
pub enum StepOutcome {
    /// The step succeeded.
    Succeeded,
    /// The container was created with this id.
    Created(String),
    /// The step failed.
    Failed,
}

/// The abstract form of an outcome.
pub enum StepEvent {
    Succeeded,
    Created(Seq<char>),
    Failed,
}

impl View for StepOutcome {
    type V = StepEvent;

    open spec fn view(&self) -> StepEvent {
        match self {
            StepOutcome::Succeeded => StepEvent::Succeeded,
            StepOutcome::Created(id) => StepEvent::Created(id@),
            StepOutcome::Failed => StepEvent::Failed,
        }
    }
}

/// What to do next.
pub enum DeployAction {
    /// Send this request to the engine, with no body.
    Call(EngineRequest),
    /// Send this creation request with this body.
    Create(EngineRequest, ContainerCreationBody),
    /// The deployment finished: the container runs.
    Finished,
    /// The deployment ended at the failure of this step.
    Abort(DeployStep),
}

/// The stage that follows `stage` when `event` is reported. A creation
/// reported without an id counts as failed; once finished or failed, a
/// deployment stays as it is.
pub open spec fn next_stage(stage: DeployStage, event: StepEvent) -> DeployStage {
    match stage {
        DeployStage::Pulling => match event {
            StepEvent::Failed => DeployStage::Failed(DeployStep::Pull),
            _ => DeployStage::Creating,
        },
        DeployStage::Creating => match event {
            StepEvent::Created(_) => DeployStage::Starting,
            _ => DeployStage::Failed(DeployStep::Create),
        },
        DeployStage::Starting => match event {
            StepEvent::Failed => DeployStage::Failed(DeployStep::Start),
            _ => DeployStage::Done,
        },
        _ => stage,
    }
}

/// The stage reached from `stage` after `events`, in order.
pub open spec fn stage_after(stage: DeployStage, events: Seq<StepEvent>) -> DeployStage
    decreases events.len(),
{
    if events.len() == 0 {
        stage
    } else {
        next_stage(stage_after(stage, events.drop_last()), events.last())
    }
}

/// Whether an action asks the engine for something.
pub open spec fn calls_engine(a: DeployAction) -> bool {
    a is Call || a is Create
}

/// A deployment in progress.
pub struct Deployment {
    definition: ServiceDefinition,
    stage: DeployStage,
}

impl Deployment {
    pub closed spec fn stage_view(&self) -> DeployStage {
        self.stage
    }

    pub closed spec fn definition_view(&self) -> ServiceDefinition {
        self.definition
    }

    /// Starts deploying `definition`: the first action pulls `image:tag`.
    pub fn new(definition: ServiceDefinition) -> (r: (Deployment, DeployAction))
        ensures
            r.0.stage_view() == DeployStage::Pulling,
            r.0.definition_view() == definition,
            r.1 matches DeployAction::Call(req) && req.call == crate::engine::EngineCall::Pull
                && req.path@ == "/v1.47/images/create?fromImage="@ + definition.image@ + "&tag="@
                + definition.tag@,
    {
        let req = pull_request(&definition.image, &definition.tag);
        (Deployment { definition, stage: DeployStage::Pulling }, DeployAction::Call(req))
    }

    /// The stage the deployment is at.
    pub fn stage(&self) -> (r: DeployStage)
        ensures
            r == self.stage_view(),
    {
        self.stage
    }

    /// Takes the engine's report on the step in progress and returns what to
    /// do next: create after a pull, start the created container after a
    /// creation, finish after a start; abort at the first failure.
    pub fn advance(&mut self, outcome: StepOutcome) -> (r: DeployAction)
        ensures
            final(self).stage_view() == next_stage(old(self).stage_view(), outcome@),
            final(self).definition_view() == old(self).definition_view(),
            calls_engine(r) <==> !(old(self).stage_view() is Done) && !(old(self).stage_view() is Failed)
                && (final(self).stage_view() is Creating || final(self).stage_view() is Starting),
            old(self).stage_view() is Pulling && final(self).stage_view() is Creating ==> (r matches DeployAction::Create(req, body)
                && req.call == crate::engine::EngineCall::Create
                && req.path@ == "/v1.47/containers/create?name="@ + old(self).definition_view().container_name@
                && body.image@ == old(self).definition_view().image@
                && entries_view(body.host_config.port_bindings@) == bindings_of(old(self).definition_view().ports@)),
            old(self).stage_view() is Creating && final(self).stage_view() is Starting ==> (r matches DeployAction::Call(req)
                && req.call == crate::engine::EngineCall::Start
                && (outcome@ matches StepEvent::Created(id) && req.path@ == "/v1.47/containers/"@ + id + "/start"@)),
            final(self).stage_view() is Done ==> r is Finished,
            final(self).stage_view() matches DeployStage::Failed(step) ==> r == DeployAction::Abort(step),
    {
        match self.stage {
            DeployStage::Pulling => match outcome {
                StepOutcome::Failed => {
                    self.stage = DeployStage::Failed(DeployStep::Pull);
                    DeployAction::Abort(DeployStep::Pull)
                },
                _ => {
                    self.stage = DeployStage::Creating;
                    let req = create_request(&self.definition.container_name);
                    let body = creation_body(&self.definition);
                    DeployAction::Create(req, body)
                },
            },
            DeployStage::Creating => match outcome {
                StepOutcome::Created(id) => {
                    self.stage = DeployStage::Starting;
                    DeployAction::Call(start_request(&id))
                },
                _ => {
                    self.stage = DeployStage::Failed(DeployStep::Create);
                    DeployAction::Abort(DeployStep::Create)
                },
            },
            DeployStage::Starting => match outcome {
                StepOutcome::Failed => {
                    self.stage = DeployStage::Failed(DeployStep::Start);
                    DeployAction::Abort(DeployStep::Start)
                },
                _ => {
                    self.stage = DeployStage::Done;
                    DeployAction::Finished
                },
            },
            DeployStage::Done => DeployAction::Finished,
            DeployStage::Failed(step) => DeployAction::Abort(step),
        }
    }
}

/// When the image pull fails, the deployment ends there: whatever is
/// reported afterwards, it stays failed at the pull, and from that stage no
/// report leads to a creation or a start.
pub proof fn lemma_failed_pull_is_final(events: Seq<StepEvent>)
    ensures
        stage_after(DeployStage::Pulling, seq![StepEvent::Failed] + events) == DeployStage::Failed(
            DeployStep::Pull,
        ),
        forall|e: StepEvent|
            next_stage(DeployStage::Failed(DeployStep::Pull), e) == DeployStage::Failed(DeployStep::Pull),
    decreases events.len(),
{
    let all = seq![StepEvent::Failed] + events;
    if events.len() == 0 {
        assert(all.drop_last() =~= Seq::<StepEvent>::empty());
        assert(all.last() == StepEvent::Failed);
        assert(stage_after(DeployStage::Pulling, all.drop_last()) == DeployStage::Pulling);
    } else {
        lemma_failed_pull_is_final(events.drop_last());
        assert(all.drop_last() =~= seq![StepEvent::Failed] + events.drop_last());
        assert(all.last() == events.last());
    }
}

} // verus!
