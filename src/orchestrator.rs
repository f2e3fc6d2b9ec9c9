//! The decisions of one `SetLoad` call: normalize the request, start one burn
//! worker per core, wait until every worker has finished, then hand over to
//! progress reporting. The caller performs each action and reports back what
//! happened.
use vstd::prelude::*;
use crate::load::{Load, LoadSpec, normalize, normalize_spec};
use crate::progress::{EmitterModel, ProgressEmitter};

verus! {

/// Where a request stands.
#[derive(Clone, Copy, Debug, PartialEq, Eq, Structural)]
pub enum Phase {
    /// Burn workers are being started.
    Launching,
    /// Every worker was started; waiting for all of them to finish.
    Burning,
    /// Every worker has finished; progress is being streamed.
    Reporting,
    /// A worker could not be started; the call fails as a whole.
    Failed,
}

/// What happened after an action was carried out.
#[derive(Clone, Copy, Debug, PartialEq, Eq, Structural)]
pub enum Event {
    /// A burn worker was started.
    WorkerStarted,
    /// A burn worker could not be started.
    WorkerFailedToStart,
    /// A burn worker has run to its end.
    WorkerFinished,
}

/// What the caller is to do next.
#[derive(Clone, Copy, Debug, PartialEq, Eq, Structural)]
pub enum Action {
    /// Start one more burn worker that spins for this many seconds.
    StartWorker { duration_seconds: u64 },
    /// Wait for one more started worker to finish.
    AwaitWorker,
    /// Open the progress stream for this many seconds.
    StreamProgress { total_seconds: i32 },
    /// Fail the call; no stream is opened.
    Abort,
}

/// The state of one request.
pub ghost struct OrchestratorModel {
    pub spec: LoadSpec,
    pub launched: int,
    pub joined: int,
    pub phase: Phase,
}

impl OrchestratorModel {
    pub open spec fn start(load: Load) -> OrchestratorModel {
        OrchestratorModel { spec: normalize_spec(load), launched: 0, joined: 0, phase: Phase::Launching }
    }

    pub open spec fn wf(self) -> bool {
        &&& self.spec.wf()
        &&& 0 <= self.joined <= self.launched <= self.spec.cpu_count
        &&& self.phase == Phase::Launching ==> self.joined == 0 && self.launched
            < self.spec.cpu_count
        &&& self.phase == Phase::Burning ==> self.launched == self.spec.cpu_count && self.joined
            < self.spec.cpu_count
        &&& self.phase == Phase::Reporting ==> self.launched == self.spec.cpu_count
            && self.joined == self.spec.cpu_count
    }

    /// The action that this state asks for.
    pub open spec fn action(self) -> Action {
        match self.phase {
            Phase::Launching => Action::StartWorker {
                duration_seconds: self.spec.duration_seconds as u64,
            },
            Phase::Burning => Action::AwaitWorker,
            Phase::Reporting => Action::StreamProgress { total_seconds: self.spec.duration_seconds },
            Phase::Failed => Action::Abort,
        }
    }

    /// The state after an event; an event that does not fit the phase changes nothing.
    pub open spec fn on(self, e: Event) -> OrchestratorModel {
        match (self.phase, e) {
            (Phase::Launching, Event::WorkerStarted) => OrchestratorModel {
                launched: self.launched + 1,
                phase: if self.launched + 1 == self.spec.cpu_count {
                    Phase::Burning
                } else {
                    Phase::Launching
                },
                ..self
            },
            (Phase::Launching, Event::WorkerFailedToStart) => OrchestratorModel {
                phase: Phase::Failed,
                ..self
            },
            (Phase::Burning, Event::WorkerFinished) => OrchestratorModel {
                joined: self.joined + 1,
                phase: if self.joined + 1 == self.spec.cpu_count {
                    Phase::Reporting
                } else {
                    Phase::Burning
                },
                ..self
            },
            _ => self,
        }
    }

    /// The state after a sequence of events, in order.
    pub open spec fn run(self, events: Seq<Event>) -> OrchestratorModel
        decreases events.len(),
    {
        if events.len() == 0 {
            self
        } else {
            self.on(events[0]).run(events.drop_first())
        }
    }
}

/// The decisions of one request.
pub struct Orchestrator {
    spec: LoadSpec,
    launched: i32,
    joined: i32,
    phase: Phase,
}

impl View for Orchestrator {
    type V = OrchestratorModel;

    closed spec fn view(&self) -> OrchestratorModel {
        OrchestratorModel {
            spec: self.spec,
            launched: self.launched as int,
            joined: self.joined as int,
            phase: self.phase,
        }
    }
}

impl Orchestrator {
    /// Receives a request: it is normalized, and no worker has started yet.
    pub fn new(load: Load) -> (r: Orchestrator)
        ensures
            r@ == OrchestratorModel::start(load),
            r@.wf(),
    {
        Orchestrator { spec: normalize(load), launched: 0, joined: 0, phase: Phase::Launching }
    }

    pub fn load_spec(&self) -> (r: LoadSpec)
        ensures
            r == self@.spec,
    {
        self.spec
    }

    pub fn phase(&self) -> (r: Phase)
        ensures
            r == self@.phase,
    {
        self.phase
    }

    /// Number of burn workers started so far.
    pub fn workers_started(&self) -> (r: i32)
        ensures
            r as int == self@.launched,
    {
        self.launched
    }

    /// Number of burn workers that have finished so far.
    pub fn workers_finished(&self) -> (r: i32)
        ensures
            r as int == self@.joined,
    {
        self.joined
    }

    /// The action that the current state asks for.
    pub fn next_action(&self) -> (r: Action)
        requires
            self@.wf(),
        ensures
            r == self@.action(),
    {
        match self.phase {
            Phase::Launching => Action::StartWorker {
                duration_seconds: self.spec.duration_seconds as u64,
            },
            Phase::Burning => Action::AwaitWorker,
            Phase::Reporting => Action::StreamProgress { total_seconds: self.spec.duration_seconds },
            Phase::Failed => Action::Abort,
        }
    }

    /// Takes in what happened after the last action.
    pub fn on_event(&mut self, e: Event)
        requires
            old(self)@.wf(),
        ensures
            final(self)@ == old(self)@.on(e),
            final(self)@.wf(),
    {
        match (self.phase, e) {
            (Phase::Launching, Event::WorkerStarted) => {
                self.launched = self.launched + 1;
                if self.launched == self.spec.cpu_count {
                    self.phase = Phase::Burning;
                }
            },
            (Phase::Launching, Event::WorkerFailedToStart) => {
                self.phase = Phase::Failed;
            },
            (Phase::Burning, Event::WorkerFinished) => {
                self.joined = self.joined + 1;
                if self.joined == self.spec.cpu_count {
                    self.phase = Phase::Reporting;
                }
            },
            _ => {},
        }
    }

    /// The progress emitter of this request, once every worker has finished.
    pub fn progress_emitter(&self) -> (r: Option<ProgressEmitter>)
        requires
            self@.wf(),
        ensures
            r is Some <==> self@.phase == Phase::Reporting,
            r is Some ==> r->0@ == EmitterModel::start(self@.spec.duration_seconds as int)
                && r->0@.wf(),
    {
        if self.phase == Phase::Reporting {
            Some(ProgressEmitter::new(self.spec.duration_seconds))
        } else {
            None
        }
    }
}

/// Whatever happens, a request never starts more workers than its normalized
/// count of cores, and it reaches progress reporting only once exactly that
/// many workers were started and all of them have finished.
pub proof fn lemma_reporting_after_all_workers(load: Load, events: Seq<Event>)
    ensures
        OrchestratorModel::start(load).run(events).wf(),
        OrchestratorModel::start(load).run(events).launched <= normalize_spec(load).cpu_count,
        OrchestratorModel::start(load).run(events).phase == Phase::Reporting ==> {
            &&& OrchestratorModel::start(load).run(events).launched == normalize_spec(
                load,
            ).cpu_count
            &&& OrchestratorModel::start(load).run(events).joined == normalize_spec(
                load,
            ).cpu_count
        },
{
    lemma_run_wf(OrchestratorModel::start(load), events);
}

proof fn lemma_run_wf(m: OrchestratorModel, events: Seq<Event>)
    requires
        m.wf(),
    ensures
        m.run(events).wf(),
        m.run(events).spec == m.spec,
    decreases events.len(),
{
    if events.len() > 0 {
        lemma_run_wf(m.on(events[0]), events.drop_first());
    }
}

/// `k` events of one kind.
pub open spec fn repeated(e: Event, k: nat) -> Seq<Event> {
    Seq::new(k, |i: int| e)
}

proof fn lemma_run_concat(m: OrchestratorModel, a: Seq<Event>, b: Seq<Event>)
    ensures
        m.run(a + b) == m.run(a).run(b),
    decreases a.len(),
{
    if a.len() > 0 {
        assert((a + b).drop_first() =~= a.drop_first() + b);
        assert((a + b)[0] == a[0]);
        lemma_run_concat(m.on(a[0]), a.drop_first(), b);
    } else {
        assert(a + b =~= b);
    }
}

proof fn lemma_run_repeated(m: OrchestratorModel, e: Event, k: nat)
    requires
        m.wf(),
        e == Event::WorkerStarted ==> m.phase == Phase::Launching && m.launched + k
            == m.spec.cpu_count,
        e == Event::WorkerFinished ==> m.phase == Phase::Burning && m.joined + k
            == m.spec.cpu_count,
        e != Event::WorkerFailedToStart,
    ensures
        e == Event::WorkerStarted ==> m.run(repeated(e, k)) == (OrchestratorModel {
            launched: m.spec.cpu_count as int,
            phase: Phase::Burning,
            ..m
        }),
        e == Event::WorkerFinished ==> m.run(repeated(e, k)) == (OrchestratorModel {
            joined: m.spec.cpu_count as int,
            phase: Phase::Reporting,
            ..m
        }),
    decreases k,
{
    if k > 0 {
        let r = repeated(e, k);
        assert(r[0] == e);
        assert(r.drop_first() =~= repeated(e, (k - 1) as nat));
        assert(m.run(r) == m.on(e).run(repeated(e, (k - 1) as nat)));
        if k > 1 {
            lemma_run_repeated(m.on(e), e, (k - 1) as nat);
        } else {
            assert(repeated(e, 0).len() == 0);
            assert(m.on(e).run(repeated(e, 0)) == m.on(e));
        }
    }
}

/// A request whose workers all start and then all finish reaches progress
/// reporting, for the duration that it was normalized to, after starting
/// exactly its normalized count of workers.
pub proof fn lemma_all_workers_lead_to_reporting(load: Load)
    ensures
        ({
            let c = normalize_spec(load).cpu_count as nat;
            let m = OrchestratorModel::start(load).run(
                repeated(Event::WorkerStarted, c) + repeated(Event::WorkerFinished, c),
            );
            &&& m.phase == Phase::Reporting
            &&& m.launched == c
            &&& m.joined == c
            &&& m.action() == Action::StreamProgress {
                total_seconds: normalize_spec(load).duration_seconds,
            }
        }),
{
    let c = normalize_spec(load).cpu_count as nat;
    let m0 = OrchestratorModel::start(load);
    lemma_run_concat(m0, repeated(Event::WorkerStarted, c), repeated(Event::WorkerFinished, c));
    lemma_run_repeated(m0, Event::WorkerStarted, c);
    let m1 = m0.run(repeated(Event::WorkerStarted, c));
    lemma_run_repeated(m1, Event::WorkerFinished, c);
}

} // verus!
