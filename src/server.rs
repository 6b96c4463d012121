use vstd::prelude::*;
use crate::bus::ThreadMessage;

verus! {

/// `ip:port`, the address a worker binds.
pub open spec fn address_of(ip: Seq<char>, port: Seq<char>) -> Seq<char> {
    ip + seq![':'] + port
}

/// The diagnostic text reported when `address` cannot be bound.
pub open spec fn bind_failure_text(address: Seq<char>) -> Seq<char> {
    "Invalid endpoint ("@ + address + ")"@
}

/// The acquisition server's start gate: whether it runs, and its endpoint.
pub struct Server {
    running: bool,
    ip: String,
    port: String,
}

/// What `start` does to a server: a server that is not running starts and
/// hands out its address to bind; a running one is left as it is.
pub open spec fn start_post(
    before: (bool, Seq<char>, Seq<char>),
    after: (bool, Seq<char>, Seq<char>),
    r: Option<Seq<char>>,
) -> bool {
    if before.0 {
        after == before && r is None
    } else {
        after == (true, before.1, before.2) && r == Some(address_of(before.1, before.2))
    }
}

impl View for Server {
    type V = (bool, Seq<char>, Seq<char>);

    closed spec fn view(&self) -> (bool, Seq<char>, Seq<char>) {
        (self.running, self.ip@, self.port@)
    }
}

impl Server {
    /// A stopped server for 127.0.0.1, port 6969.
    pub fn new() -> (r: Self)
        ensures
            r@ == (false, "127.0.0.1"@, "6969"@),
    {
        Server { running: false, ip: "127.0.0.1".to_owned(), port: "6969".to_owned() }
    }

    /// A stopped server for the given endpoint.
    pub fn with_endpoint(ip: String, port: String) -> (r: Self)
        ensures
            r@ == (false, ip@, port@),
    {
        Server { running: false, ip, port }
    }

    /// Whether the server has been started.
    pub fn is_running(&self) -> (r: bool)
        ensures
            r == self@.0,
    {
        self.running
    }

    /// Starts the server once: the first call marks it running and returns
    /// the address that the worker is to bind; later calls do nothing and
    /// return `None`.
    pub fn start(&mut self) -> (r: Option<String>)
        ensures
            start_post(
                old(self)@,
                final(self)@,
                match r {
                    Some(a) => Some(a@),
                    None => None,
                },
            ),
    {
        if self.running {
            return None;
        }
        self.running = true;
        let address = self.ip.clone().concat(":").concat(self.port.as_str());
        proof {
            reveal_strlit(":");
        }
        assert(address@ =~= address_of(self.ip@, self.port@));
        Some(address)
    }
}

/// Calling `start` twice in a row starts the server at most once: the second
/// call hands out no address and changes nothing.
pub proof fn lemma_start_idempotent(
    s0: (bool, Seq<char>, Seq<char>),
    s1: (bool, Seq<char>, Seq<char>),
    s2: (bool, Seq<char>, Seq<char>),
    r1: Option<Seq<char>>,
    r2: Option<Seq<char>>,
)
    requires
        start_post(s0, s1, r1),
        start_post(s1, s2, r2),
    ensures
        r2 is None,
        s2 == s1,
        s2.0,
        !s0.0 ==> r1 == Some(address_of(s0.1, s0.2)),
{
}

/// Where the acquisition worker is in its life.
#[derive(Clone, Copy, Debug, PartialEq, Eq, Structural)]
pub enum WorkerPhase {
    Idle,
    Starting,
    Running,
    Terminated,
    Failed,
}

/// What happened to the worker since its last decision.
pub enum WorkerEvent<T> {
    /// Binding the endpoint failed.
    BindFailed,
    /// The endpoint is bound.
    BindSucceeded,
    /// A tick produced this sample.
    Sampled(T),
    /// Sending on the bus failed: the consumer is gone.
    SendFailed,
    /// The worker was asked to stop.
    Cancelled,
}

/// What the worker is to do next.
pub enum WorkerAction<T> {
    /// Try to bind the endpoint.
    Bind,
    /// Send this event on the bus, then wait for the next tick.
    Send(ThreadMessage<T>),
    /// Wait for the next tick.
    Wait,
    /// Send this event, then release the endpoint and end.
    Report(ThreadMessage<T>),
    /// Release the endpoint and end.
    Release,
    /// Nothing to do.
    Nothing,
}

/// The acquisition worker's decisions: its phase, the address it binds and
/// the channel its samples are meant for (the active one when `None`).
pub struct Worker {
    pub phase: WorkerPhase,
    pub address: String,
    pub target: Option<String>,
}

impl Worker {
    /// An idle worker for `address`.
    pub fn new(address: String, target: Option<String>) -> (r: Self)
        ensures
            r.phase == WorkerPhase::Idle,
            r.address == address,
            r.target == target,
    {
        Worker { phase: WorkerPhase::Idle, address, target }
    }

    /// Leaves `Idle` for `Starting` and asks for a bind; in any other phase
    /// does nothing, so a second start never binds again.
    pub fn begin<T>(&mut self) -> (r: WorkerAction<T>)
        ensures
            final(self).address == old(self).address,
            final(self).target == old(self).target,
            old(self).phase == WorkerPhase::Idle ==> final(self).phase == WorkerPhase::Starting
                && r is Bind,
            old(self).phase != WorkerPhase::Idle ==> final(self).phase == old(self).phase
                && r is Nothing,
    {
        if self.phase == WorkerPhase::Idle {
            self.phase = WorkerPhase::Starting;
            WorkerAction::Bind
        } else {
            WorkerAction::Nothing
        }
    }

    /// Decides the next phase and action from `event`.
    pub fn on_event<T>(&mut self, event: WorkerEvent<T>) -> (r: WorkerAction<T>)
        ensures
            final(self).address == old(self).address,
            final(self).target == old(self).target,
            ({
                let p = old(self).phase;
                match event {
                    WorkerEvent::BindFailed => if p == WorkerPhase::Starting {
                        final(self).phase == WorkerPhase::Failed && (r matches WorkerAction::Report(
                            ThreadMessage::Error(t),
                        ) && t@ == bind_failure_text(old(self).address@))
                    } else {
                        final(self).phase == p && r is Nothing
                    },
                    WorkerEvent::BindSucceeded => if p == WorkerPhase::Starting {
                        final(self).phase == WorkerPhase::Running && r is Wait
                    } else {
                        final(self).phase == p && r is Nothing
                    },
                    WorkerEvent::Sampled(v) => if p == WorkerPhase::Running {
                        final(self).phase == p && match old(self).target {
                            Some(t) => r matches WorkerAction::Send(ThreadMessage::PlotOnLine(k, w))
                                && k@ == t@ && w == v,
                            None => r matches WorkerAction::Send(ThreadMessage::PlotPoint(w)) && w
                                == v,
                        }
                    } else {
                        final(self).phase == p && r is Nothing
                    },
                    WorkerEvent::SendFailed | WorkerEvent::Cancelled => if p
                        == WorkerPhase::Running || p == WorkerPhase::Starting {
                        final(self).phase == WorkerPhase::Terminated && r is Release
                    } else {
                        final(self).phase == p && r is Nothing
                    },
                }
            }),
    {
        let p = self.phase;
        match event {
            WorkerEvent::BindFailed => {
                if p == WorkerPhase::Starting {
                    self.phase = WorkerPhase::Failed;
                    let text = "Invalid endpoint (".to_owned().concat(self.address.as_str()).concat(
                        ")",
                    );
                    proof {
                        reveal_strlit("Invalid endpoint (");
                        reveal_strlit(")");
                    }
                    WorkerAction::Report(ThreadMessage::Error(text))
                } else {
                    WorkerAction::Nothing
                }
            },
            WorkerEvent::BindSucceeded => {
                if p == WorkerPhase::Starting {
                    self.phase = WorkerPhase::Running;
                    WorkerAction::Wait
                } else {
                    WorkerAction::Nothing
                }
            },
            WorkerEvent::Sampled(v) => {
                if p == WorkerPhase::Running {
                    match &self.target {
                        Some(t) => WorkerAction::Send(ThreadMessage::PlotOnLine(t.clone(), v)),
                        None => WorkerAction::Send(ThreadMessage::PlotPoint(v)),
                    }
                } else {
                    WorkerAction::Nothing
                }
            },
            WorkerEvent::SendFailed | WorkerEvent::Cancelled => {
                if p == WorkerPhase::Running || p == WorkerPhase::Starting {
                    self.phase = WorkerPhase::Terminated;
                    WorkerAction::Release
                } else {
                    WorkerAction::Nothing
                }
            },
        }
    }
}

} // verus!
