//! A container after creation: pending until started and ready, then
//! running; and the projection of either that teardown needs.

use vstd::prelude::*;

use crate::composition::{StartPolicy, WaitFor};
use crate::logs::{duplicate_log_options, LogOptions};

verus! {

/// An IPv4 address by its four octets.
#[derive(Clone, Copy, Debug, PartialEq, Eq, Structural)]
pub struct Ipv4 {
    pub a: u8,
    pub b: u8,
    pub c: u8,
    pub d: u8,
}

impl Ipv4 {
    /// The address `a.b.c.d`.
    pub fn new(a: u8, b: u8, c: u8, d: u8) -> (r: Ipv4)
        ensures
            r == (Ipv4 { a, b, c, d }),
    {
        Ipv4 { a, b, c, d }
    }

    /// The unspecified address `0.0.0.0`.
    pub fn unspecified() -> (r: Ipv4)
        ensures
            r.a == 0 && r.b == 0 && r.c == 0 && r.d == 0,
    {
        Ipv4 { a: 0, b: 0, c: 0, d: 0 }
    }
}

/// A port of the host that a container port is published on.
#[derive(Clone, Debug, PartialEq)]
pub struct PortBinding {
    pub host_ip: Option<String>,
    pub host_port: Option<String>,
}

/// A container that the engine created and that is not yet started and
/// ready.
#[derive(Clone, Debug)]
pub struct PendingContainer {
    /// The name on the engine.
    pub name: String,
    /// The engine's identifier.
    pub id: String,
    /// The handle the user resolves it by.
    pub handle: String,
    /// The start policy of its composition.
    pub start_policy: StartPolicy,
    /// The readiness strategy of its composition.
    pub wait: WaitFor,
    /// Whether it is shared by concurrent runs.
    pub is_static: bool,
    /// The log handling of its composition.
    pub log_options: Option<LogOptions>,
}

impl PendingContainer {
    /// A pending container with these values.
    pub fn new(
        name: &str,
        id: &str,
        handle: &str,
        start_policy: StartPolicy,
        wait: WaitFor,
        is_static: bool,
        log_options: Option<LogOptions>,
    ) -> (r: PendingContainer)
        ensures
            r.name@ == name@,
            r.id@ == id@,
            r.handle@ == handle@,
            r.start_policy == start_policy,
            r.wait == wait,
            r.is_static == is_static,
            r.log_options == log_options,
    {
        PendingContainer {
            name: String::from_str(name),
            id: String::from_str(id),
            handle: String::from_str(handle),
            start_policy,
            wait,
            is_static,
            log_options,
        }
    }
}

/// A started container that met its readiness criteria.
#[derive(Clone, Debug)]
pub struct RunningContainer {
    /// The handle the user resolves it by.
    pub handle: String,
    /// The engine's identifier.
    pub id: String,
    /// The name on the engine.
    pub name: String,
    /// Its address on the run's network.
    pub ip: Ipv4,
    /// Its published ports: each container port with its host bindings.
    pub ports: Vec<(String, Option<Vec<PortBinding>>)>,
    /// Whether it is shared by concurrent runs.
    pub is_static: bool,
    /// The log handling of its composition.
    pub log_options: Option<LogOptions>,
}

impl RunningContainer {
    /// The running container that `p` became: its handle, identifier, name,
    /// static flag and log handling, no address yet and no ports.
    pub fn from_pending(p: PendingContainer) -> (r: RunningContainer)
        ensures
            r.handle == p.handle,
            r.id == p.id,
            r.name == p.name,
            r.ip == (Ipv4 { a: 0, b: 0, c: 0, d: 0 }),
            r.ports@.len() == 0,
            r.is_static == p.is_static,
            r.log_options == p.log_options,
    {
        RunningContainer {
            handle: p.handle,
            id: p.id,
            name: p.name,
            ip: Ipv4::unspecified(),
            ports: Vec::new(),
            is_static: p.is_static,
            log_options: p.log_options,
        }
    }

    /// The name on the engine.
    pub fn name(&self) -> (r: &str)
        ensures
            r@ == self.name@,
    {
        self.name.as_str()
    }

    /// The engine's identifier.
    pub fn id(&self) -> (r: &str)
        ensures
            r@ == self.id@,
    {
        self.id.as_str()
    }

    /// The address on the run's network, as read before the test body ran.
    pub fn ip(&self) -> (r: &Ipv4)
        ensures
            *r == self.ip,
    {
        &self.ip
    }

    /// The published ports.
    pub fn ports(&self) -> (r: &Vec<(String, Option<Vec<PortBinding>>)>)
        ensures
            *r == self.ports,
    {
        &self.ports
    }
}

/// What teardown needs of a pending or running container.
#[derive(Clone, Debug)]
pub struct CleanupContainer {
    /// The engine's identifier.
    pub id: String,
    /// The name on the engine.
    pub name: String,
    /// Whether it is shared by concurrent runs.
    pub is_static: bool,
    /// The log handling of its composition.
    pub log_options: Option<LogOptions>,
}

/// `c` is the projection of a container with these values.
pub open spec fn projects(
    c: CleanupContainer,
    id: String,
    name: String,
    is_static: bool,
    log_options: Option<LogOptions>,
) -> bool {
    c.id@ == id@ && c.name@ == name@ && c.is_static == is_static && c.log_options == log_options
}

/// `c` is the projection of the pending container `p`.
pub open spec fn projects_pending(c: CleanupContainer, p: PendingContainer) -> bool {
    projects(c, p.id, p.name, p.is_static, p.log_options)
}

/// `c` is the projection of the running container `p`.
pub open spec fn projects_running(c: CleanupContainer, p: RunningContainer) -> bool {
    projects(c, p.id, p.name, p.is_static, p.log_options)
}

impl CleanupContainer {
    /// The projection of a pending container.
    pub fn from_pending(p: &PendingContainer) -> (r: CleanupContainer)
        ensures
            projects_pending(r, *p),
    {
        CleanupContainer {
            id: p.id.clone(),
            name: p.name.clone(),
            is_static: p.is_static,
            log_options: duplicate_log_options(&p.log_options),
        }
    }

    /// The projection of a running container.
    pub fn from_running(p: &RunningContainer) -> (r: CleanupContainer)
        ensures
            projects_running(r, *p),
    {
        CleanupContainer {
            id: p.id.clone(),
            name: p.name.clone(),
            is_static: p.is_static,
            log_options: duplicate_log_options(&p.log_options),
        }
    }

    /// Whether it is shared by concurrent runs.
    pub fn is_static(&self) -> (r: bool)
        ensures
            r == self.is_static,
    {
        self.is_static
    }
}

/// The projections of the pending containers `pending`, in their order.
pub fn cleanup_of_pending(pending: &Vec<PendingContainer>) -> (r: Vec<CleanupContainer>)
    ensures
        r@.len() == pending@.len(),
        forall|i: int| 0 <= i < r@.len() ==> projects_pending(#[trigger] r@[i], pending@[i]),
{
    let mut r: Vec<CleanupContainer> = Vec::new();
    let mut i: usize = 0;
    while i < pending.len()
        invariant
            i <= pending@.len(),
            r@.len() == i,
            forall|j: int| 0 <= j < i ==> projects_pending(#[trigger] r@[j], pending@[j]),
        decreases pending@.len() - i,
    {
        r.push(CleanupContainer::from_pending(&pending[i]));
        i += 1;
    }
    r
}

/// The projections of the running containers `running`, in their order.
pub fn cleanup_of_running(running: &Vec<RunningContainer>) -> (r: Vec<CleanupContainer>)
    ensures
        r@.len() == running@.len(),
        forall|i: int| 0 <= i < r@.len() ==> projects_running(#[trigger] r@[i], running@[i]),
{
    let mut r: Vec<CleanupContainer> = Vec::new();
    let mut i: usize = 0;
    while i < running.len()
        invariant
            i <= running@.len(),
            r@.len() == i,
            forall|j: int| 0 <= j < i ==> projects_running(#[trigger] r@[j], running@[j]),
        decreases running@.len() - i,
    {
        r.push(CleanupContainer::from_running(&running[i]));
        i += 1;
    }
    r
}

} // verus!
