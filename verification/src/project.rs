//! The process handle: one record owning a spawned OS process's identity and
//! lifecycle status.  The OS itself is driven by the embedding program, which
//! reports each spawn and kill outcome back into these transition functions.

use vstd::prelude::*;
use crate::config::ProjectConfig;
use crate::resolver::{
    resolve_invocation, opt_view, plan_matches, resolve_err_of, ConfigurationError, EnvInfo,
    InvocationPlan,
};

verus! {

/// The lifecycle status of a project.  `Unknown` is a transient
/// pre-initialization value, never reachable once a handle or streamer is
/// built around a fresh project.
#[derive(Debug, Clone, Copy, PartialEq, Eq, Structural)]
pub enum Status {
    Running,
    Stopped,
    Failed,
    Unknown,
}

/// How a program is invoked: directly by its token, or through a
/// version-specific binary root searched first.
#[derive(Debug, Clone)]
pub enum CommandType {
    Default(String),
    Specific(String),
}

/// The model of one spawned OS process: its pid and whether each output pipe
/// is still unclaimed.  A fresh spawn has both pipes available; claiming is a
/// one-shot ownership transfer.
#[derive(Debug, Clone, Copy, PartialEq, Eq, Structural)]
pub struct ProcessRecord {
    pub pid: u32,
    pub stdout_available: bool,
    pub stderr_available: bool,
}

/// What the OS reported for one spawn attempt.
#[derive(Debug, Clone)]
pub enum SpawnOutcome {
    Spawned { pid: u32 },
    SpawnFailed { message: String },
}

/// The OS failed to create the process.
#[derive(Debug, Clone)]
pub struct SpawnError {
    pub message: String,
}

/// The termination request for a running process failed.
#[derive(Debug, Clone, Copy, PartialEq, Eq, Structural)]
pub enum StopError {
    KillFailed,
}

/// What `start` hands back: the pid of a prior process to terminate
/// best-effort, if one was owned, and the resolved invocation plan.
#[derive(Debug)]
pub struct StartPrep {
    pub kill_pid: Option<u32>,
    pub plan: Result<InvocationPlan, ConfigurationError>,
}

/// One supervised project: its descriptor, the owned process model, and its
/// status.
#[derive(Debug, Clone)]
pub struct Project {
    pub project_info: ProjectConfig,
    pub process: Option<ProcessRecord>,
    pub pid: Option<u32>,
    pub status: Status,
    pub last_run_time: Option<u64>,
    pub auto_restart: bool,
}

/// The state after a handle's owned process is discarded ahead of a new
/// spawn: no process, no pid, status back to `Stopped`.
pub open spec fn spec_begin_clear(p: Project) -> Project {
    Project { process: None, pid: None, status: Status::Stopped, ..p }
}

/// The state after a failed resolution or spawn: no process, status `Failed`.
pub open spec fn spec_start_failed(p: Project) -> Project {
    Project { process: None, pid: None, status: Status::Failed, ..p }
}

/// The state right after a successful spawn: the fresh process with both
/// pipes available, its pid recorded, status provisionally `Running`, and the
/// start time noted.
pub open spec fn spec_spawned(p: Project, pid: u32, now_ms: u64) -> Project {
    Project {
        process: Some(ProcessRecord { pid, stdout_available: true, stderr_available: true }),
        pid: Some(pid),
        status: Status::Running,
        last_run_time: Some(now_ms),
        ..p
    }
}

/// The state and success of one stop request.  With no owned process the stop
/// is a successful no-op that still normalizes state; with one, a successful
/// kill clears it, and a failed kill leaves the handle exactly as it was so
/// the caller may retry.
pub open spec fn spec_stop(p: Project, kill_ok: bool) -> (Project, bool) {
    if p.process is None || kill_ok {
        (Project { process: None, pid: None, status: Status::Stopped, ..p }, true)
    } else {
        (p, false)
    }
}

/// A successful full start cycle: the old process discarded, a fresh one
/// spawned.
pub open spec fn spec_start_cycle_ok(p: Project, pid: u32, now_ms: u64) -> Project {
    spec_spawned(spec_begin_clear(p), pid, now_ms)
}

impl Project {
    /// The handle's structural invariant: a process is owned exactly when the
    /// status is `Running`, the pid mirrors the owned process, and a real pid
    /// is never zero.
    pub open spec fn wf(&self) -> bool {
        &&& (self.status is Running <==> self.process is Some)
        &&& (self.pid is Some <==> self.process is Some)
        &&& (self.process matches Some(rec) ==> self.pid == Some(rec.pid) && rec.pid != 0)
    }

    /// A fresh, stopped handle for a descriptor.
    pub fn new(project_info: ProjectConfig) -> (r: Project)
        ensures
            r.project_info == project_info,
            r.process is None,
            r.pid is None,
            r.status == Status::Stopped,
            r.last_run_time is None,
            r.auto_restart == false,
            r.wf(),
    {
        Project {
            project_info,
            process: None,
            pid: None,
            status: Status::Stopped,
            last_run_time: None,
            auto_restart: false,
        }
    }

    fn set_status(&mut self, status: Status)
        ensures
            *final(self) == (Project { status, ..*old(self) }),
    {
        self.status = status;
    }

    /// Replaces the owned process model.
    pub fn set_process(&mut self, process: Option<ProcessRecord>)
        ensures
            *final(self) == (Project { process, ..*old(self) }),
    {
        self.process = process;
    }

    /// Records a pid; zero stands for "none".
    pub fn set_pid(&mut self, pid: u32)
        ensures
            *final(self) == (Project {
                pid: if pid == 0 {
                    None
                } else {
                    Some(pid)
                },
                ..*old(self)
            }),
    {
        self.pid = if pid == 0 {
            None
        } else {
            Some(pid)
        };
    }

    /// Records the time of the last start.
    pub fn set_last_run_time(&mut self, last_run_time: u64)
        ensures
            *final(self) == (Project { last_run_time: Some(last_run_time), ..*old(self) }),
    {
        self.last_run_time = Some(last_run_time);
    }

    /// First half of a start: discards any owned process (handing back its
    /// pid for a best-effort kill) and resolves the invocation plan from the
    /// descriptor and the given environment values.  The plan fails if and
    /// only if a version pin needs an absent environment value; the handle is
    /// left `Failed` in that case and `Stopped` otherwise, awaiting the spawn
    /// outcome.
    pub fn start(&mut self, env: &EnvInfo) -> (r: StartPrep)
        ensures
            r.kill_pid == (match old(self).process {
                Some(rec) => Some(rec.pid),
                None => None::<u32>,
            }),
            r.plan is Ok ==> *final(self) == spec_begin_clear(*old(self)),
            r.plan is Err ==> *final(self) == spec_start_failed(*old(self)),
            match r.plan {
                Ok(plan) => resolve_err_of(
                    opt_view(old(self).project_info.node_version),
                    opt_view(env.home),
                    opt_view(env.path_var),
                ) is None && plan_matches(
                    plan,
                    opt_view(old(self).project_info.node_version),
                    old(self).project_info.min_memory_usage,
                    old(self).project_info.start_command@,
                    opt_view(env.home),
                    opt_view(env.path_var),
                ),
                Err(e) => Some(e) == resolve_err_of(
                    opt_view(old(self).project_info.node_version),
                    opt_view(env.home),
                    opt_view(env.path_var),
                ),
            },
    {
        let kill_pid = match &self.process {
            Some(rec) => Some(rec.pid),
            None => None,
        };
        self.set_process(None);
        self.pid = None;
        let plan = resolve_invocation(
            &self.project_info.node_version,
            self.project_info.min_memory_usage,
            &self.project_info.start_command,
            env,
        );
        match &plan {
            Ok(_) => self.set_status(Status::Stopped),
            Err(_) => self.set_status(Status::Failed),
        }
        StartPrep { kill_pid, plan }
    }

    /// Second half of a start: records the spawn outcome the embedding
    /// program observed.  A successful spawn stores the fresh process (both
    /// pipes available) and turns the status provisionally `Running`; a
    /// failed spawn leaves the handle `Failed` and surfaces the OS message.
    pub fn finish_start(&mut self, outcome: SpawnOutcome, now_ms: u64) -> (r: Result<
        (),
        SpawnError,
    >)
        requires
            old(self).process is None,
            old(self).pid is None,
            (outcome matches SpawnOutcome::Spawned { pid } ==> pid != 0),
        ensures
            match outcome {
                SpawnOutcome::Spawned { pid } => {
                    &&& *final(self) == spec_spawned(*old(self), pid, now_ms)
                    &&& r is Ok
                    &&& final(self).wf()
                },
                SpawnOutcome::SpawnFailed { message } => {
                    &&& *final(self) == spec_start_failed(*old(self))
                    &&& (r matches Err(e) && e.message == message)
                    &&& final(self).wf()
                },
            },
    {
        match outcome {
            SpawnOutcome::Spawned { pid } => {
                self.set_pid(pid);
                self.set_process(
                    Some(ProcessRecord { pid, stdout_available: true, stderr_available: true }),
                );
                self.set_status(Status::Running);
                self.set_last_run_time(now_ms);
                Ok(())
            },
            SpawnOutcome::SpawnFailed { message } => {
                self.set_status(Status::Failed);
                Err(SpawnError { message })
            },
        }
    }

    /// Applies one stop request, `kill_ok` being the result of the embedding
    /// program's termination request for the owned process (ignored when none
    /// is owned).  Succeeds and normalizes to `Stopped` unless an owned
    /// process's kill failed, in which case nothing changes and the error is
    /// returned for a retry.
    pub fn stop(&mut self, kill_ok: bool) -> (r: Result<(), StopError>)
        ensures
            *final(self) == spec_stop(*old(self), kill_ok).0,
            r is Ok <==> spec_stop(*old(self), kill_ok).1,
            r is Err ==> r == Err::<(), StopError>(StopError::KillFailed),
            old(self).wf() ==> final(self).wf(),
    {
        match &self.process {
            None => {
                self.set_status(Status::Stopped);
                self.pid = None;
                Ok(())
            },
            Some(_) => {
                if kill_ok {
                    self.set_process(None);
                    self.pid = None;
                    self.set_status(Status::Stopped);
                    Ok(())
                } else {
                    Err(StopError::KillFailed)
                }
            },
        }
    }
}

/// A second stop right after a successful one is a no-op that still
/// succeeds, and an already-stopped handle's stop always succeeds: stopping
/// is idempotent.
pub proof fn lemma_stop_idempotent(p: Project, k1: bool, k2: bool)
    ensures
        p.process is None ==> spec_stop(p, k1).1,
        spec_stop(p, k1).1 ==> {
            &&& spec_stop(spec_stop(p, k1).0, k2).1
            &&& spec_stop(spec_stop(p, k1).0, k2).0 == spec_stop(p, k1).0
            &&& spec_stop(spec_stop(p, k1).0, k2).0.status == Status::Stopped
        },
{
}

/// A successful start cycle on a running handle actually replaces the
/// process: the prior process is discarded (the handle passes through a
/// stopped state with no pid) and the recorded pid afterwards is the fresh
/// spawn's, different from the prior one whenever the OS handed back a fresh
/// pid.
pub proof fn lemma_restart_replaces_pid(p: Project, new_pid: u32, now_ms: u64)
    requires
        p.wf(),
        p.status is Running,
        p.pid != Some(new_pid),
    ensures
        spec_begin_clear(p).process is None,
        spec_begin_clear(p).pid is None,
        spec_begin_clear(p).status == Status::Stopped,
        spec_start_cycle_ok(p, new_pid, now_ms).pid == Some(new_pid),
        spec_start_cycle_ok(p, new_pid, now_ms).pid != p.pid,
        spec_start_cycle_ok(p, new_pid, now_ms).status == Status::Running,
{
}

} // verus!
