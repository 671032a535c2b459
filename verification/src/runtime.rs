//! The supervisor registry and command dispatcher: a name-keyed collection of
//! streamers (each owning its process handle), mutated strictly sequentially
//! by one control loop.  Every operation takes a project name; a missing name
//! is reported as `NotFound` and changes nothing.

use vstd::prelude::*;
use crate::config::ProjectConfig;
use crate::log::{
    format_log_line, ring_push, spec_attach, spec_log_line, LogSource, NodeLog, StreamError,
    MAX_LOGS,
};
use crate::project::{
    spec_begin_clear, spec_spawned, spec_start_failed, spec_stop, Project, SpawnError,
    SpawnOutcome, StartPrep, Status, StopError,
};
use crate::resolver::{opt_view, plan_matches, resolve_err_of, EnvInfo};
use crate::text::{dec_chars, u64_to_dec};
use vstd::string::StringExecFns;

verus! {

/// Why a dispatched operation failed.
#[derive(Debug, Clone)]
pub enum DispatchError {
    /// The name is not in the registry.
    NotFound,
    /// The spawn failed; the OS message is carried along.
    Spawn(SpawnError),
    /// The termination request failed; the entry is unchanged for a retry.
    Stop(StopError),
    /// Attaching the streamer failed; the entry is left `Failed`.
    Stream(StreamError),
}

/// The registry key of an entry: its project's configured name.
pub open spec fn entry_name(lg: NodeLog) -> Seq<char> {
    lg.project.project_info.name@
}

/// The first index holding an entry named `name`, if any.
pub open spec fn spec_find(s: Seq<NodeLog>, name: Seq<char>) -> Option<int>
    decreases s.len(),
{
    if s.len() == 0 {
        None
    } else if entry_name(s[0]) == name {
        Some(0)
    } else {
        match spec_find(s.drop_first(), name) {
            Some(i) => Some(i + 1),
            None => None,
        }
    }
}

/// Whether some entry is named `name`.
pub open spec fn spec_has(s: Seq<NodeLog>, name: Seq<char>) -> bool {
    spec_find(s, name) is Some
}

/// A freshly registered entry for a descriptor: a stopped handle, no logs,
/// streamer status still `Unknown`.
pub open spec fn entry_fresh(lg: NodeLog, cfg: ProjectConfig) -> bool {
    &&& lg.project.project_info == cfg
    &&& lg.project.process is None
    &&& lg.project.pid is None
    &&& lg.project.status == Status::Stopped
    &&& lg.project.last_run_time is None
    &&& lg.project.auto_restart == false
    &&& lg.log_list@.len() == 0
    &&& lg.status == Status::Unknown
    &&& lg.max_logs == MAX_LOGS
}

/// What the first match means: a found index is in range and bears the name;
/// no match means no entry bears it.
pub proof fn lemma_spec_find_works(s: Seq<NodeLog>, name: Seq<char>)
    ensures
        match spec_find(s, name) {
            Some(i) => 0 <= i < s.len() && entry_name(s[i]) == name,
            None => forall|j: int| 0 <= j < s.len() ==> entry_name(s[j]) != name,
        },
    decreases s.len(),
{
    if s.len() == 0 {
    } else if entry_name(s[0]) == name {
    } else {
        lemma_spec_find_works(s.drop_first(), name);
        if spec_find(s.drop_first(), name) is None {
            assert forall|j: int| 0 <= j < s.len() implies entry_name(s[j]) != name by {
                if j > 0 {
                    assert(s[j] == s.drop_first()[j - 1]);
                }
            }
        } else {
            let i = spec_find(s.drop_first(), name)->0;
            assert(s.drop_first()[i] == s[i + 1]);
        }
    }
}

/// An entry bearing the name makes the find succeed.
pub proof fn lemma_spec_find_present(s: Seq<NodeLog>, name: Seq<char>, i: int)
    requires
        0 <= i < s.len(),
        entry_name(s[i]) == name,
    ensures
        spec_has(s, name),
    decreases s.len(),
{
    if entry_name(s[0]) == name {
    } else {
        assert(s.drop_first()[i - 1] == s[i]);
        lemma_spec_find_present(s.drop_first(), name, i - 1);
    }
}

/// A pointwise change at one index that keeps the entry's name and
/// well-formedness keeps the registry's invariant.
proof fn lemma_wf_update(pre: Seq<NodeLog>, post: Seq<NodeLog>, i: int)
    requires
        0 <= i < pre.len(),
        post.len() == pre.len(),
        forall|j: int| 0 <= j < pre.len() && j != i ==> post[j] == pre[j],
        entry_name(post[i]) == entry_name(pre[i]),
        post[i].wf(),
        forall|a: int, b: int|
            0 <= a < b < pre.len() ==> entry_name(pre[a]) != entry_name(pre[b]),
        forall|j: int| 0 <= j < pre.len() ==> pre[j].wf(),
    ensures
        forall|a: int, b: int|
            0 <= a < b < post.len() ==> entry_name(post[a]) != entry_name(post[b]),
        forall|j: int| 0 <= j < post.len() ==> post[j].wf(),
{
    assert forall|a: int, b: int|
        0 <= a < b < post.len() implies entry_name(post[a]) != entry_name(post[b]) by {
        assert(entry_name(post[a]) == entry_name(pre[a]));
        assert(entry_name(post[b]) == entry_name(pre[b]));
    }
}

/// Skipping a match-free prefix shifts the first match by that prefix's
/// length.
proof fn lemma_spec_find_skip(s: Seq<NodeLog>, name: Seq<char>, i: int)
    requires
        0 <= i <= s.len(),
        forall|j: int| 0 <= j < i ==> entry_name(s[j]) != name,
    ensures
        spec_find(s, name) == (match spec_find(s.skip(i), name) {
            Some(k) => Some(k + i),
            None => None::<int>,
        }),
    decreases i,
{
    if i == 0 {
        assert(s.skip(0) =~= s);
    } else {
        assert(s.skip(i) =~= s.drop_first().skip(i - 1));
        lemma_spec_find_skip(s.drop_first(), name, i - 1);
    }
}

/// The supervisor registry: the ordered entries, one per registered project
/// name.
#[derive(Debug)]
pub struct Supervisor {
    pub entries: Vec<NodeLog>,
}

impl Supervisor {
    /// The registry's structural invariant: names are pairwise distinct and
    /// every entry is well formed.
    pub open spec fn wf(&self) -> bool {
        &&& (forall|i: int, j: int|
            0 <= i < j < self.entries@.len() ==> entry_name(self.entries@[i]) != entry_name(
                self.entries@[j],
            ))
        &&& (forall|i: int| 0 <= i < self.entries@.len() ==> self.entries@[i].wf())
    }

    /// An empty registry.
    pub fn new() -> (r: Supervisor)
        ensures
            r.entries@.len() == 0,
            r.wf(),
    {
        Supervisor { entries: Vec::new() }
    }

    /// The index of the entry named `name`, if any.
    pub fn find(&self, name: &String) -> (r: Option<usize>)
        ensures
            r matches Some(i) ==> spec_find(self.entries@, name@) == Some(i as int),
            r is None ==> spec_find(self.entries@, name@) is None,
    {
        let mut i: usize = 0;
        let n = self.entries.len();
        while i < n
            invariant
                i <= n,
                n == self.entries@.len(),
                forall|j: int| 0 <= j < i ==> entry_name(self.entries@[j]) != name@,
            decreases n - i,
        {
            if self.entries[i].project.project_info.name == *name {
                proof {
                    lemma_spec_find_skip(self.entries@, name@, i as int);
                    assert(self.entries@.skip(i as int)[0] == self.entries@[i as int]);
                }
                return Some(i);
            }
            i = i + 1;
        }
        proof {
            lemma_spec_find_skip(self.entries@, name@, n as int);
            assert(self.entries@.skip(n as int) =~= Seq::<NodeLog>::empty());
        }
        None
    }

    /// Registers a descriptor: a fresh stopped entry under its name.  A name
    /// already present is silently overwritten — the last registration wins;
    /// other entries are untouched and the order of names is kept.
    pub fn register(&mut self, cfg: ProjectConfig)
        requires
            old(self).wf(),
        ensures
            final(self).wf(),
            match spec_find(old(self).entries@, cfg.name@) {
                Some(i) => {
                    &&& final(self).entries@.len() == old(self).entries@.len()
                    &&& (forall|j: int|
                        0 <= j < old(self).entries@.len() && j != i ==> final(self).entries@[j]
                            == old(self).entries@[j])
                    &&& entry_fresh(final(self).entries@[i], cfg)
                },
                None => {
                    &&& final(self).entries@.len() == old(self).entries@.len() + 1
                    &&& (forall|j: int|
                        0 <= j < old(self).entries@.len() ==> final(self).entries@[j] == old(
                            self,
                        ).entries@[j])
                    &&& entry_fresh(final(self).entries@[old(self).entries@.len() as int], cfg)
                },
            },
    {
        let ghost name_v = cfg.name@;
        let ghost pre = self.entries@;
        let fresh = NodeLog::new(Project::new(cfg));
        proof {
            lemma_spec_find_works(pre, name_v);
        }
        match self.find(&fresh.project.project_info.name) {
            Some(i) => {
                self.entries[i] = fresh;
                proof {
                    assert(self.entries@ =~= pre.update(i as int, fresh));
                    assert(entry_name(pre[i as int]) == name_v);
                    assert(entry_name(self.entries@[i as int]) == name_v);
                    assert forall|a: int, b: int|
                        0 <= a < b < self.entries@.len() implies entry_name(self.entries@[a])
                        != entry_name(self.entries@[b]) by {
                        assert(entry_name(self.entries@[a]) == entry_name(pre[a]));
                        assert(entry_name(self.entries@[b]) == entry_name(pre[b]));
                    }
                }
            },
            None => {
                self.entries.push(fresh);
                proof {
                    assert(self.entries@ =~= pre.push(fresh));
                    assert forall|a: int, b: int|
                        0 <= a < b < self.entries@.len() implies entry_name(self.entries@[a])
                        != entry_name(self.entries@[b]) by {
                        if b < pre.len() {
                            assert(entry_name(self.entries@[a]) == entry_name(pre[a]));
                            assert(entry_name(self.entries@[b]) == entry_name(pre[b]));
                        } else {
                            assert(entry_name(self.entries@[b]) == name_v);
                            assert(entry_name(self.entries@[a]) == entry_name(pre[a]));
                        }
                    }
                }
            },
        }
    }

    /// Registers every descriptor of a configuration list, in order; each
    /// name afterwards has an entry.
    pub fn register_all(&mut self, cfgs: Vec<ProjectConfig>)
        requires
            old(self).wf(),
        ensures
            final(self).wf(),
            forall|k: int|
                0 <= k < cfgs@.len() ==> spec_has(final(self).entries@, cfgs@[k].name@),
    {
        let ghost orig = cfgs@;
        let mut rest = cfgs;
        let mut k: usize = 0;
        let n = rest.len();
        while k < n
            invariant
                k <= n,
                n == orig.len(),
                rest@ == orig.skip(k as int),
                self.wf(),
                forall|j: int| 0 <= j < k ==> spec_has(self.entries@, orig[j].name@),
            decreases n - k,
        {
            let cfg = rest.remove(0);
            proof {
                assert(orig.skip(k as int)[0] == orig[k as int]);
                assert(rest@ =~= orig.skip(k as int + 1));
            }
            let ghost pre = self.entries@;
            let ghost found = spec_find(pre, cfg.name@);
            proof {
                lemma_spec_find_works(pre, cfg.name@);
            }
            self.register(cfg);
            proof {
                let post = self.entries@;
                assert forall|j: int| 0 <= j < k + 1 implies spec_has(post, orig[j].name@) by {
                    let nm = orig[j].name@;
                    if j == k {
                        match found {
                            Some(i) => lemma_spec_find_present(post, nm, i),
                            None => lemma_spec_find_present(post, nm, pre.len() as int),
                        }
                    } else {
                        lemma_spec_find_works(pre, nm);
                        let idx = spec_find(pre, nm)->0;
                        match found {
                            Some(i) => {
                                if idx == i {
                                    assert(entry_name(post[i]) == cfg.name@);
                                    assert(entry_name(pre[i]) == cfg.name@);
                                    lemma_spec_find_present(post, nm, i);
                                } else {
                                    assert(post[idx] == pre[idx]);
                                    lemma_spec_find_present(post, nm, idx);
                                }
                            },
                            None => {
                                assert(post[idx] == pre[idx]);
                                lemma_spec_find_present(post, nm, idx);
                            },
                        }
                    }
                }
            }
            k = k + 1;
        }
        proof {
            assert(forall|j: int| 0 <= j < orig.len() ==> spec_has(self.entries@, orig[j].name@));
        }
    }

    /// Stops the named project: `NotFound` if absent, otherwise one stop
    /// request on its handle (`kill_ok` being the embedding program's kill
    /// result for an owned process).  A kill failure leaves the entry
    /// unchanged and is surfaced for a retry.
    pub fn stop_one(&mut self, name: &String, kill_ok: bool) -> (r: Result<(), DispatchError>)
        requires
            old(self).wf(),
        ensures
            final(self).wf(),
            match spec_find(old(self).entries@, name@) {
                None => (r matches Err(DispatchError::NotFound)) && *final(self) == *old(self),
                Some(i) => {
                    &&& final(self).entries@.len() == old(self).entries@.len()
                    &&& (forall|j: int|
                        0 <= j < old(self).entries@.len() && j != i ==> final(self).entries@[j]
                            == old(self).entries@[j])
                    &&& final(self).entries@[i] == (NodeLog {
                        project: spec_stop(old(self).entries@[i].project, kill_ok).0,
                        ..old(self).entries@[i]
                    })
                    &&& (r is Ok <==> spec_stop(old(self).entries@[i].project, kill_ok).1)
                    &&& (r is Err ==> r matches Err(DispatchError::Stop(StopError::KillFailed)))
                },
            },
    {
        let ghost pre = self.entries@;
        match self.find(name) {
            None => Err(DispatchError::NotFound),
            Some(i) => {
                proof {
                    lemma_spec_find_works(pre, name@);
                }
                let res = self.entries[i].project.stop(kill_ok);
                proof {
                    lemma_wf_update(pre, self.entries@, i as int);
                }
                match res {
                    Ok(()) => Ok(()),
                    Err(e) => Err(DispatchError::Stop(e)),
                }
            },
        }
    }

    /// First half of starting the named project: discards any owned process
    /// (handing back its pid for a best-effort kill) and resolves the
    /// invocation plan; `NotFound` if the name is absent.  The entry is left
    /// `Failed` when resolution fails, `Stopped` otherwise, awaiting the
    /// spawn outcome.
    pub fn begin_start_one(&mut self, name: &String, env: &EnvInfo) -> (r: Result<
        StartPrep,
        DispatchError,
    >)
        requires
            old(self).wf(),
        ensures
            final(self).wf(),
            match spec_find(old(self).entries@, name@) {
                None => (r matches Err(DispatchError::NotFound)) && *final(self) == *old(self),
                Some(i) => {
                    &&& final(self).entries@.len() == old(self).entries@.len()
                    &&& (forall|j: int|
                        0 <= j < old(self).entries@.len() && j != i ==> final(self).entries@[j]
                            == old(self).entries@[j])
                    &&& (r matches Ok(prep) && {
                        let p = old(self).entries@[i].project;
                        &&& prep.kill_pid == (match p.process {
                            Some(rec) => Some(rec.pid),
                            None => None::<u32>,
                        })
                        &&& (prep.plan is Ok ==> final(self).entries@[i] == (NodeLog {
                            project: spec_begin_clear(p),
                            ..old(self).entries@[i]
                        }))
                        &&& (prep.plan is Err ==> final(self).entries@[i] == (NodeLog {
                            project: spec_start_failed(p),
                            ..old(self).entries@[i]
                        }))
                        &&& match prep.plan {
                            Ok(plan) => resolve_err_of(
                                opt_view(p.project_info.node_version),
                                opt_view(env.home),
                                opt_view(env.path_var),
                            ) is None && plan_matches(
                                plan,
                                opt_view(p.project_info.node_version),
                                p.project_info.min_memory_usage,
                                p.project_info.start_command@,
                                opt_view(env.home),
                                opt_view(env.path_var),
                            ),
                            Err(e) => Some(e) == resolve_err_of(
                                opt_view(p.project_info.node_version),
                                opt_view(env.home),
                                opt_view(env.path_var),
                            ),
                        }
                    })
                },
            },
    {
        let ghost pre = self.entries@;
        match self.find(name) {
            None => Err(DispatchError::NotFound),
            Some(i) => {
                proof {
                    lemma_spec_find_works(pre, name@);
                }
                let prep = self.entries[i].project.start(env);
                proof {
                    lemma_wf_update(pre, self.entries@, i as int);
                }
                Ok(prep)
            },
        }
    }

    /// Second half of starting the named project: records the observed spawn
    /// outcome.  A successful spawn leaves the entry provisionally `Running`
    /// with the fresh pid; a failed one leaves it `Failed` and surfaces the
    /// OS message.
    pub fn finish_start_one(&mut self, name: &String, outcome: SpawnOutcome, now_ms: u64) -> (r:
        Result<(), DispatchError>)
        requires
            old(self).wf(),
            (match spec_find(old(self).entries@, name@) {
                Some(i) => old(self).entries@[i].project.process is None && old(
                    self,
                ).entries@[i].project.pid is None,
                None => true,
            }),
            (outcome matches SpawnOutcome::Spawned { pid } ==> pid != 0),
        ensures
            final(self).wf(),
            match spec_find(old(self).entries@, name@) {
                None => (r matches Err(DispatchError::NotFound)) && *final(self) == *old(self),
                Some(i) => {
                    &&& final(self).entries@.len() == old(self).entries@.len()
                    &&& (forall|j: int|
                        0 <= j < old(self).entries@.len() && j != i ==> final(self).entries@[j]
                            == old(self).entries@[j])
                    &&& match outcome {
                        SpawnOutcome::Spawned { pid } => final(self).entries@[i] == (NodeLog {
                            project: spec_spawned(old(self).entries@[i].project, pid, now_ms),
                            ..old(self).entries@[i]
                        }) && r is Ok,
                        SpawnOutcome::SpawnFailed { message } => final(self).entries@[i]
                            == (NodeLog {
                            project: spec_start_failed(old(self).entries@[i].project),
                            ..old(self).entries@[i]
                        }) && (r matches Err(DispatchError::Spawn(e)) && e.message == message),
                    }
                },
            },
    {
        let ghost pre = self.entries@;
        match self.find(name) {
            None => Err(DispatchError::NotFound),
            Some(i) => {
                proof {
                    lemma_spec_find_works(pre, name@);
                }
                let res = self.entries[i].project.finish_start(outcome, now_ms);
                proof {
                    lemma_wf_update(pre, self.entries@, i as int);
                }
                match res {
                    Ok(()) => Ok(()),
                    Err(e) => Err(DispatchError::Spawn(e)),
                }
            },
        }
    }

    /// Attaches the named project's streamer: claims the two output pipes
    /// exactly once and turns the streamer `Running`; any failed attempt is
    /// fatal for this start (the process is discarded for the embedding
    /// program to kill, and the status forced to `Failed`).
    pub fn attach_one(&mut self, name: &String) -> (r: Result<(), DispatchError>)
        requires
            old(self).wf(),
        ensures
            final(self).wf(),
            match spec_find(old(self).entries@, name@) {
                None => (r matches Err(DispatchError::NotFound)) && *final(self) == *old(self),
                Some(i) => {
                    &&& final(self).entries@.len() == old(self).entries@.len()
                    &&& (forall|j: int|
                        0 <= j < old(self).entries@.len() && j != i ==> final(self).entries@[j]
                            == old(self).entries@[j])
                    &&& final(self).entries@[i] == spec_attach(old(self).entries@[i]).0
                    &&& (match spec_attach(old(self).entries@[i]).1 {
                        Ok(()) => r is Ok,
                        Err(e) => r matches Err(DispatchError::Stream(se)) && se == e,
                    })
                },
            },
    {
        let ghost pre = self.entries@;
        match self.find(name) {
            None => Err(DispatchError::NotFound),
            Some(i) => {
                proof {
                    lemma_spec_find_works(pre, name@);
                }
                let res = self.entries[i].log_start();
                proof {
                    lemma_wf_update(pre, self.entries@, i as int);
                }
                match res {
                    Ok(()) => Ok(()),
                    Err(e) => Err(DispatchError::Stream(e)),
                }
            },
        }
    }

    /// Appends one decoded log line to the named project's ring buffer,
    /// tagged with the project name and the source pipe; `NotFound` if the
    /// name is absent.
    pub fn append_log_one(&mut self, name: &String, source: LogSource, line: &String) -> (r: Result<
        (),
        DispatchError,
    >)
        requires
            old(self).wf(),
        ensures
            final(self).wf(),
            match spec_find(old(self).entries@, name@) {
                None => (r matches Err(DispatchError::NotFound)) && *final(self) == *old(self),
                Some(i) => {
                    &&& final(self).entries@.len() == old(self).entries@.len()
                    &&& (forall|j: int|
                        0 <= j < old(self).entries@.len() && j != i ==> final(self).entries@[j]
                            == old(self).entries@[j])
                    &&& final(self).entries@[i].log_list.deep_view() == ring_push(
                        old(self).entries@[i].log_list.deep_view(),
                        spec_log_line(entry_name(old(self).entries@[i]), source, line@),
                        MAX_LOGS as nat,
                    )
                    &&& final(self).entries@[i].log_list@.len() <= MAX_LOGS
                    &&& final(self).entries@[i].project == old(self).entries@[i].project
                    &&& final(self).entries@[i].status == old(self).entries@[i].status
                    &&& r is Ok
                },
            },
    {
        let ghost pre = self.entries@;
        match self.find(name) {
            None => Err(DispatchError::NotFound),
            Some(i) => {
                proof {
                    lemma_spec_find_works(pre, name@);
                }
                let tagged = format_log_line(
                    &self.entries[i].project.project_info.name,
                    source,
                    line,
                );
                self.entries[i].append_log(tagged);
                proof {
                    lemma_wf_update(pre, self.entries@, i as int);
                }
                Ok(())
            },
        }
    }

    /// Stops every entry, in order, collecting the indices whose kill failed
    /// instead of aborting the sweep.  `kill_ok[i]` is the embedding
    /// program's kill result for entry `i`.
    pub fn shutdown_all(&mut self, kill_ok: &Vec<bool>) -> (failures: Vec<usize>)
        requires
            old(self).wf(),
            kill_ok@.len() == old(self).entries@.len(),
        ensures
            final(self).wf(),
            final(self).entries@.len() == old(self).entries@.len(),
            forall|i: int|
                0 <= i < old(self).entries@.len() ==> final(self).entries@[i] == (NodeLog {
                    project: spec_stop(old(self).entries@[i].project, kill_ok@[i]).0,
                    ..old(self).entries@[i]
                }),
            forall|k: int|
                0 <= k < failures@.len() ==> failures@[k] < old(self).entries@.len() && !spec_stop(
                    old(self).entries@[failures@[k] as int].project,
                    kill_ok@[failures@[k] as int],
                ).1,
            forall|i: int|
                0 <= i < old(self).entries@.len() && !spec_stop(
                    old(self).entries@[i].project,
                    kill_ok@[i],
                ).1 ==> failures@.contains(i as usize),
    {
        let ghost pre = self.entries@;
        let mut failures: Vec<usize> = Vec::new();
        let mut i: usize = 0;
        let n = self.entries.len();
        while i < n
            invariant
                i <= n,
                n == pre.len(),
                self.entries@.len() == pre.len(),
                kill_ok@.len() == pre.len(),
                old(self).wf(),
                pre == old(self).entries@,
                forall|j: int| i <= j < pre.len() ==> self.entries@[j] == pre[j],
                forall|j: int|
                    0 <= j < i ==> self.entries@[j] == (NodeLog {
                        project: spec_stop(pre[j].project, kill_ok@[j]).0,
                        ..pre[j]
                    }),
                forall|k: int|
                    0 <= k < failures@.len() ==> failures@[k] < i && !spec_stop(
                        pre[failures@[k] as int].project,
                        kill_ok@[failures@[k] as int],
                    ).1,
                forall|j: int|
                    0 <= j < i && !spec_stop(pre[j].project, kill_ok@[j]).1 ==> failures@.contains(
                        j as usize,
                    ),
            decreases n - i,
        {
            let res = self.entries[i].project.stop(kill_ok[i]);
            if res.is_err() {
                let ghost fpre = failures@;
                failures.push(i);
                proof {
                    assert(failures@ =~= fpre.push(i as usize));
                    assert forall|j: int|
                        0 <= j < i + 1 && !spec_stop(pre[j].project, kill_ok@[j]).1
                            implies failures@.contains(j as usize) by {
                        if j < i {
                            assert(fpre.contains(j as usize));
                            let k = choose|k: int| 0 <= k < fpre.len() && fpre[k] == j as usize;
                            assert(failures@[k] == j as usize);
                        } else {
                            assert(failures@[fpre.len() as int] == i as usize);
                        }
                    }
                }
            }
            i = i + 1;
        }
        proof {
            assert forall|j: int|
                0 <= j < self.entries@.len() implies self.entries@[j].wf() by {
                assert(pre[j].wf());
            }
        }
        failures
    }
}

/// The diagnostic line reporting host memory pressure, built from the two
/// readings the memory collaborator hands over.  Purely advisory: no start is
/// ever refused for low memory.
pub open spec fn spec_memory_report(free_mb: u64, total_mb: u64) -> Seq<char> {
    "free memory: "@ + dec_chars(free_mb as nat) + " MB of "@ + dec_chars(total_mb as nat)
        + " MB"@
}

/// Formats the host memory report shown before each start.
pub fn format_memory_report(free_mb: u64, total_mb: u64) -> (r: String)
    ensures
        r@ == spec_memory_report(free_mb, total_mb),
{
    let mut r = String::from_str("free memory: ");
    let free_dec = u64_to_dec(free_mb);
    r.append(free_dec.as_str());
    r.append(" MB of ");
    let total_dec = u64_to_dec(total_mb);
    r.append(total_dec.as_str());
    r.append(" MB");
    r
}

/// One whole start attempt on an entry, as the control loop drives it:
/// resolution (begin); when the plan resolved, the spawn outcome (finish);
/// when the spawn succeeded, the pipe attachment.
/// `plan_ok` says whether resolution succeeded and `spawn` carries the pid of
/// a successful spawn.
pub open spec fn spec_start_attempt(
    lg: NodeLog,
    plan_ok: bool,
    spawn: Option<u32>,
    now_ms: u64,
) -> NodeLog {
    if !plan_ok {
        NodeLog { project: spec_start_failed(lg.project), ..lg }
    } else {
        match spawn {
            None => NodeLog {
                project: spec_start_failed(spec_begin_clear(lg.project)),
                ..lg
            },
            Some(pid) => spec_attach(
                NodeLog { project: spec_spawned(spec_begin_clear(lg.project), pid, now_ms), ..lg },
            ).0,
        }
    }
}

/// After any full start attempt, a project's status is either `Running` —
/// exactly when the plan resolved and the spawn succeeded, the pipes of the
/// fresh process being necessarily unclaimed — or `Failed`; never `Stopped`
/// or `Unknown`.
pub proof fn lemma_start_attempt_status(lg: NodeLog, plan_ok: bool, spawn: Option<u32>, now_ms: u64)
    ensures
        spec_start_attempt(lg, plan_ok, spawn, now_ms).project.status is Running
            || spec_start_attempt(lg, plan_ok, spawn, now_ms).project.status is Failed,
        spec_start_attempt(lg, plan_ok, spawn, now_ms).project.status is Running <==> (plan_ok
            && spawn is Some),
        plan_ok && spawn is Some ==> spec_start_attempt(lg, plan_ok, spawn, now_ms).status
            is Running,
{
}

} // verus!
