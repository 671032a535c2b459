//! The log streamer: claims a handle's output pipes exactly once, and keeps a
//! bounded ring buffer of the most recent log lines.  The concurrent pipe
//! readers themselves run in the embedding program; each decoded line is fed
//! back through `append_log`.

use std::collections::VecDeque;
use vstd::prelude::*;
use vstd::string::StringExecFns;
use crate::project::{spec_start_failed, ProcessRecord, Project, Status};

verus! {

/// Capacity of the per-project log ring buffer.
pub const MAX_LOGS: usize = 2000;

/// Which pipe a log line came from.
#[derive(Debug, Clone, Copy, PartialEq, Eq, Structural)]
pub enum LogSource {
    Stdout,
    Stderr,
}

/// Why attaching a streamer to a handle failed.
#[derive(Debug, Clone, Copy, PartialEq, Eq, Structural)]
pub enum StreamError {
    /// The handle owns no process at all.
    NoProcess,
    /// A pipe was already claimed (or never there): fatal for this start
    /// attempt; the process is stopped and the status forced to `Failed`.
    PipeUnavailable,
}

/// One project's log streamer: the owned handle, the ring buffer of recent
/// lines, and the streamer's own status, authoritative for "truly live".
#[derive(Debug)]
pub struct NodeLog {
    pub project: Project,
    pub log_list: VecDeque<String>,
    pub status: Status,
    pub max_logs: usize,
}

/// One ring-buffer step: append the line, evicting the oldest entry when the
/// buffer is at capacity.
pub open spec fn ring_push(buf: Seq<Seq<char>>, line: Seq<char>, cap: nat) -> Seq<Seq<char>> {
    if buf.len() < cap {
        buf.push(line)
    } else {
        buf.drop_first().push(line)
    }
}

/// All of `lines` pushed into the ring buffer in order.
pub open spec fn ring_push_all(buf: Seq<Seq<char>>, lines: Seq<Seq<char>>, cap: nat) -> Seq<
    Seq<char>,
>
    decreases lines.len(),
{
    if lines.len() == 0 {
        buf
    } else {
        ring_push_all(ring_push(buf, lines[0], cap), lines.drop_first(), cap)
    }
}

/// The at-most-`cap` most recent elements of `s`, in original order.
pub open spec fn last_up_to(s: Seq<Seq<char>>, cap: nat) -> Seq<Seq<char>> {
    if s.len() <= cap {
        s
    } else {
        s.skip(s.len() - cap)
    }
}

/// The state and result of one attach attempt on `lg`: with a process whose
/// two pipes are both unclaimed, the pipes are claimed and the streamer goes
/// `Running`; otherwise the attempt is fatal — the process is discarded and
/// both statuses forced to `Failed`.
pub open spec fn spec_attach(lg: NodeLog) -> (NodeLog, Result<(), StreamError>) {
    match lg.project.process {
        None => (
            NodeLog { project: spec_start_failed(lg.project), status: Status::Failed, ..lg },
            Err(StreamError::NoProcess),
        ),
        Some(rec) => {
            if rec.stdout_available && rec.stderr_available {
                (
                    NodeLog {
                        project: Project {
                            process: Some(
                                ProcessRecord {
                                    pid: rec.pid,
                                    stdout_available: false,
                                    stderr_available: false,
                                },
                            ),
                            ..lg.project
                        },
                        status: Status::Running,
                        ..lg
                    },
                    Ok(()),
                )
            } else {
                (
                    NodeLog {
                        project: spec_start_failed(lg.project),
                        status: Status::Failed,
                        ..lg
                    },
                    Err(StreamError::PipeUnavailable),
                )
            }
        },
    }
}

/// The tag line stored for one log event: the project name and the source
/// pipe, in front of the decoded line.
pub open spec fn spec_log_line(name: Seq<char>, source: LogSource, line: Seq<char>) -> Seq<char> {
    "["@ + name + (if source is Stdout {
        "] out: "@
    } else {
        "] err: "@
    }) + line
}

impl NodeLog {
    /// The streamer's structural invariant: the capacity is the fixed ring
    /// size, the buffer stays within it, and the owned handle is well formed.
    pub open spec fn wf(&self) -> bool {
        &&& self.max_logs == MAX_LOGS
        &&& self.log_list@.len() <= MAX_LOGS
        &&& self.project.wf()
    }

    /// A fresh streamer around a handle; its own status starts `Unknown`
    /// until attaching settles it.
    pub fn new(project: Project) -> (r: NodeLog)
        ensures
            r.project == project,
            r.log_list@.len() == 0,
            r.status == Status::Unknown,
            r.max_logs == MAX_LOGS,
            project.wf() ==> r.wf(),
    {
        NodeLog {
            project,
            log_list: VecDeque::with_capacity(MAX_LOGS),
            status: Status::Unknown,
            max_logs: MAX_LOGS,
        }
    }

    /// Sets the streamer's status.
    pub fn set_status(&mut self, status: Status)
        ensures
            *final(self) == (NodeLog { status, ..*old(self) }),
    {
        self.status = status;
    }

    /// Claims the handle's output pipes, exactly once per process lifetime.
    /// Succeeds if and only if a process is owned and neither pipe was
    /// claimed before; any other attempt is fatal for the start attempt (the
    /// process is discarded for the embedding program to kill, and the status
    /// is forced to `Failed`).
    pub fn log_start(&mut self) -> (r: Result<(), StreamError>)
        ensures
            *final(self) == spec_attach(*old(self)).0,
            r == spec_attach(*old(self)).1,
            r is Ok <==> (old(self).project.process matches Some(rec) && rec.stdout_available
                && rec.stderr_available),
            (old(self).project.process matches Some(rec) && !(rec.stdout_available
                && rec.stderr_available)) ==> r == Err::<(), StreamError>(
                StreamError::PipeUnavailable,
            ),
            r is Ok ==> final(self).status == Status::Running,
            r is Err ==> final(self).status == Status::Failed && final(self).project.status
                == Status::Failed,
            old(self).wf() ==> final(self).wf(),
    {
        match self.project.process {
            None => {
                self.project.status = Status::Failed;
                self.project.pid = None;
                self.status = Status::Failed;
                Err(StreamError::NoProcess)
            },
            Some(rec) => {
                if rec.stdout_available && rec.stderr_available {
                    self.project.process = Some(
                        ProcessRecord {
                            pid: rec.pid,
                            stdout_available: false,
                            stderr_available: false,
                        },
                    );
                    self.status = Status::Running;
                    Ok(())
                } else {
                    self.project.process = None;
                    self.project.pid = None;
                    self.project.status = Status::Failed;
                    self.status = Status::Failed;
                    Err(StreamError::PipeUnavailable)
                }
            },
        }
    }

    /// Appends one line to the ring buffer, evicting the oldest line when the
    /// buffer is full.  The buffer never exceeds its capacity.
    pub fn append_log(&mut self, line: String)
        requires
            old(self).wf(),
        ensures
            final(self).log_list.deep_view() == ring_push(
                old(self).log_list.deep_view(),
                line@,
                MAX_LOGS as nat,
            ),
            final(self).log_list@.len() <= MAX_LOGS,
            final(self).project == old(self).project,
            final(self).status == old(self).status,
            final(self).max_logs == old(self).max_logs,
            final(self).wf(),
    {
        let ghost pre = self.log_list.deep_view();
        if self.log_list.len() >= self.max_logs {
            let _ = self.log_list.pop_front();
            proof {
                assert(self.log_list.deep_view() =~= pre.drop_first());
            }
        }
        let ghost mid = self.log_list.deep_view();
        self.log_list.push_back(line);
        proof {
            assert(self.log_list.deep_view() =~= mid.push(line@));
            assert(self.log_list.deep_view() =~= ring_push(pre, line@, MAX_LOGS as nat));
        }
    }
}

/// Tags a decoded log line with its project name and source pipe.
pub fn format_log_line(name: &String, source: LogSource, line: &String) -> (r: String)
    ensures
        r@ == spec_log_line(name@, source, line@),
{
    let mut r = String::from_str("[");
    r.append(name.as_str());
    match source {
        LogSource::Stdout => r.append("] out: "),
        LogSource::Stderr => r.append("] err: "),
    }
    r.append(line.as_str());
    r
}

/// The ring buffer never exceeds its capacity, and after appending any
/// sequence of lines to a buffer within capacity, exactly the most recent
/// `cap` of all lines remain, in their original relative order.
pub proof fn lemma_ring_push_all(buf: Seq<Seq<char>>, lines: Seq<Seq<char>>, cap: nat)
    requires
        buf.len() <= cap,
        cap > 0,
    ensures
        ring_push_all(buf, lines, cap) == last_up_to(buf + lines, cap),
        ring_push_all(buf, lines, cap).len() <= cap,
    decreases lines.len(),
{
    if lines.len() == 0 {
        assert(buf + lines =~= buf);
        assert(last_up_to(buf + lines, cap) =~= buf);
    } else {
        let stepped = ring_push(buf, lines[0], cap);
        assert(stepped.len() <= cap);
        lemma_ring_push_all(stepped, lines.drop_first(), cap);
        if buf.len() < cap {
            assert(stepped + lines.drop_first() =~= buf + lines);
        } else {
            assert(stepped + lines.drop_first() =~= (buf + lines).skip(1));
            let all = buf + lines;
            assert(all.len() > cap);
            assert(last_up_to(all.skip(1), cap) =~= last_up_to(all, cap));
        }
    }
}

} // verus!
