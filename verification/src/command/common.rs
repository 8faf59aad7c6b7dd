//! The basic command kinds: the empty command, literal text, synchronous
//! shell commands, supervised pipe processes and concatenation, together
//! with the pipe-process supervision model.
//!
//! The pipe supervisor here holds the decision state only.  The driver loop
//! owns the OS processes and reader threads: each tick it reports exits and
//! captured lines into this model, asks it for respawn plans, performs each
//! plan in its stated order, and reports the outcome back.

use vstd::prelude::*;
use crate::event::string_eq;

verus! {

/// The empty command: always yields the empty string.
#[derive(Debug)]
pub struct NoneCommand;

/// A command that yields fixed text.
#[derive(Debug)]
pub struct LiteralCommand(pub String);

/// A command that concatenates the outputs of its children.
#[derive(Debug)]
pub struct MultiCommand(pub Vec<crate::command::Command>);

/// A command that runs a shell script synchronously and yields its output.
#[derive(Debug)]
pub struct ShellCommand(pub String);

/// A command that yields the latest complete output line of a supervised
/// long-running process.
#[derive(Debug)]
pub struct PipeCommand(pub String);

/// The lifecycle of one supervised process.
#[derive(Clone, Copy, Debug, PartialEq, Eq, Structural)]
pub enum PipeStatus {
    NotStarted,
    Running,
    Exited,
}

/// The supervision state of one distinct pipe command: its lifecycle, the
/// latest complete line its reader captured, the last line handed out, and
/// whether a respawn has been requested but not yet performed.
#[derive(Debug)]
pub struct PipeProcess {
    pub cmd: String,
    pub status: PipeStatus,
    pub reader_alive: bool,
    pub current_line: String,
    pub last_line: String,
    pub spawn_pending: bool,
}

/// One respawn to perform, in the order of its fields: kill the stale child
/// if one exists, join the old reader thread once the kill has unblocked
/// it, then spawn the new process and its reader.
#[derive(Debug)]
pub struct RespawnPlan {
    pub cmd: String,
    pub kill_old_child: bool,
    pub join_old_reader: bool,
    pub spawn_new: bool,
}

/// The supervisor over all distinct pipe commands.
#[derive(Debug)]
pub struct PipeSingleton {
    pub processes: Vec<PipeProcess>,
}

/// The first supervised process for a command string, if any.
pub open spec fn spec_find_process(ps: Seq<PipeProcess>, cmd: Seq<char>) -> Option<int>
    decreases ps.len(),
{
    if ps.len() == 0 {
        None
    } else if ps[0].cmd@ == cmd {
        Some(0)
    } else {
        match spec_find_process(ps.drop_first(), cmd) {
            Some(j) => Some(j + 1),
            None => None,
        }
    }
}

/// The respawn plan for one process state: a new process is spawned exactly
/// when the old one is not running; a stale child is killed exactly when one
/// exists; the old reader is joined exactly when one is alive, and always
/// before the new spawn.
pub open spec fn spec_plan(p: PipeProcess) -> RespawnPlan {
    RespawnPlan {
        cmd: p.cmd,
        kill_old_child: !(p.status is NotStarted),
        join_old_reader: p.reader_alive,
        spawn_new: true,
    }
}

impl PipeSingleton {
    /// An empty supervisor.
    pub fn new() -> (r: Self)
        ensures
            r.processes@.len() == 0,
    {
        Self { processes: Vec::new() }
    }

    /// Looks up the entry for a command string.
    fn find(&self, cmd: &String) -> (r: Option<usize>)
        ensures
            match r {
                Some(j) => j < self.processes@.len() && Some(j as int) == spec_find_process(
                    self.processes@,
                    cmd@,
                ),
                None => spec_find_process(self.processes@, cmd@) is None,
            },
    {
        let n = self.processes.len();
        let mut i: usize = 0;
        proof {
            assert(self.processes@.skip(0) =~= self.processes@);
        }
        while i < n
            invariant
                n == self.processes@.len(),
                i <= n,
                spec_find_process(self.processes@, cmd@) == match spec_find_process(
                    self.processes@.skip(i as int),
                    cmd@,
                ) {
                    Some(j) => Some(j + i),
                    None => None::<int>,
                },
            decreases n - i,
        {
            proof {
                assert(self.processes@.skip(i as int)[0] == self.processes@[i as int]);
                assert(self.processes@.skip(i as int).drop_first() =~= self.processes@.skip(i + 1));
            }
            if string_eq(&self.processes[i].cmd, cmd) {
                return Some(i);
            }
            i = i + 1;
        }
        proof {
            assert(self.processes@.skip(n as int) =~= Seq::<PipeProcess>::empty());
        }
        None
    }

    /// One evaluation of a pipe command: creates the entry on first use,
    /// requests a respawn when the process is not running and none is
    /// pending yet, and hands out the latest captured line together with
    /// whether it changed since the last evaluation.
    pub fn process(&mut self, cmd: &String) -> (r: (String, bool))
        ensures
            spec_find_process(final(self).processes@, cmd@) matches Some(j) && {
                let p = final(self).processes@[j];
                &&& r.0@ == p.current_line@
                &&& p.last_line@ == p.current_line@
                &&& p.spawn_pending == (match spec_find_process(old(self).processes@, cmd@) {
                    Some(i) => old(self).processes@[i].spawn_pending,
                    None => false,
                } || !(p.status is Running))
                &&& p.status == match spec_find_process(old(self).processes@, cmd@) {
                    Some(i) => old(self).processes@[i].status,
                    None => PipeStatus::NotStarted,
                }
                &&& r.1 == (match spec_find_process(old(self).processes@, cmd@) {
                    Some(i) => old(self).processes@[i].last_line@,
                    None => ""@,
                } != p.current_line@)
            },
    {
        let j = match self.find(cmd) {
            Some(j) => j,
            None => {
                let entry = PipeProcess {
                    cmd: cmd.clone(),
                    status: PipeStatus::NotStarted,
                    reader_alive: false,
                    current_line: String::new(),
                    last_line: String::new(),
                    spawn_pending: false,
                };
                proof {
                    lemma_find_process_push(self.processes@, entry, cmd@);
                }
                self.processes.push(entry);
                self.processes.len() - 1
            },
        };
        let ghost mid = self.processes@;
        proof {
            reveal_strlit("");
            lemma_find_process_props(old(self).processes@, cmd@);
            lemma_find_process_props(mid, cmd@);
        }
        let p = &mut self.processes[j];
        if !matches!(p.status, PipeStatus::Running) {
            p.spawn_pending = true;
        }
        let updated = !string_eq(&p.last_line, &p.current_line);
        p.last_line = p.current_line.clone();
        let line = p.current_line.clone();
        proof {
            assert(forall|k: int|
                0 <= k < mid.len() ==> mid[k].cmd@ == #[trigger] self.processes@[k].cmd@);
            lemma_find_process_same_names(mid, self.processes@, cmd@);
            reveal_strlit("");
            assert(spec_find_process(self.processes@, cmd@) == Some(j as int));
            assert(self.processes@[j as int].current_line == mid[j as int].current_line);
            match spec_find_process(old(self).processes@, cmd@) {
                Some(i) => {
                    assert(i == j as int);
                    assert(mid[j as int].last_line == old(self).processes@[i].last_line);
                },
                None => {
                    assert(mid[j as int].last_line@ =~= ""@);
                },
            }
            assert(updated == (mid[j as int].last_line@ != mid[j as int].current_line@));
        }
        (line, updated)
    }

    /// The respawns to perform now: one plan for each entry whose respawn is
    /// pending.  The pending marks are cleared; the driver reports each
    /// performed plan back through `report_spawned`.
    pub fn take_spawn_requests(&mut self) -> (r: Vec<RespawnPlan>)
        ensures
            final(self).processes@.len() == old(self).processes@.len(),
            forall|i: int|
                0 <= i < old(self).processes@.len() ==> {
                    let p = #[trigger] old(self).processes@[i];
                    final(self).processes@[i] == PipeProcess { spawn_pending: false, ..p }
                },
            r@.len() == old(self).processes@.filter(|p: PipeProcess| p.spawn_pending).len(),
            forall|k: int|
                0 <= k < r@.len() ==> #[trigger] r@[k] == spec_plan(
                    old(self).processes@.filter(|p: PipeProcess| p.spawn_pending)[k],
                ),
    {
        let mut r: Vec<RespawnPlan> = Vec::new();
        let n = self.processes.len();
        let ghost ps0 = self.processes@;
        let mut i: usize = 0;
        proof {
            reveal(Seq::filter);
            assert(ps0.take(0int).filter(|p: PipeProcess| p.spawn_pending) =~= Seq::<
                PipeProcess,
            >::empty());
        }
        while i < n
            invariant
                n == ps0.len(),
                i <= n,
                self.processes@.len() == ps0.len(),
                forall|k: int|
                    i <= k < ps0.len() ==> #[trigger] self.processes@[k] == ps0[k],
                forall|k: int|
                    0 <= k < i ==> #[trigger] self.processes@[k] == (PipeProcess {
                        spawn_pending: false,
                        ..ps0[k]
                    }),
                r@.len() == ps0.take(i as int).filter(|p: PipeProcess| p.spawn_pending).len(),
                forall|k: int|
                    0 <= k < r@.len() ==> #[trigger] r@[k] == spec_plan(
                        ps0.take(i as int).filter(|p: PipeProcess| p.spawn_pending)[k],
                    ),
            decreases n - i,
        {
            proof {
                reveal(Seq::filter);
                assert(ps0.take(i + 1).drop_last() =~= ps0.take(i as int));
                assert(ps0.take(i + 1).len() == i + 1);
                assert(ps0.take(i + 1).last() == ps0[i as int]);
            }
            let p = &self.processes[i];
            if p.spawn_pending {
                r.push(
                    RespawnPlan {
                        cmd: p.cmd.clone(),
                        kill_old_child: !matches!(p.status, PipeStatus::NotStarted),
                        join_old_reader: p.reader_alive,
                        spawn_new: true,
                    },
                );
            }
            proof {
                reveal(Seq::filter);
                assert(ps0.take(i + 1).filter(|p: PipeProcess| p.spawn_pending) =~= if ps0[i as int].spawn_pending {
                    ps0.take(i as int).filter(|p: PipeProcess| p.spawn_pending).push(ps0[i as int])
                } else {
                    ps0.take(i as int).filter(|p: PipeProcess| p.spawn_pending)
                });
            }
            let p = &mut self.processes[i];
            p.spawn_pending = false;
            i = i + 1;
        }
        proof {
            assert(ps0.take(n as int) =~= ps0);
        }
        r
    }

    /// Records the outcome of a performed respawn: on success the process is
    /// running with a fresh reader; on failure nothing is started, and the
    /// next evaluation requests a new attempt.
    pub fn report_spawned(&mut self, cmd: &String, ok: bool)
        ensures
            match spec_find_process(old(self).processes@, cmd@) {
                Some(j) => {
                    &&& final(self).processes@.len() == old(self).processes@.len()
                    &&& forall|k: int|
                        0 <= k < old(self).processes@.len() && k != j
                            ==> final(self).processes@[k] == old(self).processes@[k]
                    &&& final(self).processes@[j] == PipeProcess {
                        status: if ok {
                            PipeStatus::Running
                        } else {
                            PipeStatus::NotStarted
                        },
                        reader_alive: ok,
                        ..old(self).processes@[j]
                    }
                },
                None => *final(self) == *old(self),
            },
    {
        if let Some(j) = self.find(cmd) {
            let p = &mut self.processes[j];
            p.status = if ok {
                PipeStatus::Running
            } else {
                PipeStatus::NotStarted
            };
            p.reader_alive = ok;
        }
    }

    /// Records that the supervised process for a command exited; the next
    /// evaluation of the command requests a respawn.
    pub fn report_exit(&mut self, cmd: &String)
        ensures
            match spec_find_process(old(self).processes@, cmd@) {
                Some(j) => {
                    &&& final(self).processes@.len() == old(self).processes@.len()
                    &&& forall|k: int|
                        0 <= k < old(self).processes@.len() && k != j
                            ==> final(self).processes@[k] == old(self).processes@[k]
                    &&& final(self).processes@[j] == PipeProcess {
                        status: PipeStatus::Exited,
                        ..old(self).processes@[j]
                    }
                },
                None => *final(self) == *old(self),
            },
    {
        if let Some(j) = self.find(cmd) {
            let p = &mut self.processes[j];
            p.status = PipeStatus::Exited;
        }
    }

    /// Records the latest complete output line the reader captured.
    pub fn report_line(&mut self, cmd: &String, line: String)
        ensures
            match spec_find_process(old(self).processes@, cmd@) {
                Some(j) => {
                    &&& final(self).processes@.len() == old(self).processes@.len()
                    &&& forall|k: int|
                        0 <= k < old(self).processes@.len() && k != j
                            ==> final(self).processes@[k] == old(self).processes@[k]
                    &&& final(self).processes@[j] == PipeProcess {
                        current_line: line,
                        ..old(self).processes@[j]
                    }
                },
                None => *final(self) == *old(self),
            },
    {
        if let Some(j) = self.find(cmd) {
            let p = &mut self.processes[j];
            p.current_line = line;
        }
    }
}

/// What a found index means: it is in range and names the command.
proof fn lemma_find_process_props(ps: Seq<PipeProcess>, cmd: Seq<char>)
    ensures
        spec_find_process(ps, cmd) matches Some(j) ==> 0 <= j < ps.len() && ps[j].cmd@ == cmd,
    decreases ps.len(),
{
    if ps.len() > 0 && ps[0].cmd@ != cmd {
        lemma_find_process_props(ps.drop_first(), cmd);
    }
}

/// Two lists supervising the same command strings in the same places are
/// searched alike.
proof fn lemma_find_process_same_names(ps1: Seq<PipeProcess>, ps2: Seq<PipeProcess>, cmd: Seq<char>)
    requires
        ps1.len() == ps2.len(),
        forall|k: int| 0 <= k < ps1.len() ==> ps1[k].cmd@ == #[trigger] ps2[k].cmd@,
    ensures
        spec_find_process(ps1, cmd) == spec_find_process(ps2, cmd),
    decreases ps1.len(),
{
    if ps1.len() > 0 {
        assert(forall|k: int|
            0 <= k < ps1.drop_first().len() ==> ps1.drop_first()[k].cmd@ == #[trigger] ps2
                .drop_first()[k].cmd@);
        lemma_find_process_same_names(ps1.drop_first(), ps2.drop_first(), cmd);
    }
}

/// Appending a new entry for a command not yet supervised makes it findable
/// at the end.
proof fn lemma_find_process_push(ps: Seq<PipeProcess>, entry: PipeProcess, cmd: Seq<char>)
    requires
        spec_find_process(ps, cmd) is None,
        entry.cmd@ == cmd,
    ensures
        spec_find_process(ps.push(entry), cmd) == Some(ps.len() as int),
    decreases ps.len(),
{
    if ps.len() == 0 {
        assert(ps.push(entry)[0] == entry);
        assert(ps.push(entry).drop_first() =~= Seq::<PipeProcess>::empty());
    } else {
        assert(ps.push(entry)[0] == ps[0]);
        assert(ps.push(entry).drop_first() =~= ps.drop_first().push(entry));
        lemma_find_process_push(ps.drop_first(), entry, cmd);
    }
}

/// After a process exits, the supervisor requests exactly one respawn: the
/// next evaluation marks the entry pending, and the plans handed to the
/// driver then contain one plan for that command, which joins the old
/// reader (when one is alive) before the new process is spawned.
pub proof fn lemma_single_respawn(p: PipeProcess)
    requires
        p.status is Exited || p.status is NotStarted,
    ensures
        spec_plan(p).spawn_new,
        spec_plan(p).join_old_reader == p.reader_alive,
        p.status is Exited ==> spec_plan(p).kill_old_child,
{
}

} // verus!
