//! The command registry: the closed set of command kinds a widget can run,
//! the shared state that stateful commands carry across ticks, and the
//! reading of commands from already-parsed configuration values.

use vstd::prelude::*;

pub mod alsa;
pub mod common;
pub mod state;
pub mod sysinfo;

use crate::command::alsa::{
    ALSAGetVolumeCommand, ALSASetVolumeCommand, ALSASingleton, VolumeChange, spec_volume_change,
    spec_card_volumes, spec_volume_percent,
};
use crate::command::common::{
    LiteralCommand, MultiCommand, NoneCommand, PipeCommand, ShellCommand, PipeSingleton,
    spec_find_process, PipeStatus,
};
use crate::command::state::{
    NextStateCommand, SetStateCommand, StateSingleton, spec_find_machine, spec_find_state,
    spec_next_current,
};
use crate::command::sysinfo::{
    CPUFreqCommand, CPUUsageCommand, MemoryInfoCommand, MemoryInfoType, MemoryInfoValue,
    NetInfoCommand, NetInfoTime, NetInfoType, NetInfoValue, SystemSingleton, spec_format_memory,
    spec_format_net,
};
use crate::utils::{spec_dec, spec_split, split_char};
use crate::event::string_eq;

verus! {

/// A command: what a widget runs to produce its text or as its action.
/// The kinds are a closed set, dispatched by pattern match.
#[derive(Debug)]
pub enum Command {
    Empty(NoneCommand),
    Literal(LiteralCommand),
    Shell(ShellCommand),
    Pipe(PipeCommand),
    Multi(MultiCommand),
    CpuUsage(CPUUsageCommand),
    CpuFreq(CPUFreqCommand),
    Memory(MemoryInfoCommand),
    Net(NetInfoCommand),
    AlsaGet(ALSAGetVolumeCommand),
    AlsaSet(ALSASetVolumeCommand),
    StateSet(SetStateCommand),
    StateNext(NextStateCommand),
}

/// A warning a shell command's run raised: a non-zero exit code, or
/// output on standard error.  A failed spawn is recorded with code -1.
/// Warnings are non-fatal: the command still yields its output, and the
/// driver reports the collected warnings each tick.
#[derive(Debug)]
pub struct ShellWarning {
    pub command: String,
    pub code: i32,
    pub stderr: String,
}

/// The registry of shared, stateful command backends: the named state
/// machines, the metric sampler, the pipe-process supervisor and the mixer
/// model, with the working directory for shell commands, the time of the
/// current tick, and the shell warnings collected since the driver last
/// took them.
pub struct CommandSharedState {
    pub states: StateSingleton,
    pub system: SystemSingleton,
    pub pipes: PipeSingleton,
    pub mixer: ALSASingleton,
    pub workdir: Option<String>,
    pub now_ms: u64,
    pub warnings: Vec<ShellWarning>,
}

impl CommandSharedState {
    /// A fresh registry: every backend starts empty, with nothing sampled,
    /// no machine defined, no process supervised.
    pub fn new() -> (r: Self)
        ensures
            r.states.machines@.len() == 0,
            r.pipes.processes@.len() == 0,
            r.mixer.volumes@.len() == 0,
            r.mixer.old_volume is None,
            r.mixer.pending_sets@.len() == 0,
            r.workdir is None,
            r.now_ms == 0,
            r.warnings@.len() == 0,
    {
        Self {
            states: StateSingleton::new(),
            system: SystemSingleton::new(),
            pipes: PipeSingleton::new(),
            mixer: ALSASingleton::new(),
            workdir: None,
            now_ms: 0,
            warnings: Vec::new(),
        }
    }
}

/// Relies on `run_script::run`: runs the script in a shell, in the given
/// working directory, and captures its exit code, standard output and
/// standard error; nothing on a spawn failure.
#[verifier::external_body]
fn run_shell(script: &String, workdir: &Option<String>) -> Option<(i32, String, String)> {
    let mut options = run_script::ScriptOptions::new();
    options.working_directory = workdir.as_ref().map(std::path::PathBuf::from);
    let args = vec![];
    match run_script::run(script.as_str(), &args, &options) {
        Ok(t) => Some(t),
        Err(_) => None,
    }
}

/// Whether any character of a string is visible: not one of the ASCII
/// control characters.  (Unlike full Unicode control detection, only the
/// ASCII range counts; control characters beyond it are treated as
/// visible.)
pub open spec fn spec_has_visible(s: Seq<char>) -> bool {
    exists|i: int| 0 <= i < s.len() && !((#[trigger] s[i]) < ' ' || s[i] == '\u{7f}')
}

/// Whether any character of a string is visible.
fn has_visible_text(s: &str) -> (r: bool)
    ensures
        r == spec_has_visible(s@),
{
    let n = s.unicode_len();
    let mut i: usize = 0;
    while i < n
        invariant
            n == s@.len(),
            i <= n,
            forall|k: int| 0 <= k < i ==> ((#[trigger] s@[k]) < ' ' || s@[k] == '\u{7f}'),
        decreases n - i,
    {
        let c = s.get_char(i);
        if !(c < ' ' || c == '\u{7f}') {
            return true;
        }
        i = i + 1;
    }
    false
}

/// The output of a command whose result is fixed by the configuration
/// alone: empty for the empty command, the text of a literal, and the
/// concatenation over a list of such commands.  Commands that consult the
/// world have no such output.
pub open spec fn spec_pure_output(c: Command) -> Option<Seq<char>>
    decreases c,
{
    match c {
        Command::Empty(_) => Some(Seq::<char>::empty()),
        Command::Literal(l) => Some(l.0@),
        Command::Multi(m) => spec_pure_concat(m.0@),
        _ => None,
    }
}

/// The nesting height of a command tree: list commands stand above their
/// children.
pub open spec fn spec_cmd_height(c: Command) -> nat
    decreases c,
{
    match c {
        Command::Multi(m) => (1 + spec_cmds_height(m.0@)) as nat,
        _ => 0nat,
    }
}

/// The summed height of a command list.
pub open spec fn spec_cmds_height(cs: Seq<Command>) -> nat
    decreases cs,
{
    if cs.len() == 0 {
        0nat
    } else {
        (spec_cmd_height(cs[0]) + spec_cmds_height(cs.drop_first())) as nat
    }
}

/// No member of a command list stands higher than the whole list.
proof fn lemma_cmds_height_elem(cs: Seq<Command>, i: int)
    requires
        0 <= i < cs.len(),
    ensures
        spec_cmd_height(cs[i]) <= spec_cmds_height(cs),
    decreases cs.len(),
{
    if i > 0 {
        lemma_cmds_height_elem(cs.drop_first(), i - 1);
    }
}

/// The concatenated pure output of a command list, when every member has
/// one.
pub open spec fn spec_pure_concat(cs: Seq<Command>) -> Option<Seq<char>>
    decreases cs,
{
    if cs.len() == 0 {
        Some(Seq::<char>::empty())
    } else {
        match (spec_pure_output(cs[0]), spec_pure_concat(cs.drop_first())) {
            (Some(a), Some(b)) => Some(a + b),
            _ => None,
        }
    }
}

impl Command {
    /// Executes the command against the shared registry and yields its
    /// display text.  Execution is total: a failing backend yields an
    /// error marker or empty text, never a panic.
    pub fn execute(&self, state: &mut CommandSharedState) -> (r: String)
        ensures
            spec_pure_output(*self) matches Some(o) ==> r@ == o && *final(state) == *old(state),
            final(state).warnings@.len() >= old(state).warnings@.len() && final(state).warnings@.take(old(state).warnings@.len() as int) == old(state).warnings@,
            self matches Command::Shell(sc) ==> final(state).states == old(state).states
                && final(state).system == old(state).system && final(state).pipes == old(state).pipes && final(state).mixer == old(state).mixer && final(state).workdir == old(state).workdir && final(state).now_ms == old(state).now_ms && final(state).warnings@.len()
                <= old(state).warnings@.len() + 1 && (forall|k: int|
                old(state).warnings@.len() <= k < final(state).warnings@.len() ==> (
                #[trigger] final(state).warnings@[k]).command@ == sc.0@),
            self is StateSet || self is StateNext ==> r@ == ""@
                && final(state).system == old(state).system && final(state).pipes == old(state).pipes && final(state).mixer == old(state).mixer,
            self matches Command::StateSet(c) ==> spec_states_set_rel(
                old(state).states,
                final(state).states,
                c.0@,
                c.1@,
            ),
            self matches Command::StateNext(c) ==> spec_states_next_rel(
                old(state).states,
                final(state).states,
                c.0@,
                c.1,
            ),
            self matches Command::AlsaGet(c) ==> *final(state) == *old(state) && r@ == match
                spec_card_volumes(old(state).mixer, c.0) {
                Some((v, vmin, vmax)) => match spec_volume_percent(v, vmin, vmax) {
                    Some(p) => spec_dec(p as nat).push('%'),
                    None => "ERR"@,
                },
                None => "ERR"@,
            },
            self is AlsaSet ==> r@ == ""@ && final(state).states == old(state).states && final(state).system == old(state).system && final(state).pipes == old(state).pipes && final(state).mixer.volumes == old(state).mixer.volumes && final(state).mixer.old_volume == old(state).mixer.old_volume,
            self matches Command::Pipe(p) ==> final(state).states == old(state).states && final(state).system == old(state).system && final(state).mixer == old(state).mixer
                && (spec_find_process(final(state).pipes.processes@, p.0@) matches Some(j) && ({
                let pr = final(state).pipes.processes@[j];
                r@ == pr.current_line@ && (!(pr.status is Running) ==> pr.spawn_pending)
            })),
            self is CpuUsage || self is CpuFreq || self is Memory || self is Net ==> final(state).states == old(state).states && final(state).pipes == old(state).pipes && final(state).mixer == old(state).mixer,
            self matches Command::Memory(c) ==> (r@ == "ERR"@ || exists|u: u64, t: u64|
                r@ == spec_format_memory(c.val, u, t)),
            self matches Command::Net(c) ==> (r@ == "ERR"@ || exists|v: u64|
                r@ == spec_format_net(v, c.time, c.val)),
        decreases spec_cmd_height(*self),
    {
        proof {
            reveal_strlit("");
        }
        match self {
            Command::Empty(_) => String::new(),
            Command::Literal(l) => l.0.clone(),
            Command::Shell(s) => {
                match run_shell(&s.0, &state.workdir) {
                    Some((code, output, error)) => {
                        if code != 0 || has_visible_text(error.as_str()) {
                            let ghost w0 = state.warnings@;
                            state.warnings.push(
                                ShellWarning { command: s.0.clone(), code, stderr: error },
                            );
                            proof {
                                assert(state.warnings@.take(w0.len() as int) =~= w0);
                            }
                        }
                        output
                    },
                    None => {
                        let ghost w0 = state.warnings@;
                        state.warnings.push(
                            ShellWarning { command: s.0.clone(), code: -1, stderr: String::new() },
                        );
                        proof {
                            assert(state.warnings@.take(w0.len() as int) =~= w0);
                        }
                        String::new()
                    },
                }
            },
            Command::Pipe(p) => state.pipes.process(&p.0).0,
            Command::Multi(m) => {
                let mut out = String::new();
                let n = m.0.len();
                let mut i: usize = 0;
                proof {
                    assert(m.0@.skip(0) =~= m.0@);
                    if spec_pure_concat(m.0@) is Some {
                        assert(out@ + spec_pure_concat(m.0@)->Some_0 =~= spec_pure_concat(
                            m.0@,
                        )->Some_0);
                    }
                    assert(*self == Command::Multi(*m));
                }
                while i < n
                    invariant
                        *self == Command::Multi(*m),
                        n == m.0@.len(),
                        i <= n,
                        state.warnings@.len() >= old(state).warnings@.len(),
                        state.warnings@.take(old(state).warnings@.len() as int) == old(
                            state,
                        ).warnings@,
                        spec_pure_concat(m.0@) matches Some(o) ==> *state == *old(state) && (
                        spec_pure_concat(m.0@.skip(i as int)) matches Some(t) && out@ + t == o),
                    decreases n - i,
                {
                    proof {
                        assert(m.0@.skip(i as int)[0] == m.0@[i as int]);
                        assert(m.0@.skip(i as int).drop_first() =~= m.0@.skip(i + 1));
                        lemma_cmds_height_elem(m.0@, i as int);
                        assert(spec_cmd_height(m.0@[i as int]) < spec_cmd_height(*self));
                    }
                    let ghost wmid = state.warnings@;
                    let piece = (&m.0[i]).execute(state);
                    out.append(piece.as_str());
                    proof {
                        assert(state.warnings@.take(old(state).warnings@.len() as int)
                            =~= wmid.take(old(state).warnings@.len() as int));
                    }
                    proof {
                        if spec_pure_concat(m.0@) is Some {
                            let o = spec_pure_concat(m.0@)->Some_0;
                            assert(spec_pure_output(m.0@[i as int]) is Some);
                            assert(out@ + spec_pure_concat(m.0@.skip(i + 1))->Some_0 =~= o);
                        }
                    }
                    i = i + 1;
                }
                proof {
                    assert(m.0@.skip(n as int) =~= Seq::<Command>::empty());
                    if spec_pure_concat(m.0@) is Some {
                        assert(out@ =~= spec_pure_concat(m.0@)->Some_0);
                    }
                }
                out
            },
            Command::CpuUsage(c) => {
                let now = state.now_ms;
                c.execute(&mut state.system, now)
            },
            Command::CpuFreq(c) => {
                let now = state.now_ms;
                c.execute(&mut state.system, now)
            },
            Command::Memory(c) => {
                let now = state.now_ms;
                let workdir = state.workdir.clone();
                c.execute(&mut state.system, now, &workdir)
            },
            Command::Net(c) => {
                let now = state.now_ms;
                c.execute(&mut state.system, now)
            },
            Command::AlsaGet(c) => state.mixer.get_volume_percent(&c.0),
            Command::AlsaSet(c) => {
                state.mixer.set_volume_percent(&c.0, &c.1);
                String::new()
            },
            Command::StateSet(c) => {
                state.states.set(&c.0, &c.1);
                String::new()
            },
            Command::StateNext(c) => {
                state.states.next(&c.0, c.1);
                String::new()
            },
        }
    }

    /// Whether the command's source changed since this was last asked: a
    /// cheap change signal, available only for pipe processes and mixer
    /// volumes; every other kind reports no change and is re-checked by
    /// value.
    pub fn updated(&self, state: &mut CommandSharedState) -> (r: bool)
        ensures
            !(self is Pipe) && !(self is AlsaGet) ==> r == false && *final(state) == *old(state),
            final(state).states == old(state).states,
            final(state).system == old(state).system,
    {
        match self {
            Command::Pipe(p) => state.pipes.process(&p.0).1,
            Command::AlsaGet(c) => state.mixer.has_volume_changed(&c.0),
            _ => false,
        }
    }
}

/// How a `set` command changes the machines: the named machine moves to
/// the named state, where both exist; anything else stays as it was.
pub open spec fn spec_states_set_rel(
    before: StateSingleton,
    after: StateSingleton,
    machine: Seq<char>,
    statename: Seq<char>,
) -> bool {
    match spec_find_machine(before.machines@, machine) {
        Some(j) => {
            &&& after.machines@.len() == before.machines@.len()
            &&& forall|k: int|
                0 <= k < before.machines@.len() && k != j ==> after.machines@[k]
                    == before.machines@[k]
            &&& after.machines@[j].name == before.machines@[j].name
            &&& after.machines@[j].states == before.machines@[j].states
            &&& after.machines@[j].current == match spec_find_state(
                before.machines@[j].states@,
                statename,
            ) {
                Some(k) => if 0 <= k <= i32::MAX {
                    k as i32
                } else {
                    before.machines@[j].current
                },
                None => before.machines@[j].current,
            }
        },
        None => after == before,
    }
}

/// How a `next` command changes the machines: the named machine advances
/// by the configured number of steps, wrapping around its state count.
pub open spec fn spec_states_next_rel(
    before: StateSingleton,
    after: StateSingleton,
    machine: Seq<char>,
    traverse: i32,
) -> bool {
    match spec_find_machine(before.machines@, machine) {
        Some(j) => {
            &&& after.machines@.len() == before.machines@.len()
            &&& forall|k: int|
                0 <= k < before.machines@.len() && k != j ==> after.machines@[k]
                    == before.machines@[k]
            &&& after.machines@[j].name == before.machines@[j].name
            &&& after.machines@[j].states == before.machines@[j].states
            &&& after.machines@[j].current == spec_next_current(before.machines@[j], traverse)
        },
        None => after == before,
    }
}

/// A configuration error: the message names what could not be read.
/// Configuration errors are fatal at startup; the driver reports the
/// message and exits before the main loop starts.
#[derive(Debug)]
pub struct ConfigError(pub String);

impl ConfigError {
    /// The error's message.
    pub fn message(&self) -> (r: &String)
        ensures
            r == self.0,
    {
        &self.0
    }
}

/// The fields a command object can configure.
#[derive(Debug)]
pub struct CommandObject {
    pub kind: Option<String>,
    pub core: Option<usize>,
    pub network: Option<String>,
    pub mountpoint: Option<String>,
    pub card: Option<String>,
    pub volume: Option<String>,
    pub state_machine: Option<String>,
    pub state: Option<String>,
    pub traverse: Option<i32>,
}

/// An already-parsed configuration value a command is read from: text, a
/// list of values, or a command object.
#[derive(Debug)]
pub enum RawValue {
    Text(String),
    List(Vec<RawValue>),
    Object(CommandObject),
}

/// The nesting height of a configuration value: a list stands above its
/// members.
pub open spec fn spec_raw_height(v: RawValue) -> nat
    decreases v,
{
    match v {
        RawValue::List(items) => (1 + spec_raws_height(items@)) as nat,
        _ => 0nat,
    }
}

/// The summed height of a value list.
pub open spec fn spec_raws_height(items: Seq<RawValue>) -> nat
    decreases items,
{
    if items.len() == 0 {
        0nat
    } else {
        (spec_raw_height(items[0]) + spec_raws_height(items.drop_first())) as nat
    }
}

/// No member of a value list stands higher than the whole list.
proof fn lemma_raws_height_elem(items: Seq<RawValue>, i: int)
    requires
        0 <= i < items.len(),
    ensures
        spec_raw_height(items[i]) <= spec_raws_height(items),
    decreases items.len(),
{
    if i > 0 {
        lemma_raws_height_elem(items.drop_first(), i - 1);
    }
}

/// Whether a character is one of the whitespace characters a command
/// string may begin with.
pub open spec fn spec_is_space(c: char) -> bool {
    c == ' ' || c == '\t' || c == '\n' || c == '\r'
}

/// The first non-whitespace position of a string, if any.
pub open spec fn spec_first_non_space(s: Seq<char>) -> Option<int>
    decreases s.len(),
{
    if s.len() == 0 {
        None
    } else if !spec_is_space(s[0]) {
        Some(0)
    } else {
        match spec_first_non_space(s.drop_first()) {
            Some(j) => Some(j + 1),
            None => None,
        }
    }
}

/// Equality of optional strings by their character sequences.
pub open spec fn spec_opt_str_eq(a: Option<String>, b: Option<String>) -> bool {
    match (a, b) {
        (Some(x), Some(y)) => x@ == y@,
        (None, None) => true,
        _ => false,
    }
}

/// Whether a configuration value reads as a command: text always does; a
/// list does when all its members do; an object does when its `type`
/// names a known command kind and the fields that kind requires are
/// present.
pub open spec fn spec_parseable(v: RawValue) -> bool
    decreases v,
{
    match v {
        RawValue::Text(_) => true,
        RawValue::List(items) => spec_all_parseable(items@),
        RawValue::Object(o) => match o.kind {
            Some(t) => {
                let words = spec_split(t@, '_');
                if words[0] == "cpu"@ {
                    words.len() >= 2 && (words[1] == "usage"@ || words[1] == "freq"@)
                } else if words[0] == "mem"@ || words[0] == "swap"@ || words[0] == "disk"@ {
                    words.len() >= 2 && (words[1] == "usage"@ || words[1] == "percent"@
                        || words[1] == "total"@ || words[1] == "free"@)
                } else if words[0] == "net"@ {
                    &&& words.len() >= 3
                    &&& (words[1] == "upload"@ || words[1] == "download"@)
                    &&& (words[2] == "bits"@ || words[2] == "bytes"@ || words[2] == "packets"@
                        || words[2] == "errors"@)
                    &&& (words.len() == 3 || (words.len() == 4 && (words[3] == "since"@
                        || words[3] == "total"@)))
                } else if words[0] == "alsa"@ {
                    words.len() >= 3 && words[2] == "volume"@ && (words[1] == "get"@ || words[1]
                        == "set"@)
                } else if words[0] == "state"@ {
                    words.len() >= 2 && o.state_machine is Some && (words[1] == "next"@ || (
                    words[1] == "set"@ && o.state is Some))
                } else {
                    false
                }
            },
            None => false,
        },
    }
}

/// Whether every member of a list reads as a command.
pub open spec fn spec_all_parseable(items: Seq<RawValue>) -> bool
    decreases items,
{
    if items.len() == 0 {
        true
    } else {
        spec_parseable(items[0]) && spec_all_parseable(items.drop_first())
    }
}

/// What command a configuration value reads as.  Text yields the empty
/// command when blank, a literal after a leading `#`, a supervised pipe
/// after a leading `|`, and otherwise the whole text as a shell command.
/// A list yields the concatenation of its members; an object the command
/// its `type` and fields configure.
pub open spec fn spec_cmd_matches(v: RawValue, c: Command) -> bool
    decreases v,
{
    match v {
        RawValue::Text(s) => match spec_first_non_space(s@) {
            None => c is Empty,
            Some(i) => if s@[i] == '#' {
                c matches Command::Literal(l) && l.0@ == s@.skip(i + 1)
            } else if s@[i] == '|' {
                c matches Command::Pipe(p) && p.0@ == s@.skip(i + 1)
            } else {
                c matches Command::Shell(sh) && sh.0@ == s@
            },
        },
        RawValue::List(items) => c matches Command::Multi(m) && m.0@.len() == items@.len()
            && spec_cmds_match(items@, m.0@),
        RawValue::Object(o) => match o.kind {
            Some(t) => {
                let words = spec_split(t@, '_');
                if words[0] == "cpu"@ {
                    if words.len() >= 2 && words[1] == "usage"@ {
                        c matches Command::CpuUsage(u) && u.0 == o.core
                    } else {
                        c matches Command::CpuFreq(u) && u.0 == o.core
                    }
                } else if words[0] == "mem"@ || words[0] == "swap"@ || words[0] == "disk"@ {
                    c matches Command::Memory(mc) && (match mc.ty {
                        MemoryInfoType::RAM => words[0] == "mem"@,
                        MemoryInfoType::Swap => words[0] == "swap"@,
                        MemoryInfoType::Disk(mnt) => words[0] == "disk"@ && spec_opt_str_eq(
                            mnt,
                            o.mountpoint,
                        ),
                    }) && words.len() >= 2 && mc.val == (if words[1] == "usage"@ {
                        MemoryInfoValue::Usage
                    } else if words[1] == "percent"@ {
                        MemoryInfoValue::Percent
                    } else if words[1] == "total"@ {
                        MemoryInfoValue::Total
                    } else {
                        MemoryInfoValue::Free
                    })
                } else if words[0] == "net"@ {
                    c matches Command::Net(nc) && words.len() >= 3 && spec_opt_str_eq(
                        nc.name,
                        o.network,
                    ) && nc.ty == (if words[1] == "upload"@ {
                        NetInfoType::Upload
                    } else {
                        NetInfoType::Download
                    }) && nc.val == (if words[2] == "bits"@ {
                        NetInfoValue::Bits
                    } else if words[2] == "bytes"@ {
                        NetInfoValue::Bytes
                    } else if words[2] == "packets"@ {
                        NetInfoValue::Packets
                    } else {
                        NetInfoValue::Errors
                    }) && nc.time == (if words.len() >= 4 && words[3] == "since"@ {
                        NetInfoTime::Since
                    } else if words.len() >= 4 && words[3] == "total"@ {
                        NetInfoTime::Total
                    } else {
                        NetInfoTime::PerSecond
                    })
                } else if words[0] == "alsa"@ {
                    if words.len() >= 2 && words[1] == "get"@ {
                        c matches Command::AlsaGet(g) && spec_opt_str_eq(g.0, o.card)
                    } else {
                        c matches Command::AlsaSet(sc) && spec_opt_str_eq(sc.0, o.card) && sc.1
                            == spec_volume_change(
                            match o.volume {
                                Some(vs) => vs@,
                                None => ""@,
                            },
                        )
                    }
                } else {
                    if words.len() >= 2 && words[1] == "next"@ {
                        c matches Command::StateNext(sn) && (o.state_machine matches Some(sm)
                            && sn.0@ == sm@) && sn.1 == (match o.traverse {
                            Some(tr) => tr,
                            None => 1i32,
                        })
                    } else {
                        c matches Command::StateSet(ss) && (o.state_machine matches Some(sm)
                            && ss.0@ == sm@) && (o.state matches Some(st) && ss.1@ == st@)
                    }
                }
            },
            None => false,
        },
    }
}

/// Whether the members of a list read as the members of a command list,
/// in order.
pub open spec fn spec_cmds_match(items: Seq<RawValue>, cs: Seq<Command>) -> bool
    decreases items,
{
    if items.len() == 0 {
        true
    } else {
        cs.len() > 0 && spec_cmd_matches(items[0], cs[0]) && spec_cmds_match(
            items.drop_first(),
            cs.drop_first(),
        )
    }
}

/// The first non-whitespace position of a string, if any.
fn first_non_space(s: &str) -> (r: Option<usize>)
    ensures
        match r {
            Some(j) => Some(j as int) == spec_first_non_space(s@) && j < s@.len(),
            None => spec_first_non_space(s@) is None,
        },
{
    let n = s.unicode_len();
    let mut i: usize = 0;
    proof {
        assert(s@.skip(0) =~= s@);
    }
    while i < n
        invariant
            n == s@.len(),
            i <= n,
            spec_first_non_space(s@) == match spec_first_non_space(s@.skip(i as int)) {
                Some(j) => Some(j + i),
                None => None::<int>,
            },
        decreases n - i,
    {
        proof {
            assert(s@.skip(i as int)[0] == s@[i as int]);
            assert(s@.skip(i as int).drop_first() =~= s@.skip(i + 1));
        }
        let c = s.get_char(i);
        if !(c == ' ' || c == '\t' || c == '\n' || c == '\r') {
            return Some(i);
        }
        i = i + 1;
    }
    proof {
        assert(s@.skip(n as int) =~= Seq::<char>::empty());
    }
    None
}

/// Reads a configuration value as a command, or reports the
/// configuration error that makes it unreadable.
pub fn new_command(val: &RawValue) -> (r: Result<Command, ConfigError>)
    ensures
        match r {
            Ok(c) => spec_parseable(*val) && spec_cmd_matches(*val, c),
            Err(_) => !spec_parseable(*val),
        },
    decreases *val,
{
    match val {
        RawValue::Text(s) => {
            match first_non_space(s.as_str()) {
                None => Ok(Command::Empty(NoneCommand)),
                Some(i) => {
                    let n = s.as_str().unicode_len();
                    let c = s.as_str().get_char(i);
                    if c == '#' {
                        let rest = String::from_str(s.as_str().substring_char(i + 1, n));
                        Ok(Command::Literal(LiteralCommand(rest)))
                    } else if c == '|' {
                        let rest = String::from_str(s.as_str().substring_char(i + 1, n));
                        Ok(Command::Pipe(PipeCommand(rest)))
                    } else {
                        Ok(Command::Shell(ShellCommand(s.clone())))
                    }
                },
            }
        },
        RawValue::List(items) => {
            let mut cs: Vec<Command> = Vec::new();
            let n = items.len();
            let mut i: usize = 0;
            proof {
                assert(items@.skip(0) =~= items@);
            }
            while i < n
                invariant
                    *val == RawValue::List(*items),
                    n == items@.len(),
                    i <= n,
                    cs@.len() == i,
                    spec_cmds_match(items@.take(i as int), cs@),
                    spec_all_parseable(items@.take(i as int)),
                decreases n - i,
            {
                proof {
                    lemma_raws_height_elem(items@, i as int);
                    assert(spec_raw_height(items@[i as int]) < spec_raw_height(*val));
                }
                let ghost cs_pre = cs@;
                match new_command(&items[i]) {
                    Ok(c) => {
                        cs.push(c);
                        proof {
                            lemma_match_push(
                                items@.take(i as int),
                                cs_pre,
                                items@[i as int],
                                c,
                            );
                            assert(items@.take(i + 1) =~= items@.take(i as int).push(
                                items@[i as int],
                            ));
                            assert(cs@ =~= cs_pre.push(c));
                            lemma_parseable_push(items@.take(i as int), items@[i as int]);
                        }
                    },
                    Err(e) => {
                        proof {
                            lemma_unparseable_member(items@, i as int);
                        }
                        return Err(e);
                    },
                }
                i = i + 1;
            }
            proof {
                assert(items@.take(n as int) =~= items@);
            }
            Ok(Command::Multi(MultiCommand(cs)))
        },
        RawValue::Object(o) => new_object_command(o),
    }
}

/// A list with an unreadable member is unreadable.
proof fn lemma_unparseable_member(items: Seq<RawValue>, i: int)
    requires
        0 <= i < items.len(),
        !spec_parseable(items[i]),
    ensures
        !spec_all_parseable(items),
    decreases items.len(),
{
    if items.len() > 0 && i > 0 {
        lemma_unparseable_member(items.drop_first(), i - 1);
    }
}

/// Extending matched lists by one matching pair keeps them matched.
proof fn lemma_match_push(items: Seq<RawValue>, cs: Seq<Command>, v: RawValue, c: Command)
    requires
        spec_cmds_match(items, cs),
        items.len() == cs.len(),
        spec_cmd_matches(v, c),
    ensures
        spec_cmds_match(items.push(v), cs.push(c)),
    decreases items.len(),
{
    if items.len() == 0 {
        assert(items.push(v)[0] == v);
        assert(cs.push(c)[0] == c);
        assert(items.push(v).drop_first() =~= Seq::<RawValue>::empty());
        assert(cs.push(c).drop_first() =~= Seq::<Command>::empty());
        assert(spec_cmds_match(Seq::<RawValue>::empty(), Seq::<Command>::empty()));
    } else {
        assert(items.push(v)[0] == items[0]);
        assert(cs.push(c)[0] == cs[0]);
        assert(items.push(v).drop_first() =~= items.drop_first().push(v));
        assert(cs.push(c).drop_first() =~= cs.drop_first().push(c));
        lemma_match_push(items.drop_first(), cs.drop_first(), v, c);
    }
}

/// Extending a readable list by a readable member keeps it readable.
proof fn lemma_parseable_push(items: Seq<RawValue>, v: RawValue)
    requires
        spec_all_parseable(items),
        spec_parseable(v),
    ensures
        spec_all_parseable(items.push(v)),
    decreases items.len(),
{
    if items.len() == 0 {
        assert(items.push(v)[0] == v);
        assert(items.push(v).drop_first() =~= Seq::<RawValue>::empty());
        assert(spec_all_parseable(Seq::<RawValue>::empty()));
    } else {
        assert(items.push(v)[0] == items[0]);
        assert(items.push(v).drop_first() =~= items.drop_first().push(v));
        lemma_parseable_push(items.drop_first(), v);
        assert(spec_all_parseable(items.push(v).drop_first()));
    }
}

/// Reads a command object by its `type` into the command it configures.
fn new_object_command(o: &CommandObject) -> (r: Result<Command, ConfigError>)
    ensures
        match r {
            Ok(c) => spec_parseable(RawValue::Object(*o)) && spec_cmd_matches(
                RawValue::Object(*o),
                c,
            ),
            Err(_) => !spec_parseable(RawValue::Object(*o)),
        },
{
    proof {
        reveal_strlit("cpu");
        reveal_strlit("usage");
        reveal_strlit("freq");
        reveal_strlit("mem");
        reveal_strlit("swap");
        reveal_strlit("disk");
        reveal_strlit("percent");
        reveal_strlit("total");
        reveal_strlit("free");
        reveal_strlit("net");
        reveal_strlit("upload");
        reveal_strlit("download");
        reveal_strlit("bits");
        reveal_strlit("bytes");
        reveal_strlit("packets");
        reveal_strlit("errors");
        reveal_strlit("since");
        reveal_strlit("alsa");
        reveal_strlit("get");
        reveal_strlit("set");
        reveal_strlit("volume");
        reveal_strlit("state");
        reveal_strlit("next");
        reveal_strlit("");
    }
    let t = match &o.kind {
        Some(t) => t,
        None => {
            return Err(ConfigError(String::from_str("command object without a type")));
        },
    };
    let words = split_char(t.as_str(), '_');
    proof {
        crate::utils::lemma_split_nonempty(t@, '_');
    }
    let unknown = Err::<Command, ConfigError>(ConfigError(String::from_str("unknown command type")));
    if string_eq(&words[0], &String::from_str("cpu")) {
        if words.len() >= 2 && string_eq(&words[1], &String::from_str("usage")) {
            Ok(Command::CpuUsage(CPUUsageCommand(o.core)))
        } else if words.len() >= 2 && string_eq(&words[1], &String::from_str("freq")) {
            Ok(Command::CpuFreq(CPUFreqCommand(o.core)))
        } else {
            unknown
        }
    } else if string_eq(&words[0], &String::from_str("mem")) || string_eq(
        &words[0],
        &String::from_str("swap"),
    ) || string_eq(&words[0], &String::from_str("disk")) {
        let ty = if string_eq(&words[0], &String::from_str("mem")) {
            MemoryInfoType::RAM
        } else if string_eq(&words[0], &String::from_str("swap")) {
            MemoryInfoType::Swap
        } else {
            MemoryInfoType::Disk(clone_opt_string(&o.mountpoint))
        };
        let val = if words.len() >= 2 && string_eq(&words[1], &String::from_str("usage")) {
            MemoryInfoValue::Usage
        } else if words.len() >= 2 && string_eq(&words[1], &String::from_str("percent")) {
            MemoryInfoValue::Percent
        } else if words.len() >= 2 && string_eq(&words[1], &String::from_str("total")) {
            MemoryInfoValue::Total
        } else if words.len() >= 2 && string_eq(&words[1], &String::from_str("free")) {
            MemoryInfoValue::Free
        } else {
            return unknown;
        };
        Ok(Command::Memory(MemoryInfoCommand { ty, val }))
    } else if string_eq(&words[0], &String::from_str("net")) {
        let ty = if words.len() >= 2 && string_eq(&words[1], &String::from_str("upload")) {
            NetInfoType::Upload
        } else if words.len() >= 2 && string_eq(&words[1], &String::from_str("download")) {
            NetInfoType::Download
        } else {
            return unknown;
        };
        let val = if words.len() >= 3 && string_eq(&words[2], &String::from_str("bits")) {
            NetInfoValue::Bits
        } else if words.len() >= 3 && string_eq(&words[2], &String::from_str("bytes")) {
            NetInfoValue::Bytes
        } else if words.len() >= 3 && string_eq(&words[2], &String::from_str("packets")) {
            NetInfoValue::Packets
        } else if words.len() >= 3 && string_eq(&words[2], &String::from_str("errors")) {
            NetInfoValue::Errors
        } else {
            return unknown;
        };
        let time = if words.len() == 3 {
            NetInfoTime::PerSecond
        } else if words.len() == 4 && string_eq(&words[3], &String::from_str("since")) {
            NetInfoTime::Since
        } else if words.len() == 4 && string_eq(&words[3], &String::from_str("total")) {
            NetInfoTime::Total
        } else {
            return unknown;
        };
        Ok(Command::Net(NetInfoCommand { name: clone_opt_string(&o.network), ty, time, val }))
    } else if string_eq(&words[0], &String::from_str("alsa")) {
        if !(words.len() >= 3 && string_eq(&words[2], &String::from_str("volume"))) {
            return unknown;
        }
        if string_eq(&words[1], &String::from_str("get")) {
            Ok(Command::AlsaGet(ALSAGetVolumeCommand(clone_opt_string(&o.card))))
        } else if string_eq(&words[1], &String::from_str("set")) {
            let vol = match &o.volume {
                Some(v) => VolumeChange::new(v),
                None => VolumeChange::new(&String::new()),
            };
            Ok(Command::AlsaSet(ALSASetVolumeCommand(clone_opt_string(&o.card), vol)))
        } else {
            unknown
        }
    } else if string_eq(&words[0], &String::from_str("state")) {
        let sm = match &o.state_machine {
            Some(sm) => sm.clone(),
            None => {
                return Err(
                    ConfigError(String::from_str("state command without a state machine")),
                );
            },
        };
        if words.len() >= 2 && string_eq(&words[1], &String::from_str("next")) {
            let tr = match o.traverse {
                Some(tr) => tr,
                None => 1,
            };
            Ok(Command::StateNext(NextStateCommand(sm, tr)))
        } else if words.len() >= 2 && string_eq(&words[1], &String::from_str("set")) {
            match &o.state {
                Some(st) => Ok(Command::StateSet(SetStateCommand(sm, st.clone()))),
                None => Err(ConfigError(String::from_str("state set command without a state"))),
            }
        } else {
            unknown
        }
    } else {
        unknown
    }
}

/// Clones an optional string.
fn clone_opt_string(o: &Option<String>) -> (r: Option<String>)
    ensures
        spec_opt_str_eq(r, *o),
{
    match o {
        Some(s) => Some(s.clone()),
        None => None,
    }
}

} // verus!
