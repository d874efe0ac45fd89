//! The process manager: command specifications, the write-once command
//! table, the table of running children, the health policy that decides
//! between reusing and respawning a child, and the per-request plumbing
//! that shapes input for a child's standard input.

use crate::shaping::{
    all_space, arrange_input, has_visible_char, opt_string_view, regex_ok, shaped_text,
};
use sysinfo::{PidExt, ProcessExt, ProcessStatus, SystemExt};
use vstd::prelude::*;

verus! {

/// Ceiling for one request, in seconds, when a command sets none.
pub const DEFAULT_CMD_TIMEOUT_SEC: u64 = 30;

/// Quiet period treated as end-of-reply when a command sets none: two
/// milliseconds. The unit is deliberate — the default is an aggressive
/// window, and commands that need a longer silence before their reply is
/// considered complete configure their own.
pub const DEFAULT_WAIT_OUTPUT_FINISH_MILLI_SEC: u64 = 2;

/// Everything that can go wrong between accepting a request and returning
/// the child's output. Variants that carry a `String` name the command they
/// concern; `RegexError` carries the offending pattern source and `IOError`
/// the text of the underlying system error.
#[derive(Debug)]
pub enum ProcessManagerError {
    CmdTableNotInitialize,
    CmdNotFound(String),
    FailedToGetChildProcessStdin(String),
    RegexError(String),
    Timeout,
    FailedToAddProcessTable(String),
    FailedToGetChildProcessStdout(String),
    FailedToGetChildProcessStderr(String),
    EmptyInputNotAllowed,
    IOError(String),
}

/// The declarative policy for one named command: the executable to spawn
/// and the shaping and timeout rules applied to every request against it.
#[derive(Debug)]
pub struct Cmd {
    pub name: String,
    pub cmd: String,
    pub output_size: usize,
    pub auto_trailing_newline: bool,
    pub join_input_newline_with: Option<String>,
    pub truncate_line_regex: Option<String>,
    pub remove_empty_line: bool,
    pub no_empty_input: bool,
    pub timeout_sec: Option<u64>,
    pub wait_output_timeout_milli_sec: Option<u64>,
}

impl Cmd {
    pub fn new(
        name: String,
        cmd: String,
        output_size: usize,
        auto_trailing_newline: bool,
        join_input_newline_with: Option<String>,
        truncate_line_regex: Option<String>,
        remove_empty_line: bool,
        no_empty_input: bool,
        timeout_sec: Option<u64>,
        wait_output_timeout_milli_sec: Option<u64>,
    ) -> (r: Self)
        ensures
            r == (Cmd {
                name,
                cmd,
                output_size,
                auto_trailing_newline,
                join_input_newline_with,
                truncate_line_regex,
                remove_empty_line,
                no_empty_input,
                timeout_sec,
                wait_output_timeout_milli_sec,
            }),
    {
        Self {
            name,
            cmd,
            output_size,
            auto_trailing_newline,
            join_input_newline_with,
            truncate_line_regex,
            remove_empty_line,
            no_empty_input,
            timeout_sec,
            wait_output_timeout_milli_sec,
        }
    }

    /// The per-request ceiling this command runs under.
    pub fn effective_timeout_sec(&self) -> (r: u64)
        ensures
            r == self.timeout_sec.unwrap_or(DEFAULT_CMD_TIMEOUT_SEC),
    {
        match self.timeout_sec {
            Some(t) => t,
            None => DEFAULT_CMD_TIMEOUT_SEC,
        }
    }

    /// The silence window this command treats as end-of-reply.
    pub fn effective_quiet_period_ms(&self) -> (r: u64)
        ensures
            r == self.wait_output_timeout_milli_sec.unwrap_or(
                DEFAULT_WAIT_OUTPUT_FINISH_MILLI_SEC,
            ),
    {
        match self.wait_output_timeout_milli_sec {
            Some(t) => t,
            None => DEFAULT_WAIT_OUTPUT_FINISH_MILLI_SEC,
        }
    }

    /// Read-buffer size for one request: the caller's wish, or the
    /// command's default.
    pub fn effective_output_size(&self, requested: Option<usize>) -> (r: usize)
        ensures
            r == requested.unwrap_or(self.output_size),
    {
        match requested {
            Some(s) => s,
            None => self.output_size,
        }
    }
}

impl Clone for Cmd {
    fn clone(&self) -> (r: Self)
        ensures
            r == *self,
    {
        Cmd {
            name: self.name.clone(),
            cmd: self.cmd.clone(),
            output_size: self.output_size,
            auto_trailing_newline: self.auto_trailing_newline,
            join_input_newline_with: clone_opt_string(&self.join_input_newline_with),
            truncate_line_regex: clone_opt_string(&self.truncate_line_regex),
            remove_empty_line: self.remove_empty_line,
            no_empty_input: self.no_empty_input,
            timeout_sec: self.timeout_sec,
            wait_output_timeout_milli_sec: self.wait_output_timeout_milli_sec,
        }
    }
}

fn clone_opt_string(o: &Option<String>) -> (r: Option<String>)
    ensures
        r == *o,
{
    match o {
        Some(s) => Some(s.clone()),
        None => None,
    }
}

// ---------------------------------------------------------------------------
// The command table and its write-once registry
// ---------------------------------------------------------------------------

/// No two commands share a name.
pub open spec fn unique_names(cmds: Seq<Cmd>) -> bool {
    forall|i: int, j: int|
        0 <= i < j < cmds.len() ==> (#[trigger] cmds[i]).name@ != (#[trigger] cmds[j]).name@
}

/// The first command named `name`, scanning from the front.
pub open spec fn table_lookup(cmds: Seq<Cmd>, name: Seq<char>) -> Option<Cmd>
    decreases cmds.len(),
{
    if cmds.len() == 0 {
        None
    } else if cmds[0].name@ == name {
        Some(cmds[0])
    } else {
        table_lookup(cmds.drop_first(), name)
    }
}

/// What `table_lookup` finds: the entry at any index carrying the name, or
/// nothing when no index does.
pub proof fn lemma_table_lookup(cmds: Seq<Cmd>, name: Seq<char>)
    ensures
        table_lookup(cmds, name) matches Some(c) ==> exists|i: int|
            0 <= i < cmds.len() && #[trigger] cmds[i] == c && c.name@ == name,
        table_lookup(cmds, name) is None ==> forall|i: int|
            0 <= i < cmds.len() ==> (#[trigger] cmds[i]).name@ != name,
    decreases cmds.len(),
{
    if cmds.len() > 0 && cmds[0].name@ != name {
        lemma_table_lookup(cmds.drop_first(), name);
        if table_lookup(cmds, name) is Some {
            let c = table_lookup(cmds, name).unwrap();
            let i = choose|i: int|
                0 <= i < cmds.drop_first().len() && #[trigger] cmds.drop_first()[i] == c
                    && c.name@ == name;
            assert(cmds[i + 1] == c);
        } else {
            assert forall|i: int| 0 <= i < cmds.len() implies (#[trigger] cmds[i]).name@
                != name by {
                if i > 0 {
                    assert(cmds.drop_first()[i - 1].name@ != name);
                }
            }
        }
    }
}

/// The converse: an entry carrying the name forces `table_lookup` to find
/// it, provided names are unique.
pub proof fn lemma_table_lookup_at(cmds: Seq<Cmd>, name: Seq<char>, i: int)
    requires
        unique_names(cmds),
        0 <= i < cmds.len(),
        cmds[i].name@ == name,
    ensures
        table_lookup(cmds, name) == Some(cmds[i]),
{
    lemma_table_lookup(cmds, name);
    if table_lookup(cmds, name) is Some {
        let c = table_lookup(cmds, name).unwrap();
        let j = choose|j: int|
            0 <= j < cmds.len() && #[trigger] cmds[j] == c && c.name@ == name;
        if i != j {
            assert(cmds[i].name@ != cmds[j].name@);
        }
    }
}

/// The immutable mapping from command name to its `Cmd`, installed once at
/// startup and read-only thereafter.
#[derive(Debug)]
pub struct CmdTable {
    cmds: Vec<Cmd>,
}

impl CmdTable {
    pub closed spec fn entries(&self) -> Seq<Cmd> {
        self.cmds@
    }

    /// At most one entry per command name.
    pub open spec fn wf(&self) -> bool {
        unique_names(self.entries())
    }

    pub open spec fn lookup(&self, name: Seq<char>) -> Option<Cmd> {
        table_lookup(self.entries(), name)
    }

    pub open spec fn contains_name(&self, name: Seq<char>) -> bool {
        exists|i: int| 0 <= i < self.entries().len() && (#[trigger] self.entries()[i]).name@ == name
    }

    pub fn new() -> (r: Self)
        ensures
            r.wf(),
            r.entries() == Seq::<Cmd>::empty(),
            forall|n: Seq<char>| #[trigger] r.lookup(n) is None,
    {
        CmdTable { cmds: Vec::new() }
    }

    pub fn len(&self) -> (r: usize)
        ensures
            r == self.entries().len(),
    {
        self.cmds.len()
    }

    /// Add a command, replacing any earlier command of the same name.
    pub fn insert(&mut self, cmd: Cmd)
        requires
            old(self).wf(),
        ensures
            final(self).wf(),
            forall|n: Seq<char>| #[trigger] final(self).lookup(n) == if n == cmd.name@ {
                Some(cmd)
            } else {
                old(self).lookup(n)
            },
    {
        let ghost prior = self.cmds@;
        let mut i: usize = 0;
        while i < self.cmds.len()
            invariant
                self.cmds@ == prior,
                prior == old(self).entries(),
                i <= prior.len(),
                unique_names(prior),
                forall|j: int| 0 <= j < i ==> (#[trigger] prior[j]).name@ != cmd.name@,
            decreases prior.len() - i,
        {
            if self.cmds[i].name == cmd.name {
                let _ = self.cmds.remove(i);
                self.cmds.insert(i, cmd);
                proof {
                    assert(self.cmds@ =~= prior.update(i as int, cmd));
                    lemma_insert_lookup(prior, cmd, i as int);
                    assert forall|n: Seq<char>| #[trigger] self.lookup(n) == (if n
                        == cmd.name@ {
                        Some(cmd)
                    } else {
                        table_lookup(prior, n)
                    }) by {
                        assert(table_lookup(prior.update(i as int, cmd), n) == (if n
                            == cmd.name@ {
                            Some(cmd)
                        } else {
                            table_lookup(prior, n)
                        }));
                    }
                }
                return ;
            }
            i += 1;
        }
        self.cmds.push(cmd);
        proof {
            lemma_push_lookup(prior, cmd);
        }
    }

    /// Look a command up by name.
    pub fn get(&self, name: &String) -> (r: Option<&Cmd>)
        ensures
            r matches Some(c) ==> self.lookup(name@) == Some(*c),
            r is None ==> self.lookup(name@) is None,
    {
        let mut i: usize = 0;
        while i < self.cmds.len()
            invariant
                i <= self.entries().len(),
                forall|j: int| 0 <= j < i ==> (#[trigger] self.entries()[j]).name@ != name@,
            decreases self.entries().len() - i,
        {
            if self.cmds[i].name == *name {
                proof {
                    lemma_lookup_first_hit(self.entries(), name@, i as int);
                }
                return Some(&self.cmds[i]);
            }
            i += 1;
        }
        proof {
            lemma_lookup_miss(self.entries(), name@);
        }
        None
    }
}

/// When nothing before `i` carries the name and `cmds[i]` does, lookup
/// finds `cmds[i]` (no uniqueness needed).
proof fn lemma_lookup_first_hit(cmds: Seq<Cmd>, name: Seq<char>, i: int)
    requires
        0 <= i < cmds.len(),
        cmds[i].name@ == name,
        forall|j: int| 0 <= j < i ==> (#[trigger] cmds[j]).name@ != name,
    ensures
        table_lookup(cmds, name) == Some(cmds[i]),
    decreases i,
{
    if i > 0 {
        lemma_lookup_first_hit(cmds.drop_first(), name, i - 1);
    }
}

/// When no entry carries the name, lookup finds nothing.
proof fn lemma_lookup_miss(cmds: Seq<Cmd>, name: Seq<char>)
    requires
        forall|j: int| 0 <= j < cmds.len() ==> (#[trigger] cmds[j]).name@ != name,
    ensures
        table_lookup(cmds, name) is None,
    decreases cmds.len(),
{
    if cmds.len() > 0 {
        assert forall|j: int| 0 <= j < cmds.drop_first().len() implies (#[trigger] cmds.drop_first()[j]).name@ != name by {
            assert(cmds[j + 1].name@ != name);
        }
        lemma_lookup_miss(cmds.drop_first(), name);
    }
}

proof fn lemma_insert_lookup(prior: Seq<Cmd>, cmd: Cmd, i: int)
    requires
        unique_names(prior),
        0 <= i < prior.len(),
        prior[i].name@ == cmd.name@,
    ensures
        unique_names(prior.update(i, cmd)),
        forall|n: Seq<char>| #[trigger] table_lookup(prior.update(i, cmd), n) == if n
            == cmd.name@ {
            Some(cmd)
        } else {
            table_lookup(prior, n)
        },
{
    let updated = prior.update(i, cmd);
    assert forall|n: Seq<char>| #[trigger] table_lookup(updated, n) == if n == cmd.name@ {
        Some(cmd)
    } else {
        table_lookup(prior, n)
    } by {
        if n == cmd.name@ {
            lemma_table_lookup_at(updated, n, i);
        } else {
            lemma_table_lookup(prior, n);
            lemma_table_lookup(updated, n);
            match table_lookup(prior, n) {
                Some(c) => {
                    let k = choose|k: int|
                        0 <= k < prior.len() && #[trigger] prior[k] == c && c.name@ == n;
                    lemma_table_lookup_at(updated, n, k);
                },
                None => {
                    if table_lookup(updated, n) is Some {
                        let c = table_lookup(updated, n).unwrap();
                        let k = choose|k: int|
                            0 <= k < updated.len() && #[trigger] updated[k] == c && c.name@
                                == n;
                        assert(prior[k].name@ != n);
                    }
                },
            }
        }
    }
}

proof fn lemma_push_lookup(prior: Seq<Cmd>, cmd: Cmd)
    requires
        unique_names(prior),
        forall|j: int| 0 <= j < prior.len() ==> (#[trigger] prior[j]).name@ != cmd.name@,
    ensures
        unique_names(prior.push(cmd)),
        forall|n: Seq<char>| #[trigger] table_lookup(prior.push(cmd), n) == if n == cmd.name@ {
            Some(cmd)
        } else {
            table_lookup(prior, n)
        },
{
    let pushed = prior.push(cmd);
    assert forall|n: Seq<char>| #[trigger] table_lookup(pushed, n) == if n == cmd.name@ {
        Some(cmd)
    } else {
        table_lookup(prior, n)
    } by {
        if n == cmd.name@ {
            lemma_table_lookup_at(pushed, n, prior.len() as int);
        } else {
            lemma_table_lookup(prior, n);
            lemma_table_lookup(pushed, n);
            match table_lookup(prior, n) {
                Some(c) => {
                    let k = choose|k: int|
                        0 <= k < prior.len() && #[trigger] prior[k] == c && c.name@ == n;
                    lemma_table_lookup_at(pushed, n, k);
                },
                None => {
                    if table_lookup(pushed, n) is Some {
                        let c = table_lookup(pushed, n).unwrap();
                        let k = choose|k: int|
                            0 <= k < pushed.len() && #[trigger] pushed[k] == c && c.name@
                                == n;
                        assert(k < prior.len() ==> prior[k].name@ != n);
                    }
                },
            }
        }
    }
}

/// The process-wide registry slot for the command table: empty until the
/// table is installed, immutable afterwards.
pub struct CmdRegistry {
    table: Option<CmdTable>,
}

impl CmdRegistry {
    pub closed spec fn table_opt(&self) -> Option<CmdTable> {
        self.table
    }

    pub open spec fn is_installed(&self) -> bool {
        self.table_opt() is Some
    }

    pub open spec fn wf(&self) -> bool {
        self.table_opt() matches Some(t) ==> t.wf()
    }

    pub open spec fn lookup(&self, name: Seq<char>) -> Option<Cmd> {
        self.table_opt().unwrap().lookup(name)
    }

    pub fn new() -> (r: Self)
        ensures
            !r.is_installed(),
            r.wf(),
    {
        CmdRegistry { table: None }
    }

    /// Remove and return the installed table, leaving the registry
    /// uninstalled again.
    pub fn take_table(&mut self) -> (r: Option<CmdTable>)
        ensures
            r == old(self).table_opt(),
            !final(self).is_installed(),
            final(self).wf(),
    {
        self.table.take()
    }
}

/// Install the command table. Succeeds only the first time; afterwards the
/// attempted table is handed back and nothing changes.
pub fn init_cmd_table(registry: &mut CmdRegistry, cmd_table: CmdTable) -> (r: Result<
    (),
    CmdTable,
>)
    requires
        cmd_table.wf(),
        old(registry).wf(),
    ensures
        final(registry).wf(),
        !old(registry).is_installed() ==> r is Ok && final(registry).table_opt() == Some(
            cmd_table,
        ),
        old(registry).is_installed() ==> ((r matches Err(t) && t == cmd_table)
            && *final(registry) == *old(registry)),
{
    match &registry.table {
        Some(_) => Err(cmd_table),
        None => {
            registry.table = Some(cmd_table);
            Ok(())
        },
    }
}

/// Resolve a command name against the registry: the spec of the command,
/// or exactly which of the two configuration errors applies.
pub fn get_cmd_from_table(registry: &CmdRegistry, cmd_name: &String) -> (r: Result<
    Cmd,
    ProcessManagerError,
>)
    ensures
        match r {
            Ok(c) => registry.is_installed() && registry.lookup(cmd_name@) == Some(c),
            Err(ProcessManagerError::CmdTableNotInitialize) => !registry.is_installed(),
            Err(ProcessManagerError::CmdNotFound(n)) => registry.is_installed()
                && registry.lookup(cmd_name@) is None && n@ == cmd_name@,
            Err(_) => false,
        },
{
    match &registry.table {
        None => Err(ProcessManagerError::CmdTableNotInitialize),
        Some(t) => match t.get(cmd_name) {
            Some(c) => Ok(c.clone()),
            None => Err(ProcessManagerError::CmdNotFound(cmd_name.clone())),
        },
    }
}

// ---------------------------------------------------------------------------
// Children and their health
// ---------------------------------------------------------------------------

#[verifier::external_type_specification]
#[verifier::external_body]
pub struct ExChild(tokio::process::Child);

/// The scheduling state the operating system reports for a process, as the
/// health policy reads it.
#[derive(Debug, Clone, Copy, PartialEq, Eq, Structural)]
pub enum ProcessState {
    Idle,
    Run,
    Sleep,
    Stop,
    Zombie,
    Tracing,
    Dead,
    Wakekill,
    Waking,
    Parked,
    LockBlocked,
    Unknown(u32),
}

/// A process is healthy enough to serve requests when it is runnable,
/// idle, sleeping or stopped under a tracer; a zombie, stopped, dead or
/// unknown process is not.
pub fn is_health_process(status: &ProcessState) -> (r: bool)
    ensures
        r == (status is Run || status is Idle || status is Sleep || status is Tracing),
{
    match status {
        ProcessState::Run => true,
        ProcessState::Idle => true,
        ProcessState::Sleep => true,
        ProcessState::Tracing => true,
        _ => false,
    }
}

/// Relies on `tokio::process::Child::id`: the operating-system pid while
/// the handle has not observed the child's exit, `None` afterwards.
#[verifier::external_body]
fn child_id(child: &tokio::process::Child) -> (r: Option<u32>) {
    child.id()
}

/// Relies on sysinfo's `System::new_with_specifics` (refreshing process
/// information), `System::process` and `Process::status`: the state the
/// operating system reports for the pid right now, or `None` when no such
/// process exists.
#[verifier::external_body]
fn probe_state(pid: u32) -> (r: Option<ProcessState>) {
    let kind = sysinfo::RefreshKind::new().with_processes(sysinfo::ProcessRefreshKind::everything());
    let sys = sysinfo::System::new_with_specifics(kind);
    let p = sys.process(sysinfo::Pid::from_u32(pid))?;
    Some(match p.status() {
        ProcessStatus::Idle => ProcessState::Idle, ProcessStatus::Run => ProcessState::Run,
        ProcessStatus::Sleep => ProcessState::Sleep, ProcessStatus::Stop => ProcessState::Stop,
        ProcessStatus::Zombie => ProcessState::Zombie, ProcessStatus::Tracing => ProcessState::Tracing,
        ProcessStatus::Dead => ProcessState::Dead, ProcessStatus::Wakekill => ProcessState::Wakekill,
        ProcessStatus::Waking => ProcessState::Waking, ProcessStatus::Parked => ProcessState::Parked,
        ProcessStatus::LockBlocked => ProcessState::LockBlocked,
        ProcessStatus::Unknown(v) => ProcessState::Unknown(v),
    })
}

/// Relies on sysinfo's `System::process` and `Process::kill`: sends a kill
/// signal to the pid, best effort; reports whether a signal was sent.
#[verifier::external_body]
fn kill_pid(pid: u32) -> (r: bool) {
    let kind = sysinfo::RefreshKind::new().with_processes(sysinfo::ProcessRefreshKind::everything());
    let sys = sysinfo::System::new_with_specifics(kind);
    match sys.process(sysinfo::Pid::from_u32(pid)) {
        Some(p) => p.kill(),
        None => false,
    }
}

/// A supervised child: the command name it serves and the handle owning
/// its pipes. The handle is absent only while a request borrows it.
pub struct RunningProcess {
    pub name: String,
    pub child: Option<tokio::process::Child>,
}

// ---------------------------------------------------------------------------
// The process table
// ---------------------------------------------------------------------------

/// The runtime mapping from command name to its supervised child. Mutated
/// only by the holder of the surrounding lock; at most one entry per name.
pub struct ProcessTable {
    entries: Vec<RunningProcess>,
}

impl ProcessTable {
    pub closed spec fn entries(&self) -> Seq<RunningProcess> {
        self.entries@
    }

    /// At most one entry per command name.
    pub open spec fn wf(&self) -> bool {
        forall|i: int, j: int|
            0 <= i < j < self.entries().len() ==> (#[trigger] self.entries()[i]).name@ != (
            #[trigger] self.entries()[j]).name@
    }

    pub open spec fn contains_name(&self, name: Seq<char>) -> bool {
        exists|i: int|
            0 <= i < self.entries().len() && (#[trigger] self.entries()[i]).name@ == name
    }

    pub fn new() -> (r: Self)
        ensures
            r.wf(),
            r.entries() == Seq::<RunningProcess>::empty(),
    {
        ProcessTable { entries: Vec::new() }
    }

    pub fn len(&self) -> (r: usize)
        ensures
            r == self.entries().len(),
    {
        self.entries.len()
    }

    /// The index of the entry serving `name`, if one exists.
    pub fn find(&self, name: &String) -> (r: Option<usize>)
        ensures
            r matches Some(i) ==> i < self.entries().len() && self.entries()[i as int].name@
                == name@,
            r is None ==> !self.contains_name(name@),
    {
        let mut i: usize = 0;
        while i < self.entries.len()
            invariant
                i <= self.entries().len(),
                forall|j: int| 0 <= j < i ==> (#[trigger] self.entries()[j]).name@ != name@,
            decreases self.entries().len() - i,
        {
            if self.entries[i].name == *name {
                return Some(i);
            }
            i += 1;
        }
        None
    }

    /// Put a freshly spawned child in charge of `name`, replacing whatever
    /// entry served that name before.
    pub fn register(&mut self, name: &String, child: tokio::process::Child) -> (i: usize)
        requires
            old(self).wf(),
        ensures
            final(self).wf(),
            i < final(self).entries().len(),
            final(self).entries()[i as int].name@ == name@,
            final(self).entries()[i as int].child is Some,
            forall|j: int|
                0 <= j < final(self).entries().len() && j != i
                    ==> #[trigger] final(self).entries()[j] == old(self).entries()[j],
            old(self).contains_name(name@)
                ==> final(self).entries().len() == old(self).entries().len(),
            !old(self).contains_name(name@) ==> i == old(self).entries().len()
                && final(self).entries().len() == old(self).entries().len() + 1,
    {
        let entry = RunningProcess { name: name.clone(), child: Some(child) };
        match self.find(name) {
            Some(i) => {
                let _ = self.entries.remove(i);
                self.entries.insert(i, entry);
                proof {
                    assert(self.entries@ =~= old(self).entries().update(i as int, entry));
                }
                i
            },
            None => {
                let i = self.entries.len();
                self.entries.push(entry);
                i
            },
        }
    }

    /// Evict the entry serving `name`, handing its child back to the
    /// caller: the only way a child leaves the table, and with it the only
    /// way its pipes are closed.
    pub fn remove(&mut self, name: &String) -> (r: Option<RunningProcess>)
        requires
            old(self).wf(),
        ensures
            final(self).wf(),
            !final(self).contains_name(name@),
            r matches Some(p) ==> exists|i: int|
                0 <= i < old(self).entries().len() && p == old(self).entries()[i] && p.name@
                    == name@ && final(self).entries() == old(self).entries().remove(i),
            r is None ==> !old(self).contains_name(name@) && *final(self) == *old(self),
    {
        match self.find(name) {
            None => None,
            Some(i) => {
                let removed = self.entries.remove(i);
                proof {
                    let prior = old(self).entries();
                    assert forall|a: int, b: int|
                        0 <= a < b < self.entries().len() implies (
                    #[trigger] self.entries()[a]).name@ != (#[trigger] self.entries()[b]).name@ by {
                        let a0 = if a < i { a } else { a + 1 };
                        let b0 = if b < i { b } else { b + 1 };
                        assert(self.entries()[a] == prior[a0]);
                        assert(self.entries()[b] == prior[b0]);
                    }
                    assert forall|j: int|
                        0 <= j < self.entries().len() implies (
                    #[trigger] self.entries()[j]).name@ != name@ by {
                        let j0 = if j < i { j } else { j + 1 };
                        assert(self.entries()[j] == prior[j0]);
                        if j0 < i {
                            assert(prior[j0].name@ != prior[i as int].name@);
                        } else {
                            assert(prior[i as int].name@ != prior[j0].name@);
                        }
                    }
                    assert(removed == prior[i as int] && removed.name@ == name@
                        && self.entries() == prior.remove(i as int));
                }
                Some(removed)
            },
        }
    }

    /// Borrow the child serving entry `i` out of the table; the entry
    /// keeps its name and waits for `put_child`.
    pub fn take_child(&mut self, i: usize) -> (r: Option<tokio::process::Child>)
        requires
            i < old(self).entries().len(),
        ensures
            r == old(self).entries()[i as int].child,
            final(self).entries() == old(self).entries().update(
                i as int,
                RunningProcess { name: old(self).entries()[i as int].name, child: None },
            ),
            old(self).wf() ==> final(self).wf(),
    {
        let r = self.entries[i].child.take();
        proof {
            assert(final(self).entries() =~= old(self).entries().update(
                i as int,
                RunningProcess { name: old(self).entries()[i as int].name, child: None },
            ));
            if old(self).wf() {
                assert forall|a: int, b: int|
                    0 <= a < b < self.entries().len() implies (#[trigger] self.entries()[a]).name@
                    != (#[trigger] self.entries()[b]).name@ by {
                    assert(self.entries()[a].name@ == old(self).entries()[a].name@);
                    assert(self.entries()[b].name@ == old(self).entries()[b].name@);
                }
            }
        }
        r
    }

    /// Hand the borrowed child back to entry `i`.
    pub fn put_child(&mut self, i: usize, child: tokio::process::Child)
        requires
            i < old(self).entries().len(),
        ensures
            final(self).entries() == old(self).entries().update(
                i as int,
                RunningProcess {
                    name: old(self).entries()[i as int].name,
                    child: Some(child),
                },
            ),
            old(self).wf() ==> final(self).wf(),
    {
        self.entries[i].child = Some(child);
        proof {
            assert(final(self).entries() =~= old(self).entries().update(
                i as int,
                RunningProcess {
                    name: old(self).entries()[i as int].name,
                    child: Some(child),
                },
            ));
            if old(self).wf() {
                assert forall|a: int, b: int|
                    0 <= a < b < self.entries().len() implies (#[trigger] self.entries()[a]).name@
                    != (#[trigger] self.entries()[b]).name@ by {
                    assert(self.entries()[a].name@ == old(self).entries()[a].name@);
                    assert(self.entries()[b].name@ == old(self).entries()[b].name@);
                }
            }
        }
    }

    /// Decide whether the child serving `name` can be reused: it must
    /// exist, still expose a pid, and the operating system must report it
    /// healthy. An unhealthy child is sent a kill signal here and `None`
    /// says the caller must spawn a replacement.
    pub fn check_reusable(&self, name: &String) -> (r: Option<usize>)
        ensures
            r matches Some(i) ==> i < self.entries().len() && self.entries()[i as int].name@
                == name@ && self.entries()[i as int].child is Some,
    {
        match self.find(name) {
            None => None,
            Some(i) => match &self.entries[i].child {
                None => None,
                Some(child) => match child_id(child) {
                    None => None,
                    Some(pid) => match probe_state(pid) {
                        None => None,
                        Some(state) => {
                            if is_health_process(&state) {
                                Some(i)
                            } else {
                                let _ = kill_pid(pid);
                                None
                            }
                        },
                    },
                },
            },
        }
    }
}

/// The exact text `cmd` writes to its child for a request carrying
/// `input`, when shaping accepts it.
pub open spec fn prepared_text(cmd: Cmd, input: Seq<char>) -> Seq<char> {
    shaped_text(
        input,
        cmd.auto_trailing_newline,
        opt_string_view(cmd.join_input_newline_with),
        opt_string_view(cmd.truncate_line_regex),
        cmd.remove_empty_line,
    )
}

/// Shape a request's input under `cmd`'s policy and apply its empty-input
/// rule. Fails with `RegexError` exactly when the configured truncation
/// pattern does not compile, and with `EmptyInputNotAllowed` exactly when
/// the command rejects empty input and the shaped text has no visible
/// character.
pub fn prepare_input(cmd: &Cmd, input: String) -> (r: Result<String, ProcessManagerError>)
    ensures
        ({
            let trunc = opt_string_view(cmd.truncate_line_regex);
            let shaped = prepared_text(*cmd, input@);
            match r {
                Ok(out) => (trunc matches Some(p) ==> regex_ok(p)) && !(cmd.no_empty_input
                    && all_space(shaped)) && out@ == shaped,
                Err(ProcessManagerError::RegexError(src)) => (trunc matches Some(p)
                    && !regex_ok(p)) && src@ == trunc.unwrap(),
                Err(ProcessManagerError::EmptyInputNotAllowed) => (trunc matches Some(p)
                    ==> regex_ok(p)) && cmd.no_empty_input && all_space(shaped),
                Err(_) => false,
            }
        }),
{
    let shaped = match arrange_input(
        input,
        cmd.auto_trailing_newline,
        cmd.join_input_newline_with.as_ref(),
        cmd.truncate_line_regex.as_ref(),
        cmd.remove_empty_line,
    ) {
        Ok(s) => s,
        Err(e) => {
            return Err(e);
        },
    };
    if cmd.no_empty_input && !has_visible_char(shaped.as_str()) {
        return Err(ProcessManagerError::EmptyInputNotAllowed);
    }
    Ok(shaped)
}

/// At most one entry serves a name: two entries with the same name are the
/// same entry.
pub proof fn lemma_single_entry_per_name(t: &ProcessTable, i: int, j: int)
    requires
        t.wf(),
        0 <= i < t.entries().len(),
        0 <= j < t.entries().len(),
        t.entries()[i].name@ == t.entries()[j].name@,
    ensures
        i == j,
{
}

/// The process table never holds a name the registry cannot resolve.
pub open spec fn closed_under(t: &ProcessTable, reg: &CmdRegistry) -> bool {
    forall|j: int|
        0 <= j < t.entries().len() ==> reg.is_installed() && (#[trigger] reg.lookup(
            t.entries()[j].name@,
        )) is Some
}

/// Registering a name the registry resolves keeps the table closed under
/// the registry.
pub proof fn lemma_register_keeps_closure(
    pre: &ProcessTable,
    post: &ProcessTable,
    reg: &CmdRegistry,
    name: Seq<char>,
    i: int,
)
    requires
        closed_under(pre, reg),
        reg.is_installed(),
        reg.lookup(name) is Some,
        0 <= i < post.entries().len(),
        post.entries()[i].name@ == name,
        forall|j: int|
            0 <= j < post.entries().len() && j != i ==> j < pre.entries().len() && (
            #[trigger] post.entries()[j]) == pre.entries()[j],
    ensures
        closed_under(post, reg),
{
    assert forall|j: int|
        0 <= j < post.entries().len() implies reg.is_installed() && (#[trigger] reg.lookup(
        post.entries()[j].name@,
    )) is Some by {
        if j != i {
            assert(post.entries()[j] == pre.entries()[j]);
        }
    }
}

} // verus!
