//! The materialized configuration: the list of per-command entries read at
//! startup, and its conversion into the command table the process manager
//! runs on. Reading and parsing the configuration file is the surrounding
//! daemon's job; this module only gives the parsed entries their meaning.

use crate::process_manager::{table_lookup, Cmd, CmdTable};
use vstd::prelude::*;

verus! {

/// Read-buffer size for a command that configures none.
pub const DEFAULT_OUTPUT_SIZE: usize = 4096;

/// One `[[cmds]]` entry of the configuration: the command name, its
/// executable, and the optional shaping and timeout settings.
#[derive(Debug)]
pub struct CmdConfig {
    pub name: String,
    pub cmd: String,
    pub output_size: Option<usize>,
    pub auto_trailing_newline: Option<bool>,
    pub join_input_newline_with: Option<String>,
    pub truncate_line_regex: Option<String>,
    pub remove_empty_line: bool,
    pub no_empty_input: bool,
    pub timeout_sec: Option<u64>,
    pub wait_output_timeout_milli_sec: Option<u64>,
}

/// The whole configuration: the command entries in file order.
#[derive(Debug)]
pub struct Config {
    pub cmds: Vec<CmdConfig>,
}

/// The command an entry configures, with the defaults filled in.
pub open spec fn cmd_of_config(c: CmdConfig) -> Cmd {
    Cmd {
        name: c.name,
        cmd: c.cmd,
        output_size: c.output_size.unwrap_or(DEFAULT_OUTPUT_SIZE),
        auto_trailing_newline: c.auto_trailing_newline.unwrap_or(false),
        join_input_newline_with: c.join_input_newline_with,
        truncate_line_regex: c.truncate_line_regex,
        remove_empty_line: c.remove_empty_line,
        no_empty_input: c.no_empty_input,
        timeout_sec: c.timeout_sec,
        wait_output_timeout_milli_sec: c.wait_output_timeout_milli_sec,
    }
}

/// What a list of entries maps a name to: the command of the last entry
/// carrying that name, since later entries replace earlier ones.
pub open spec fn config_lookup(cmds: Seq<CmdConfig>, name: Seq<char>) -> Option<Cmd>
    decreases cmds.len(),
{
    if cmds.len() == 0 {
        None
    } else if cmds.last().name@ == name {
        Some(cmd_of_config(cmds.last()))
    } else {
        config_lookup(cmds.drop_last(), name)
    }
}

impl Config {
    /// Build the command table the process manager runs on: every name a
    /// config entry mentions resolves to the command of its last entry,
    /// with the defaults filled in, and nothing else resolves.
    pub fn as_cmd_table(&self) -> (r: CmdTable)
        ensures
            r.wf(),
            forall|n: Seq<char>| #[trigger] r.lookup(n) == config_lookup(self.cmds@, n),
    {
        let mut cmd_table = CmdTable::new();
        let mut i: usize = 0;
        proof {
            assert(self.cmds@.take(0) =~= Seq::<CmdConfig>::empty());
        }
        while i < self.cmds.len()
            invariant
                i <= self.cmds@.len(),
                cmd_table.wf(),
                forall|n: Seq<char>| #[trigger] cmd_table.lookup(n) == config_lookup(
                    self.cmds@.take(i as int),
                    n,
                ),
            decreases self.cmds@.len() - i,
        {
            let c = &self.cmds[i];
            let cmd = Cmd::new(
                c.name.clone(),
                c.cmd.clone(),
                match c.output_size {
                    Some(s) => s,
                    None => DEFAULT_OUTPUT_SIZE,
                },
                match c.auto_trailing_newline {
                    Some(b) => b,
                    None => false,
                },
                clone_opt_string(&c.join_input_newline_with),
                clone_opt_string(&c.truncate_line_regex),
                c.remove_empty_line,
                c.no_empty_input,
                c.timeout_sec,
                c.wait_output_timeout_milli_sec,
            );
            proof {
                assert(cmd == cmd_of_config(self.cmds@[i as int]));
            }
            cmd_table.insert(cmd);
            proof {
                assert(self.cmds@.take(i + 1).drop_last() =~= self.cmds@.take(i as int));
                assert(self.cmds@.take(i + 1).last() == self.cmds@[i as int]);
            }
            i += 1;
        }
        proof {
            assert(self.cmds@.take(self.cmds@.len() as int) =~= self.cmds@);
        }
        cmd_table
    }
}

fn clone_opt_string(o: &Option<String>) -> (r: Option<String>)
    ensures
        r == *o,
{
    match o {
        Some(s) => Some(s.clone()),
        None => None,
    }
}

} // verus!
