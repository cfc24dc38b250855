//! Passing entries through an outside command: what the command is given,
//! and what is made of what it gives back.

use crate::kubernetes::log::LogEntry;
use crate::utils::text::{joined, texts};
use vstd::prelude::*;
use vstd::string::StringExecFns;

verus! {

/// External command pipe for processing log entries
pub struct CommandPipe {
    command: String,
}

impl View for CommandPipe {
    type V = Seq<char>;

    /// The command.
    closed spec fn view(&self) -> Seq<char> {
        self.command@
    }
}

/// The program and the arguments that run `command` in a shell.
pub open spec fn shell_args_of(command: Seq<char>, windows: bool) -> Seq<Seq<char>> {
    if windows {
        seq!["cmd"@, "/C"@, command]
    } else {
        seq!["sh"@, "-c"@, command]
    }
}

/// What running the command on an entry comes to: the lines that it wrote,
/// with a line feed between them, where it ended well; else the error that
/// names how it ended.
pub open spec fn outcome_of(succeeded: bool, status: Seq<char>, lines: Seq<Seq<char>>) -> Result<
    Seq<char>,
    Seq<char>,
> {
    if succeeded {
        Ok(joined(lines, "\n"@))
    } else {
        Err("Command failed with status "@ + status)
    }
}

/// What a result holds, as texts.
pub open spec fn result_text(r: Result<String, String>) -> Result<Seq<char>, Seq<char>> {
    match r {
        Ok(s) => Ok(s@),
        Err(e) => Err(e@),
    }
}

impl CommandPipe {
    /// Create a new command pipe
    pub fn new(command: &str) -> (p: Self)
        ensures
            p@ == command@,
    {
        Self { command: command.to_owned() }
    }

    /// The command.
    pub fn command(&self) -> (s: &str)
        ensures
            s@ == self@,
    {
        self.command.as_str()
    }

    /// The program and the arguments that run the command in a shell: the
    /// shell of the system, which is told to run the command.
    pub fn shell_args(&self, windows: bool) -> (args: Vec<String>)
        ensures
            texts(args@) == shell_args_of(self@, windows),
    {
        let mut args: Vec<String> = Vec::new();
        if windows {
            args.push("cmd".to_owned());
            args.push("/C".to_owned());
        } else {
            args.push("sh".to_owned());
            args.push("-c".to_owned());
        }
        args.push(self.command.clone());
        args
    }

    /// The lines with a line feed between them.
    pub fn join_lines(lines: &Vec<String>) -> (s: String)
        ensures
            s@ == joined(texts(lines@), "\n"@),
    {
        let mut s = String::new();
        let mut i: usize = 0;
        let ghost all = texts(lines@);
        while i < lines.len()
            invariant
                i <= lines@.len(),
                all == texts(lines@),
                s@ == joined(all.take(i as int), "\n"@),
            decreases lines@.len() - i,
        {
            proof {
                assert(all.take(i + 1).drop_last() == all.take(i as int));
            }
            if i > 0 {
                s = s.concat("\n");
            }
            s = s.concat(lines[i].as_str());
            i += 1;
        }
        assert(all.take(lines@.len() as int) == all);
        s
    }

    /// What running the command comes to, given whether it ended well, how
    /// its end is described, and the lines that it wrote.
    pub fn outcome(succeeded: bool, status: &str, lines: &Vec<String>) -> (r: Result<
        String,
        String,
    >)
        ensures
            result_text(r) == outcome_of(succeeded, status@, texts(lines@)),
    {
        if succeeded {
            Ok(CommandPipe::join_lines(lines))
        } else {
            Err("Command failed with status ".to_owned().concat(status))
        }
    }

    /// The entry that takes the place of `entry` once the command has
    /// given `output` for it: a new entry of the same pod, whose line and
    /// message are the output.
    pub fn replace(entry: LogEntry, output: String) -> (piped: LogEntry)
        ensures
            piped.pod_name == entry.pod_name,
            piped.raw_line@ == output@,
            piped.message@ == output@,
    {
        LogEntry { pod_name: entry.pod_name, raw_line: output.clone(), message: output }
    }

    /// What is sent on for an entry for which the command came to `ran`:
    /// the new entry, or the error.
    pub fn reply(entry: LogEntry, ran: Result<String, String>) -> (r: Result<LogEntry, String>)
        ensures
            match ran {
                Ok(output) => r matches Ok(piped) && piped.pod_name == entry.pod_name
                    && piped.raw_line@ == output@ && piped.message@ == output@,
                Err(e) => r == Err::<LogEntry, String>(e),
            },
    {
        match ran {
            Ok(output) => Ok(CommandPipe::replace(entry, output)),
            Err(e) => Err(e),
        }
    }
}

} // verus!
