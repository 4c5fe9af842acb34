//! The rules of `cat`: where the input comes from and how each line is
//! written out.

use vstd::prelude::*;
use vstd::string::StringExecFns;
use vstd::string::StrSliceExecFns;
use crate::text::{decimal, push_decimal};

verus! {

/// The options of `cat`.
#[derive(Clone, Debug)]
pub struct Cli {
    /// The file to read; `-` or nothing stands for standard input.
    pub file_name: Option<String>,
    /// End every line with `$`.
    pub dollar_terminator: bool,
    /// Start every line with its number, counted from zero.
    pub number_lines: bool,
}

/// Whether a file name, or its absence, stands for standard input.
pub open spec fn names_stdin(file_name: Option<String>) -> bool {
    match file_name {
        Some(name) => name@ == seq!['-'],
        None => true,
    }
}

/// A line of a file as it is written out.
pub open spec fn decorated_line(config: Cli, index: nat, line: Seq<char>) -> Seq<char> {
    (if config.number_lines {
        decimal(index)
    } else {
        Seq::empty()
    }) + line + (if config.dollar_terminator {
        seq!['$']
    } else {
        Seq::empty()
    })
}

/// A line as it is written out: standard input is echoed as it is, the
/// lines of a file are decorated.
pub open spec fn output_line(config: Cli, index: nat, line: Seq<char>) -> Seq<char> {
    if names_stdin(config.file_name) {
        line
    } else {
        decorated_line(config, index, line)
    }
}

impl Cli {
    /// Options as given on the command line.
    pub fn new(file_name: Option<String>, dollar_terminator: bool, number_lines: bool) -> (config:
        Cli)
        ensures
            config == (Cli { file_name, dollar_terminator, number_lines }),
    {
        Cli { file_name, dollar_terminator, number_lines }
    }

    /// Whether the input is standard input rather than a file.
    pub fn reads_stdin(&self) -> (stdin: bool)
        ensures
            stdin == names_stdin(self.file_name),
    {
        match &self.file_name {
            Some(name) => {
                let name = name.as_str();
                let stdin = name.unicode_len() == 1 && name.get_char(0) == '-';
                proof {
                    if stdin {
                        assert(name@ =~= seq!['-']);
                    }
                }
                stdin
            },
            None => true,
        }
    }
}

/// Writes out line number `index` of a file.
pub fn decorate_line(config: &Cli, index: u64, line: &str) -> (out: String)
    ensures
        out@ == decorated_line(*config, index as nat, line@),
{
    let mut out = String::new();
    if config.number_lines {
        push_decimal(&mut out, index);
    }
    out.append(line);
    if config.dollar_terminator {
        proof {
            reveal_strlit("$");
        }
        out.append("$");
    }
    assert(out@ =~= decorated_line(*config, index as nat, line@));
    out
}

/// Turns the lines read into the lines to print, in order.
///
/// Reading and printing are the caller's: it reads from the source that
/// `reads_stdin` tells, hands the lines over without their terminators,
/// and prints each result followed by a line break.
pub fn run(config: &Cli, lines: &Vec<String>) -> (out: Vec<String>)
    ensures
        out.len() == lines.len(),
        forall|i: int|
            0 <= i < lines.len() ==> (#[trigger] out[i])@ == output_line(
                *config,
                i as nat,
                lines[i]@,
            ),
{
    let stdin = config.reads_stdin();
    let mut out: Vec<String> = Vec::new();
    let mut i: usize = 0;
    while i < lines.len()
        invariant
            i <= lines.len(),
            out.len() == i,
            stdin == names_stdin(config.file_name),
            forall|k: int|
                0 <= k < i ==> (#[trigger] out[k])@ == output_line(*config, k as nat, lines[k]@),
        decreases lines.len() - i,
    {
        let line = if stdin {
            lines[i].clone()
        } else {
            decorate_line(config, i as u64, lines[i].as_str())
        };
        out.push(line);
        i = i + 1;
    }
    out
}

} // verus!
