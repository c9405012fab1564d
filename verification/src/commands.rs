//! The line-transform pipeline: which operations a set of options
//! enables, in what order they run, and what each one does to the
//! sequence of lines.

use std::io::Write;
use vstd::prelude::*;
use vstd::string::StringExecFns;

use crate::cli::Cli;
use crate::text::{
    lemma_split_lines_newline_terminated, lemma_split_lines_of_terminated_source,
    lines_of_sources, newline_terminated, number_prefix, prefix_number, replace_tabs,
    spec_replace_tabs, split_into_lines, split_lines,
};

verus! {

/// One line-transform operation.
#[derive(Debug, PartialEq, Eq, Clone, Copy)]
pub enum Command {
    SqueezeBlanks,
    ShowNonblankLineNumbers,
    ShowLineNumbers,
    ShowTabs,
    ShowEnds,
}

/// An assembled sequence of lines together with the ordered list of
/// operations to apply to it.
#[derive(Debug, PartialEq)]
pub struct CatCommands {
    pub lines: Vec<String>,
    pub commands: Vec<Command>,
}

/// Whether the line at index `i` survives blank squeezing: it is
/// dropped exactly when it is empty and directly follows another empty
/// line.
pub open spec fn keep_at(lines: Seq<Seq<char>>, i: int) -> bool {
    !(lines[i].len() == 0 && i > 0 && lines[i - 1].len() == 0)
}

/// The lines after blank squeezing: every run of two or more
/// consecutive empty lines collapses to its first empty line, and all
/// other lines stay, in order.
pub open spec fn spec_squeeze(lines: Seq<Seq<char>>) -> Seq<Seq<char>>
    decreases lines.len(),
{
    if lines.len() == 0 {
        Seq::empty()
    } else if keep_at(lines, lines.len() - 1) {
        spec_squeeze(lines.drop_last()).push(lines.last())
    } else {
        spec_squeeze(lines.drop_last())
    }
}

/// The lines after plain numbering: line `i` gets the gutter for
/// number `i + 1`.
pub open spec fn spec_number_all(lines: Seq<Seq<char>>) -> Seq<Seq<char>> {
    Seq::new(lines.len(), |i: int| number_prefix((i + 1) as nat) + lines[i])
}

/// How many of the lines before index `i` are non-empty.
pub open spec fn nonblank_before(lines: Seq<Seq<char>>, i: int) -> nat
    decreases i,
{
    if i <= 0 {
        0
    } else if lines[i - 1].len() == 0 {
        nonblank_before(lines, i - 1)
    } else {
        nonblank_before(lines, i - 1) + 1
    }
}

/// The lines after non-blank numbering: empty lines are unchanged, and
/// a non-empty line gets the gutter for one more than the count of
/// non-empty lines before it.
pub open spec fn spec_number_nonblank(lines: Seq<Seq<char>>) -> Seq<Seq<char>> {
    Seq::new(
        lines.len(),
        |i: int|
            if lines[i].len() == 0 {
                lines[i]
            } else {
                number_prefix(nonblank_before(lines, i) + 1) + lines[i]
            },
    )
}

/// The lines after tab visualization: every tab of every line becomes
/// `^I`.
pub open spec fn spec_show_tabs(lines: Seq<Seq<char>>) -> Seq<Seq<char>> {
    Seq::new(lines.len(), |i: int| spec_replace_tabs(lines[i]))
}

/// The lines after end marking: every line gets a final `'$'`.
pub open spec fn spec_show_ends(lines: Seq<Seq<char>>) -> Seq<Seq<char>> {
    Seq::new(lines.len(), |i: int| lines[i].push('$'))
}

/// What one operation does to a sequence of lines.
pub open spec fn apply_command(c: Command, lines: Seq<Seq<char>>) -> Seq<Seq<char>> {
    match c {
        Command::SqueezeBlanks => spec_squeeze(lines),
        Command::ShowNonblankLineNumbers => spec_number_nonblank(lines),
        Command::ShowLineNumbers => spec_number_all(lines),
        Command::ShowTabs => spec_show_tabs(lines),
        Command::ShowEnds => spec_show_ends(lines),
    }
}

/// What a list of operations does, applied left to right, each stage
/// consuming the previous stage's output.
pub open spec fn apply_all(cmds: Seq<Command>, lines: Seq<Seq<char>>) -> Seq<Seq<char>>
    decreases cmds.len(),
{
    if cmds.len() == 0 {
        lines
    } else {
        apply_all(cmds.drop_first(), apply_command(cmds[0], lines))
    }
}

/// The ordered operation list that a set of options enables: squeezing
/// first, then at most one kind of numbering (non-blank numbering takes
/// precedence over plain numbering), then tab visualization, then end
/// markers; `show_all` forces the last two on.
pub open spec fn spec_commands_of(cli: Cli) -> Seq<Command> {
    (if cli.squeeze_blanks {
        seq![Command::SqueezeBlanks]
    } else {
        Seq::empty()
    }) + (if cli.number_nonblank {
        seq![Command::ShowNonblankLineNumbers]
    } else {
        Seq::empty()
    }) + (if cli.number && !cli.number_nonblank {
        seq![Command::ShowLineNumbers]
    } else {
        Seq::empty()
    }) + (if cli.show_tabs || cli.show_all {
        seq![Command::ShowTabs]
    } else {
        Seq::empty()
    }) + (if cli.show_ends || cli.show_all {
        seq![Command::ShowEnds]
    } else {
        Seq::empty()
    })
}

/// Collapses every run of two or more consecutive empty lines into a
/// single empty line; all other lines pass through unchanged, in order.
pub fn squeeze_blanks(lines: Vec<String>) -> (r: Vec<String>)
    ensures
        r.deep_view() == spec_squeeze(lines.deep_view()),
{
    let ghost ldv = lines.deep_view();
    let mut out: Vec<String> = Vec::new();
    proof {
        assert(ldv.take(0) =~= Seq::<Seq<char>>::empty());
        assert(out.deep_view() =~= spec_squeeze(ldv.take(0)));
    }
    for i in 0..lines.len()
        invariant
            ldv == lines.deep_view(),
            out.deep_view() == spec_squeeze(ldv.take(i as int)),
    {
        let keep = i == 0 || !lines[i].as_str().is_empty() || !lines[i - 1].as_str().is_empty();
        proof {
            assert(ldv.take(i + 1).drop_last() =~= ldv.take(i as int));
            assert(keep == keep_at(ldv.take(i + 1), i as int));
        }
        if keep {
            let ghost prev = out.deep_view();
            out.push(lines[i].clone());
            proof {
                assert(out.deep_view() =~= prev.push(ldv[i as int]));
            }
        }
    }
    proof {
        assert(ldv.take(lines.len() as int) =~= ldv);
    }
    out
}

/// Replaces every horizontal tab in every line by the two characters
/// `^I`; line count and order are unchanged.
pub fn show_tabs(lines: Vec<String>) -> (r: Vec<String>)
    ensures
        r.deep_view() == spec_show_tabs(lines.deep_view()),
{
    let ghost ldv = lines.deep_view();
    let mut out: Vec<String> = Vec::new();
    proof {
        assert(out.deep_view() =~= spec_show_tabs(ldv).take(0));
    }
    for i in 0..lines.len()
        invariant
            ldv == lines.deep_view(),
            out.deep_view() == spec_show_tabs(ldv).take(i as int),
    {
        let ghost prev = out.deep_view();
        out.push(replace_tabs(&lines[i]));
        proof {
            assert(out.deep_view() =~= prev.push(spec_replace_tabs(ldv[i as int])));
            assert(prev.push(spec_replace_tabs(ldv[i as int])) =~= spec_show_tabs(ldv).take(i + 1));
        }
    }
    proof {
        assert(spec_show_tabs(ldv).take(lines.len() as int) =~= spec_show_tabs(ldv));
    }
    out
}

/// Appends a single `'$'` to every line; line count and order are
/// unchanged.
pub fn show_ends(lines: Vec<String>) -> (r: Vec<String>)
    ensures
        r.deep_view() == spec_show_ends(lines.deep_view()),
{
    let ghost ldv = lines.deep_view();
    let mut out: Vec<String> = Vec::new();
    proof {
        assert(out.deep_view() =~= spec_show_ends(ldv).take(0));
    }
    for i in 0..lines.len()
        invariant
            ldv == lines.deep_view(),
            out.deep_view() == spec_show_ends(ldv).take(i as int),
    {
        let ghost prev = out.deep_view();
        let mut line = lines[i].clone();
        line.push('$');
        out.push(line);
        proof {
            assert(out.deep_view() =~= prev.push(ldv[i as int].push('$')));
            assert(prev.push(ldv[i as int].push('$')) =~= spec_show_ends(ldv).take(i + 1));
        }
    }
    proof {
        assert(spec_show_ends(ldv).take(lines.len() as int) =~= spec_show_ends(ldv));
    }
    out
}

/// Puts the numbering gutter in front of every line, numbers strictly
/// sequential from 1; line count and order are unchanged.
pub fn show_line_numbers(lines: Vec<String>) -> (r: Vec<String>)
    ensures
        r.deep_view() == spec_number_all(lines.deep_view()),
{
    let ghost ldv = lines.deep_view();
    let mut out: Vec<String> = Vec::new();
    proof {
        assert(out.deep_view() =~= spec_number_all(ldv).take(0));
    }
    for i in 0..lines.len()
        invariant
            ldv == lines.deep_view(),
            out.deep_view() == spec_number_all(ldv).take(i as int),
    {
        let ghost prev = out.deep_view();
        out.push(prefix_number(i + 1, &lines[i]));
        proof {
            assert(out.deep_view() =~= prev.push(number_prefix((i + 1) as nat) + ldv[i as int]));
            assert(prev.push(number_prefix((i + 1) as nat) + ldv[i as int]) =~= spec_number_all(
                ldv,
            ).take(i + 1));
        }
    }
    proof {
        assert(spec_number_all(ldv).take(lines.len() as int) =~= spec_number_all(ldv));
    }
    out
}

/// Puts the numbering gutter in front of every non-empty line, numbers
/// strictly sequential from 1 over the non-empty lines only; empty
/// lines pass through unchanged, and line count and order are
/// unchanged.
pub fn show_nonblank_line_numbers(lines: Vec<String>) -> (r: Vec<String>)
    ensures
        r.deep_view() == spec_number_nonblank(lines.deep_view()),
{
    let ghost ldv = lines.deep_view();
    let mut out: Vec<String> = Vec::new();
    let mut line_number: usize = 0;
    proof {
        assert(out.deep_view() =~= spec_number_nonblank(ldv).take(0));
    }
    for i in 0..lines.len()
        invariant
            ldv == lines.deep_view(),
            line_number as nat == nonblank_before(ldv, i as int),
            line_number <= i,
            out.deep_view() == spec_number_nonblank(ldv).take(i as int),
    {
        let ghost prev = out.deep_view();
        if lines[i].as_str().is_empty() {
            out.push(lines[i].clone());
            proof {
                assert(out.deep_view() =~= prev.push(ldv[i as int]));
                assert(prev.push(ldv[i as int]) =~= spec_number_nonblank(ldv).take(i + 1));
            }
        } else {
            line_number = line_number + 1;
            out.push(prefix_number(line_number, &lines[i]));
            proof {
                assert(out.deep_view() =~= prev.push(
                    number_prefix(line_number as nat) + ldv[i as int],
                ));
                assert(prev.push(number_prefix(line_number as nat) + ldv[i as int])
                    =~= spec_number_nonblank(ldv).take(i + 1));
            }
        }
    }
    proof {
        assert(spec_number_nonblank(ldv).take(lines.len() as int) =~= spec_number_nonblank(ldv));
    }
    out
}

/// Assembles one ordered sequence of lines out of the raw contents of
/// several sources: each source's text is split into its own lines and
/// the line lists are concatenated in source order. A source without a
/// trailing newline does not merge its last line into the next
/// source's first: every source's text is newline-terminated before
/// the texts are joined into one combined blob.
pub fn get_lines_from_files(contents: &Vec<String>) -> (r: Vec<String>)
    ensures
        r.deep_view() == lines_of_sources(contents.deep_view()),
{
    let ghost cdv = contents.deep_view();
    let mut combined = String::new();
    proof {
        assert(cdv.take(0) =~= Seq::<Seq<char>>::empty());
        assert(split_lines(combined@) =~= lines_of_sources(cdv.take(0)));
    }
    for i in 0..contents.len()
        invariant
            cdv == contents.deep_view(),
            combined@.len() == 0 || combined@.last() == '\n',
            split_lines(combined@) == lines_of_sources(cdv.take(i as int)),
    {
        let ghost prev = combined@;
        let n = contents[i].as_str().unicode_len();
        combined.append(contents[i].as_str());
        if n > 0 && contents[i].as_str().get_char(n - 1) != '\n' {
            combined.push('\n');
        }
        proof {
            assert(combined@ =~= prev + newline_terminated(cdv[i as int]));
            lemma_split_lines_of_terminated_source(prev, newline_terminated(cdv[i as int]));
            lemma_split_lines_newline_terminated(cdv[i as int]);
            assert(cdv.take(i + 1).drop_last() =~= cdv.take(i as int));
            assert(cdv.take(i + 1).last() == cdv[i as int]);
            if newline_terminated(cdv[i as int]).len() == 0 {
                assert(combined@ =~= prev);
            } else {
                assert(combined@.last() == newline_terminated(cdv[i as int]).last());
            }
        }
    }
    proof {
        assert(cdv.take(contents.len() as int) =~= cdv);
    }
    split_into_lines(combined.as_str())
}

impl CatCommands {
    /// Builds the pipeline input from an options record and the lines
    /// already assembled from the requested sources: the lines are kept
    /// as given, and the operation list is exactly the one the options
    /// enable, in the fixed order.
    pub fn from_cli(cli: &Cli, lines: Vec<String>) -> (r: CatCommands)
        ensures
            r.lines == lines,
            r.commands@ == spec_commands_of(*cli),
    {
        let mut commands: Vec<Command> = Vec::new();

        if cli.squeeze_blanks {
            commands.push(Command::SqueezeBlanks)
        };
        if cli.number_nonblank {
            commands.push(Command::ShowNonblankLineNumbers)
        };
        if cli.number && !cli.number_nonblank {
            commands.push(Command::ShowLineNumbers)
        };
        if cli.show_tabs || cli.show_all {
            commands.push(Command::ShowTabs)
        };
        if cli.show_ends || cli.show_all {
            commands.push(Command::ShowEnds)
        };
        proof {
            assert(commands@ =~= spec_commands_of(*cli));
        }

        CatCommands { lines, commands }
    }

    /// Runs every operation of the list over the lines, in list order,
    /// each stage consuming the previous stage's output; the operation
    /// list itself is kept.
    pub fn modify_lines(self) -> (r: CatCommands)
        ensures
            r.commands@ == self.commands@,
            r.lines.deep_view() == apply_all(self.commands@, self.lines.deep_view()),
    {
        let CatCommands { mut lines, commands } = self;
        let ghost lines0 = lines.deep_view();
        proof {
            assert(commands@.skip(0) =~= commands@);
        }
        for i in 0..commands.len()
            invariant
                commands@ == self.commands@,
                apply_all(commands@, lines0) == apply_all(
                    commands@.skip(i as int),
                    lines.deep_view(),
                ),
        {
            proof {
                assert(commands@.skip(i as int).drop_first() =~= commands@.skip(i + 1));
                assert(commands@.skip(i as int)[0] == commands@[i as int]);
            }
            lines = match commands[i] {
                Command::SqueezeBlanks => squeeze_blanks(lines),
                Command::ShowNonblankLineNumbers => show_nonblank_line_numbers(lines),
                Command::ShowLineNumbers => show_line_numbers(lines),
                Command::ShowTabs => show_tabs(lines),
                Command::ShowEnds => show_ends(lines),
            };
        }
        proof {
            assert(commands@.skip(commands.len() as int) =~= Seq::<Command>::empty());
        }
        CatCommands { lines, commands }
    }

    /// Writes every line to standard output, in order, one output line
    /// each.
    pub fn print_lines(&self) {
        for i in 0..self.lines.len() {
            write_line(&self.lines[i]);
        }
    }
}

/// Relies on `writeln` to `std::io::Stdout`: writes the text followed
/// by a newline to standard output.
#[verifier::external_body]
fn write_line(line: &String) {
    let _ = writeln!(std::io::stdout(), "{}", line);
}

} // verus!
