//! General laws of the transform stages, stated over the same spec
//! functions that the executable functions' contracts use.

use vstd::prelude::*;

use crate::cli::Cli;
use crate::commands::{
    keep_at, nonblank_before, spec_commands_of, spec_number_all, spec_number_nonblank,
    spec_show_ends, spec_show_tabs, spec_squeeze, Command,
};
use crate::text::{number_prefix, spec_replace_tabs, tab_expansion};

verus! {

/// The non-empty lines of a sequence, in order.
pub open spec fn nonblank_lines(lines: Seq<Seq<char>>) -> Seq<Seq<char>> {
    lines.filter(|l: Seq<char>| l.len() > 0)
}

/// No line of `lines` is an empty line directly following another
/// empty line.
pub open spec fn no_consecutive_blanks(lines: Seq<Seq<char>>) -> bool {
    forall|i: int| 0 <= i < lines.len() ==> #[trigger] keep_at(lines, i)
}

proof fn squeeze_basics(lines: Seq<Seq<char>>)
    ensures
        spec_squeeze(lines).len() <= lines.len(),
        lines.len() > 0 ==> spec_squeeze(lines).len() > 0,
        lines.len() > 0 ==> (spec_squeeze(lines).last().len() == 0 <==> lines.last().len() == 0),
        no_consecutive_blanks(spec_squeeze(lines)),
    decreases lines.len(),
{
    if lines.len() == 0 {
    } else {
        let dl = lines.drop_last();
        squeeze_basics(dl);
        let sub = spec_squeeze(dl);
        if keep_at(lines, lines.len() - 1) {
            let out = sub.push(lines.last());
            assert(out.last() == lines.last());
            assert forall|i: int| 0 <= i < out.len() implies #[trigger] keep_at(out, i) by {
                if i < sub.len() {
                    assert(out[i] == sub[i]);
                    if i > 0 {
                        assert(out[i - 1] == sub[i - 1]);
                        assert(keep_at(sub, i));
                    }
                } else if i == sub.len() && i > 0 {
                    assert(out[i] == lines.last());
                    assert(out[i - 1] == sub.last());
                    if lines.last().len() == 0 {
                        // the last line was kept, so its predecessor in
                        // the input is non-empty, and so is the last
                        // line of the squeezed remainder
                        assert(lines.len() > 1 && lines[lines.len() - 2].len() > 0);
                        assert(dl.last() == lines[lines.len() - 2]);
                    }
                }
            }
        } else {
            assert(lines.last().len() == 0 && dl.last().len() == 0);
        }
    }
}

/// Squeezing blanks leaves no two consecutive empty lines in the
/// output.
pub proof fn lemma_squeeze_no_consecutive_blanks(lines: Seq<Seq<char>>)
    ensures
        no_consecutive_blanks(spec_squeeze(lines)),
{
    squeeze_basics(lines);
}

/// Squeezing blanks removes only blank lines: the non-empty lines of
/// the output are exactly the non-empty lines of the input, in order.
pub proof fn lemma_squeeze_keeps_nonblank_lines(lines: Seq<Seq<char>>)
    ensures
        nonblank_lines(spec_squeeze(lines)) == nonblank_lines(lines),
    decreases lines.len(),
{
    reveal(Seq::filter);
    if lines.len() == 0 {
        assert(spec_squeeze(lines) =~= lines);
    } else {
        let dl = lines.drop_last();
        lemma_squeeze_keeps_nonblank_lines(dl);
        let sub = spec_squeeze(dl);
        if keep_at(lines, lines.len() - 1) {
            let out = sub.push(lines.last());
            assert(out.drop_last() =~= sub);
            assert(out.last() == lines.last());
            assert(nonblank_lines(out) == if lines.last().len() > 0 {
                nonblank_lines(sub).push(lines.last())
            } else {
                nonblank_lines(sub)
            });
            assert(nonblank_lines(lines) == if lines.last().len() > 0 {
                nonblank_lines(dl).push(lines.last())
            } else {
                nonblank_lines(dl)
            });
        } else {
            assert(lines.last().len() == 0);
            assert(nonblank_lines(lines) == nonblank_lines(dl));
        }
    }
}

proof fn squeeze_fixed_point(lines: Seq<Seq<char>>)
    requires
        no_consecutive_blanks(lines),
    ensures
        spec_squeeze(lines) == lines,
    decreases lines.len(),
{
    if lines.len() == 0 {
        assert(spec_squeeze(lines) =~= lines);
    } else {
        let dl = lines.drop_last();
        assert forall|i: int| 0 <= i < dl.len() implies #[trigger] keep_at(dl, i) by {
            assert(dl[i] == lines[i]);
            if i > 0 {
                assert(dl[i - 1] == lines[i - 1]);
            }
            assert(keep_at(lines, i));
        }
        squeeze_fixed_point(dl);
        assert(keep_at(lines, lines.len() - 1));
        assert(spec_squeeze(lines) =~= lines);
    }
}

/// Squeezing blanks is idempotent: a second pass changes nothing.
pub proof fn lemma_squeeze_idempotent(lines: Seq<Seq<char>>)
    ensures
        spec_squeeze(spec_squeeze(lines)) == spec_squeeze(lines),
{
    squeeze_basics(lines);
    squeeze_fixed_point(spec_squeeze(lines));
}

/// Appending end markers is not idempotent: on any non-empty sequence
/// of lines a second pass appends a second `'$'`.
pub proof fn lemma_show_ends_not_idempotent(lines: Seq<Seq<char>>)
    requires
        lines.len() > 0,
    ensures
        spec_show_ends(spec_show_ends(lines)) != spec_show_ends(lines),
{
    let once = spec_show_ends(lines);
    let twice = spec_show_ends(once);
    assert(once[0].len() == lines[0].len() + 1);
    assert(twice[0].len() == lines[0].len() + 2);
    assert(twice[0] != once[0]);
}

proof fn replace_tabs_no_tab(s: Seq<char>)
    ensures
        !spec_replace_tabs(s).contains('\t'),
    decreases s.len(),
{
    if s.len() == 0 {
    } else {
        replace_tabs_no_tab(s.drop_last());
        let sub = spec_replace_tabs(s.drop_last());
        let ext = tab_expansion(s.last());
        assert(!ext.contains('\t')) by {
            if s.last() == '\t' {
                assert(forall|i: int| 0 <= i < ext.len() ==> #[trigger] ext[i] != '\t');
            } else {
                assert(forall|i: int| 0 <= i < ext.len() ==> #[trigger] ext[i] != '\t');
            }
        }
        if spec_replace_tabs(s).contains('\t') {
            let j = choose|j: int|
                0 <= j < spec_replace_tabs(s).len() && spec_replace_tabs(s)[j] == '\t';
            if j < sub.len() {
                assert(sub[j] == '\t');
            } else {
                assert(ext[j - sub.len()] == '\t');
            }
        }
    }
}

/// Tab visualization keeps the line count and leaves no horizontal tab
/// in any output line.
pub proof fn lemma_show_tabs_output(lines: Seq<Seq<char>>)
    ensures
        spec_show_tabs(lines).len() == lines.len(),
        forall|i: int|
            0 <= i < lines.len() ==> !(#[trigger] spec_show_tabs(lines)[i]).contains('\t'),
{
    assert forall|i: int| 0 <= i < lines.len() implies !(#[trigger] spec_show_tabs(
        lines,
    )[i]).contains('\t') by {
        replace_tabs_no_tab(lines[i]);
    }
}

/// End marking keeps the line count and makes every output line end in
/// `'$'`.
pub proof fn lemma_show_ends_output(lines: Seq<Seq<char>>)
    ensures
        spec_show_ends(lines).len() == lines.len(),
        forall|i: int|
            0 <= i < lines.len() ==> (#[trigger] spec_show_ends(lines)[i]).len() == lines[i].len()
                + 1,
        forall|i: int|
            0 <= i < lines.len() ==> (#[trigger] spec_show_ends(lines)[i]).last() == '$',
{
}

/// Plain numbering keeps the line count and gives line `i` the gutter
/// for number `i + 1`: strictly sequential numbers from 1 on every
/// line, blank or not.
pub proof fn lemma_number_all_output(lines: Seq<Seq<char>>)
    ensures
        spec_number_all(lines).len() == lines.len(),
        forall|i: int|
            0 <= i < lines.len() ==> #[trigger] spec_number_all(lines)[i] == number_prefix(
                (i + 1) as nat,
            ) + lines[i],
{
}

/// Non-blank numbering keeps the line count, never numbers an empty
/// line (empty lines pass through unchanged), and gives a non-empty
/// line the gutter for one more than the count of non-empty lines
/// before it; that count starts at zero and grows by exactly one at
/// each non-empty line.
pub proof fn lemma_number_nonblank_output(lines: Seq<Seq<char>>)
    ensures
        spec_number_nonblank(lines).len() == lines.len(),
        forall|i: int|
            0 <= i < lines.len() && lines[i].len() == 0 ==> #[trigger] spec_number_nonblank(
                lines,
            )[i] == lines[i],
        forall|i: int|
            0 <= i < lines.len() && lines[i].len() > 0 ==> #[trigger] spec_number_nonblank(
                lines,
            )[i] == number_prefix(nonblank_before(lines, i) + 1) + lines[i],
        nonblank_before(lines, 0) == 0,
        forall|i: int|
            0 <= i < lines.len() ==> #[trigger] nonblank_before(lines, i + 1) == nonblank_before(
                lines,
                i,
            ) + (if lines[i].len() == 0 {
                0nat
            } else {
                1nat
            }),
{
}

/// Between two non-empty lines with only empty lines in between, the
/// assigned numbers are consecutive: the later line's number is one
/// more than the earlier line's.
pub proof fn lemma_nonblank_numbers_sequential(lines: Seq<Seq<char>>, i: int, j: int)
    requires
        0 <= i < j < lines.len(),
        lines[i].len() > 0,
        lines[j].len() > 0,
        forall|k: int| i < k < j ==> (#[trigger] lines[k]).len() == 0,
    ensures
        nonblank_before(lines, j) == nonblank_before(lines, i) + 1,
{
    nonblank_count_stable(lines, i + 1, j);
}

proof fn nonblank_count_stable(lines: Seq<Seq<char>>, i: int, j: int)
    requires
        0 <= i <= j <= lines.len(),
        forall|k: int| i <= k < j ==> (#[trigger] lines[k]).len() == 0,
    ensures
        nonblank_before(lines, j) == nonblank_before(lines, i),
    decreases j - i,
{
    if j > i {
        assert(lines[j - 1].len() == 0);
        nonblank_count_stable(lines, i, j - 1);
    }
}

/// Non-blank numbering takes precedence: with both numbering switches
/// set, the enabled operations include non-blank numbering and never
/// plain numbering.
pub proof fn lemma_numbering_mutual_exclusion(cli: Cli)
    requires
        cli.number,
        cli.number_nonblank,
    ensures
        spec_commands_of(cli).contains(Command::ShowNonblankLineNumbers),
        !spec_commands_of(cli).contains(Command::ShowLineNumbers),
{
    let cmds = spec_commands_of(cli);
    let k: int = if cli.squeeze_blanks {
        1
    } else {
        0
    };
    assert(cmds[k] == Command::ShowNonblankLineNumbers);
    assert(cmds.contains(Command::ShowNonblankLineNumbers));
    assert forall|i: int| 0 <= i < cmds.len() implies #[trigger] cmds[i]
        != Command::ShowLineNumbers by {}
}

/// `show_all` forces both tab visualization and end markers into the
/// enabled operations, whatever the individual switches say.
pub proof fn lemma_show_all_forces(cli: Cli)
    requires
        cli.show_all,
    ensures
        spec_commands_of(cli).contains(Command::ShowTabs),
        spec_commands_of(cli).contains(Command::ShowEnds),
{
    let cmds = spec_commands_of(cli);
    assert(cmds[cmds.len() - 2] == Command::ShowTabs);
    assert(cmds[cmds.len() - 1] == Command::ShowEnds);
    assert(cmds.contains(Command::ShowTabs));
    assert(cmds.contains(Command::ShowEnds));
}

} // verus!
