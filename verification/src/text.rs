//! Character-level building blocks: decimal rendering of line numbers,
//! the numbering gutter, tab expansion, and splitting a text into lines
//! at newline boundaries.

use vstd::prelude::*;
use vstd::string::StringExecFns;

verus! {

/// Relies on `String::push`: appends the given character to the end of
/// the string.
pub assume_specification[ String::push ](s: &mut String, ch: char)
    ensures
        final(s)@ == old(s)@.push(ch),
;

/// The decimal digit character for a value below ten.
pub open spec fn spec_digit(d: nat) -> char {
    if d == 0 {
        '0'
    } else if d == 1 {
        '1'
    } else if d == 2 {
        '2'
    } else if d == 3 {
        '3'
    } else if d == 4 {
        '4'
    } else if d == 5 {
        '5'
    } else if d == 6 {
        '6'
    } else if d == 7 {
        '7'
    } else if d == 8 {
        '8'
    } else {
        '9'
    }
}

/// The usual decimal rendering of `n`, most significant digit first,
/// with no leading zeros (a lone `'0'` for zero).
pub open spec fn spec_num_chars(n: nat) -> Seq<char>
    decreases n,
{
    if n < 10 {
        seq![spec_digit(n)]
    } else {
        spec_num_chars(n / 10).push(spec_digit(n % 10))
    }
}

/// The gutter put in front of a numbered line: five spaces, the decimal
/// number, then two spaces.
pub open spec fn number_prefix(k: nat) -> Seq<char> {
    seq![' ', ' ', ' ', ' ', ' '] + spec_num_chars(k) + seq![' ', ' ']
}

/// What a single character becomes under tab visualization.
pub open spec fn tab_expansion(c: char) -> Seq<char> {
    if c == '\t' {
        seq!['^', 'I']
    } else {
        seq![c]
    }
}

/// A line with every horizontal tab replaced by the two characters `^I`.
pub open spec fn spec_replace_tabs(s: Seq<char>) -> Seq<char>
    decreases s.len(),
{
    if s.len() == 0 {
        Seq::empty()
    } else {
        spec_replace_tabs(s.drop_last()) + tab_expansion(s.last())
    }
}

/// Splitting a text into lines, carrying the characters read since the
/// last newline in `cur`: each newline ends a line, and a final partial
/// line is kept unless it is empty.
pub open spec fn split_acc(t: Seq<char>, cur: Seq<char>) -> Seq<Seq<char>>
    decreases t.len(),
{
    if t.len() == 0 {
        if cur.len() == 0 {
            Seq::empty()
        } else {
            seq![cur]
        }
    } else if t[0] == '\n' {
        seq![cur] + split_acc(t.drop_first(), Seq::empty())
    } else {
        split_acc(t.drop_first(), cur.push(t[0]))
    }
}

/// The lines of a text: split at each newline, the newline itself kept
/// in no line, and a final partial line without trailing newline still
/// included (while a trailing newline adds no empty final line).
pub open spec fn split_lines(t: Seq<char>) -> Seq<Seq<char>> {
    split_acc(t, Seq::empty())
}

/// A text with a newline guaranteed at its end: an empty text or one
/// already ending in a newline is unchanged, any other gets one
/// appended.
pub open spec fn newline_terminated(t: Seq<char>) -> Seq<char> {
    if t.len() == 0 || t.last() == '\n' {
        t
    } else {
        t.push('\n')
    }
}

/// The lines of several source texts, each split on its own and the
/// line lists concatenated in source order.
pub open spec fn lines_of_sources(ts: Seq<Seq<char>>) -> Seq<Seq<char>>
    decreases ts.len(),
{
    if ts.len() == 0 {
        Seq::empty()
    } else {
        lines_of_sources(ts.drop_last()) + split_lines(ts.last())
    }
}

proof fn split_acc_concat(a: Seq<char>, b: Seq<char>, cur: Seq<char>)
    requires
        a.len() > 0,
        a.last() == '\n',
    ensures
        split_acc(a + b, cur) == split_acc(a, cur) + split_acc(b, Seq::empty()),
    decreases a.len(),
{
    let c = a[0];
    assert((a + b)[0] == c);
    assert((a + b).len() > 0);
    assert((a + b).drop_first() =~= a.drop_first() + b);
    if a.len() == 1 {
        assert(c == '\n');
        assert(a.drop_first() =~= Seq::<char>::empty());
        assert(split_acc(a, cur) =~= seq![cur]);
        assert(split_acc(a + b, cur) =~= seq![cur] + split_acc(b, Seq::empty()));
    } else {
        assert(a.drop_first().last() == a.last());
        if c == '\n' {
            split_acc_concat(a.drop_first(), b, Seq::empty());
            assert(split_acc(a + b, cur) =~= split_acc(a, cur) + split_acc(b, Seq::empty()));
        } else {
            split_acc_concat(a.drop_first(), b, cur.push(c));
        }
    }
}

/// Splitting respects source boundaries: when a source's text is empty
/// or ends with a newline, splitting it concatenated with further text
/// yields exactly its own lines followed by the lines of the rest.
pub proof fn lemma_split_lines_of_terminated_source(a: Seq<char>, b: Seq<char>)
    requires
        a.len() == 0 || a.last() == '\n',
    ensures
        split_lines(a + b) == split_lines(a) + split_lines(b),
{
    if a.len() == 0 {
        assert(a + b =~= b);
        assert(split_lines(a) + split_lines(b) =~= split_lines(b));
    } else {
        split_acc_concat(a, b, Seq::empty());
    }
}

proof fn split_acc_append_newline(t: Seq<char>, cur: Seq<char>)
    requires
        t.len() > 0,
        t.last() != '\n',
    ensures
        split_acc(t + seq!['\n'], cur) == split_acc(t, cur),
    decreases t.len(),
{
    let c = t[0];
    let u = t + seq!['\n'];
    assert(u[0] == c);
    assert(u.drop_first() =~= t.drop_first() + seq!['\n']);
    if t.len() == 1 {
        reveal_with_fuel(split_acc, 3);
        assert(c != '\n');
        assert(t.drop_first() =~= Seq::<char>::empty());
        assert(u.drop_first() =~= seq!['\n']);
        assert(seq!['\n'].drop_first() =~= Seq::<char>::empty());
        assert(split_acc(u.drop_first(), cur.push(c)) =~= seq![cur.push(c)]);
        assert(split_acc(t, cur) =~= seq![cur.push(c)]);
    } else {
        assert(t.drop_first().last() == t.last());
        if c == '\n' {
            split_acc_append_newline(t.drop_first(), Seq::empty());
        } else {
            split_acc_append_newline(t.drop_first(), cur.push(c));
        }
    }
}

/// Guaranteeing the trailing newline changes no line: a text and its
/// newline-terminated form split into the same lines.
pub proof fn lemma_split_lines_newline_terminated(t: Seq<char>)
    ensures
        split_lines(newline_terminated(t)) == split_lines(t),
{
    if t.len() == 0 || t.last() == '\n' {
    } else {
        assert(t.push('\n') =~= t + seq!['\n']);
        split_acc_append_newline(t, Seq::empty());
    }
}

/// The decimal digit character of a value below ten.
fn digit_char(d: usize) -> (c: char)
    requires
        d < 10,
    ensures
        c == spec_digit(d as nat),
{
    if d == 0 {
        '0'
    } else if d == 1 {
        '1'
    } else if d == 2 {
        '2'
    } else if d == 3 {
        '3'
    } else if d == 4 {
        '4'
    } else if d == 5 {
        '5'
    } else if d == 6 {
        '6'
    } else if d == 7 {
        '7'
    } else if d == 8 {
        '8'
    } else {
        '9'
    }
}

/// Renders `n` in decimal.
pub fn num_to_string(n: usize) -> (s: String)
    ensures
        s@ == spec_num_chars(n as nat),
    decreases n,
{
    if n < 10 {
        let mut s = String::new();
        s.push(digit_char(n));
        proof {
            assert(s@ =~= spec_num_chars(n as nat));
        }
        s
    } else {
        let mut s = num_to_string(n / 10);
        s.push(digit_char(n % 10));
        s
    }
}

/// Puts the numbering gutter for number `k` in front of a line.
pub fn prefix_number(k: usize, line: &String) -> (r: String)
    ensures
        r@ == number_prefix(k as nat) + line@,
{
    let mut s: String = "     ".to_owned();
    proof {
        reveal_strlit("     ");
        assert(s@ =~= seq![' ', ' ', ' ', ' ', ' ']);
    }
    let num = num_to_string(k);
    s.append(num.as_str());
    s.append("  ");
    proof {
        reveal_strlit("  ");
        assert(s@ =~= seq![' ', ' ', ' ', ' ', ' '] + spec_num_chars(k as nat) + seq![' ', ' ']);
    }
    s.append(line.as_str());
    proof {
        assert(s@ =~= number_prefix(k as nat) + line@);
    }
    s
}

/// Replaces every horizontal tab of the line by `^I`.
pub fn replace_tabs(line: &String) -> (r: String)
    ensures
        r@ == spec_replace_tabs(line@),
{
    let text = line.as_str();
    let n = text.unicode_len();
    let mut r = String::new();
    for i in 0..n
        invariant
            n == text@.len(),
            text@ == line@,
            r@ == spec_replace_tabs(text@.take(i as int)),
    {
        let c = text.get_char(i);
        proof {
            assert(text@.take(i + 1).drop_last() =~= text@.take(i as int));
        }
        if c == '\t' {
            r.push('^');
            r.push('I');
            proof {
                assert(r@ =~= spec_replace_tabs(text@.take(i as int)) + tab_expansion(c));
            }
        } else {
            r.push(c);
            proof {
                assert(r@ =~= spec_replace_tabs(text@.take(i as int)) + tab_expansion(c));
            }
        }
    }
    proof {
        assert(text@.take(n as int) =~= line@);
    }
    r
}

/// Splits a text into its lines at newline boundaries.
pub fn split_into_lines(text: &str) -> (r: Vec<String>)
    ensures
        r.deep_view() == split_lines(text@),
{
    let n = text.unicode_len();
    let mut out: Vec<String> = Vec::new();
    let mut cur = String::new();
    proof {
        assert(out.deep_view() =~= Seq::<Seq<char>>::empty());
        assert(text@.skip(0) =~= text@);
        assert(out.deep_view() + split_acc(text@.skip(0), cur@) =~= split_lines(text@));
    }
    for i in 0..n
        invariant
            n == text@.len(),
            split_lines(text@) == out.deep_view() + split_acc(
                text@.skip(i as int),
                cur@,
            ),
    {
        let c = text.get_char(i);
        proof {
            assert(text@.skip(i as int).drop_first() =~= text@.skip(i + 1));
            assert(text@.skip(i as int)[0] == text@[i as int]);
        }
        if c == '\n' {
            let ghost prev = out.deep_view();
            let ghost finished = cur@;
            out.push(cur);
            cur = String::new();
            proof {
                assert(out.deep_view() =~= prev.push(finished));
                assert(prev.push(finished) =~= prev + seq![finished]);
            }
        } else {
            cur.push(c);
        }
    }
    proof {
        assert(text@.skip(n as int) =~= Seq::<char>::empty());
    }
    if !cur.as_str().is_empty() {
        let ghost prev = out.deep_view();
        let ghost finished = cur@;
        out.push(cur);
        proof {
            assert(out.deep_view() =~= prev + seq![finished]);
        }
    }
    proof {
        assert(split_lines(text@) =~= out.deep_view());
    }
    out
}

} // verus!
