//! The command line that the autostart entry runs: arguments that hold a
//! character the shell would read are quoted.

use vstd::prelude::*;
use crate::text::push_char;

verus! {

/// What the autostart command asks of the registry.
#[derive(Debug, Clone, Copy, PartialEq, Eq, Structural)]
pub enum AutostartCommand {
    Get,
    Activate,
    Deactivate,
}

/// Characters that make an argument need quotes.
pub open spec fn is_unsafe_char(c: char) -> bool {
    c == '!' || c == '"' || c == '#' || c == '$' || c == '&' || c == '\'' || c == '(' || c == ')'
        || c == '*' || c == ']' || c == '^' || c == '`' || c == '{' || c == '|' || c == '}' || c == '~'
        || c == ' '
}

/// Whether `s` holds a character that needs quotes.
pub open spec fn needs_quotes(s: Seq<char>) -> bool {
    exists|i: int| 0 <= i < s.len() && is_unsafe_char(#[trigger] s[i])
}

/// `s` with a backslash before every double quote.
pub open spec fn escape_double_quotes(s: Seq<char>) -> Seq<char>
    decreases s.len(),
{
    if s.len() == 0 {
        seq![]
    } else if s.last() == '"' {
        escape_double_quotes(s.drop_last()) + seq!['\\', '"']
    } else {
        escape_double_quotes(s.drop_last()).push(s.last())
    }
}

/// One argument as it stands on the command line.
pub open spec fn quoted(s: Seq<char>) -> Seq<char> {
    if needs_quotes(s) {
        seq!['"'] + escape_double_quotes(s) + seq!['"']
    } else {
        s
    }
}

/// The arguments, each quoted where needed, joined by single spaces.
pub open spec fn command_line(args: Seq<Seq<char>>) -> Seq<char>
    decreases args.len(),
{
    if args.len() == 0 {
        seq![]
    } else if args.len() == 1 {
        quoted(args[0])
    } else {
        command_line(args.drop_last()) + seq![' '] + quoted(args.last())
    }
}

fn unsafe_char(c: char) -> (r: bool)
    ensures
        r == is_unsafe_char(c),
{
    c == '!' || c == '"' || c == '#' || c == '$' || c == '&' || c == '\'' || c == '(' || c == ')'
        || c == '*' || c == ']' || c == '^' || c == '`' || c == '{' || c == '|' || c == '}' || c == '~'
        || c == ' '
}

/// Whether `arg` needs quotes on a command line.
pub fn check_unsafe(arg: &String) -> (r: bool)
    ensures
        r == needs_quotes(arg@),
{
    let mut found = false;
    for c in it: arg.as_str().chars()
        invariant
            it.seq() == arg@,
            found == exists|i: int| 0 <= i < it.index() && is_unsafe_char(#[trigger] arg@[i]),
    {
        proof {
            assert(arg@[it.index() as int] == c);
        }
        if unsafe_char(c) {
            found = true;
        }
    }
    found
}

/// Appends `s` to `out`, quoted where needed.
fn push_quoted(out: &mut String, s: &String)
    ensures
        final(out)@ == old(out)@ + quoted(s@),
{
    if !check_unsafe(s) {
        out.append(s.as_str());
        return;
    }
    let ghost start = out@;
    push_char(out, '"');
    let ghost prefix = out@;
    for c in it: s.as_str().chars()
        invariant
            it.seq() == s@,
            out@ == prefix + escape_double_quotes(s@.take(it.index() as int)),
    {
        let ghost k = it.index() as int;
        proof {
            assert(s@.take(k + 1) =~= s@.take(k).push(c));
            assert(s@.take(k + 1).drop_last() =~= s@.take(k));
        }
        if c == '"' {
            push_char(out, '\\');
        }
        push_char(out, c);
        proof {
            assert(out@ =~= prefix + escape_double_quotes(s@.take(k + 1)));
        }
    }
    push_char(out, '"');
    proof {
        assert(s@.take(s@.len() as int) =~= s@);
        assert(out@ =~= start + quoted(s@));
    }
}

/// The command line for `args`: each argument quoted where needed, joined
/// by single spaces.
pub fn argquote(args: Vec<String>) -> (r: String)
    ensures
        r@ == command_line(args@.map_values(|a: String| a@)),
{
    let ghost all = args@.map_values(|a: String| a@);
    let mut out = String::new();
    let mut i: usize = 0;
    while i < args.len()
        invariant
            i <= args.len(),
            all == args@.map_values(|a: String| a@),
            out@ == command_line(all.take(i as int)),
        decreases args.len() - i,
    {
        proof {
            assert(all.take(i + 1).drop_last() =~= all.take(i as int));
            assert(all.take(i + 1).last() == args[i as int]@);
        }
        if i > 0 {
            push_char(&mut out, ' ');
        }
        push_quoted(&mut out, &args[i]);
        proof {
            if i == 0 {
                assert(command_line(all.take(0)) =~= Seq::<char>::empty());
                assert(all.take(1)[0] == args[0]@);
                assert(out@ =~= command_line(all.take(1)));
            } else {
                assert(out@ =~= command_line(all.take(i + 1)));
            }
        }
        i = i + 1;
    }
    assert(all.take(args.len() as int) =~= all);
    out
}

} // verus!
