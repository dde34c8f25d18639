//! Building a process launch from a desktop entry's command line.
//!
//! The command line is shell-tokenized by the `shlex` crate behind a
//! trusted wrapper.  The rules on the tokens are verified: a first
//! token containing `=` rejects the whole line (a bare environment
//! assignment is not a program), and remaining tokens that begin with
//! `%` — field placeholders — are stripped.

use vstd::prelude::*;
use crate::group::str_views;
use crate::text::chars_of;

verus! {

/// The tokens that `shlex` splits a command line into.  The result is
/// a function of the line alone.
pub uninterp spec fn shell_tokens_of(s: Seq<char>) -> Seq<Seq<char>>;

/// Relies on `shlex::Shlex`: the token sequence depends on the input
/// line alone.  Tokens produced before a quoting error are kept, as
/// the iterator yields them.
#[verifier::external_body]
fn tokenize(s: &str) -> (r: Vec<String>)
    ensures
        str_views(r@) == shell_tokens_of(s@),
{
    shlex::Shlex::new(s).collect()
}

/// A program together with its arguments, ready to spawn.
#[derive(Debug)]
pub struct LaunchCommand {
    pub program: String,
    pub args: Vec<String>,
}

/// Whether a token contains `=`.
pub open spec fn token_has_eq(t: Seq<char>) -> bool {
    exists|i: int| 0 <= i < t.len() && t[i] == '='
}

/// Whether a token begins with `%`.
pub open spec fn is_placeholder(t: Seq<char>) -> bool {
    t.len() > 0 && t[0] == '%'
}

/// The argument tokens with the field placeholders stripped.
pub open spec fn strip_placeholders(ts: Seq<Seq<char>>) -> Seq<Seq<char>>
    decreases ts.len(),
{
    if ts.len() == 0 {
        Seq::<Seq<char>>::empty()
    } else {
        strip_placeholders(ts.drop_last()) + if is_placeholder(ts.last()) {
            Seq::<Seq<char>>::empty()
        } else {
            seq![ts.last()]
        }
    }
}

/// Whether a token sequence yields a launchable command: it has a
/// first token, and that token holds no `=`.
pub open spec fn tokens_launchable(ts: Seq<Seq<char>>) -> bool {
    ts.len() > 0 && !token_has_eq(ts[0])
}

fn token_contains_eq(t: &String) -> (r: bool)
    ensures
        r == token_has_eq(t@),
{
    let tv = chars_of(t.as_str());
    let mut i: usize = 0;
    while i < tv.len()
        invariant
            0 <= i <= t@.len(),
            tv@ == t@,
            forall|k: int| 0 <= k < i ==> t@[k] != '=',
        decreases t@.len() - i,
    {
        if tv[i] == '=' {
            return true;
        }
        i = i + 1;
    }
    false
}

fn token_is_placeholder(t: &String) -> (r: bool)
    ensures
        r == is_placeholder(t@),
{
    let tv = chars_of(t.as_str());
    tv.len() > 0 && tv[0] == '%'
}

/// Builds the launch command from already-split tokens: the first token
/// is the program unless it contains `=`; the remaining tokens are the
/// arguments, with `%`-placeholders stripped.
#[verifier::loop_isolation(false)]
pub fn build_command(tokens: &Vec<String>) -> (r: Option<LaunchCommand>)
    ensures
        r is Some <==> tokens_launchable(str_views(tokens@)),
        r matches Option::Some(c) ==> {
            &&& c.program@ == str_views(tokens@)[0]
            &&& str_views(c.args@) == strip_placeholders(str_views(tokens@).drop_first())
        },
{
    let ghost views = str_views(tokens@);
    if tokens.len() == 0 {
        return Option::None;
    }
    proof {
        assert(views[0] == tokens@[0]@);
    }
    if token_contains_eq(&tokens[0]) {
        return Option::None;
    }
    let program = tokens[0].clone();
    let mut args: Vec<String> = Vec::new();
    let ghost rest = views.drop_first();
    proof {
        assert(rest.take(0) =~= Seq::<Seq<char>>::empty());
        assert(str_views(args@) =~= strip_placeholders(rest.take(0)));
    }
    let mut i: usize = 1;
    while i < tokens.len()
        invariant
            1 <= i <= views.len(),
            str_views(args@) == strip_placeholders(rest.take(i - 1)),
        decreases views.len() - i,
    {
        proof {
            assert(views[i as int] == tokens@[i as int]@);
            assert(rest[i - 1] == views[i as int]);
            assert(rest.take(i as int).drop_last() =~= rest.take(i - 1));
            assert(rest.take(i as int).last() == rest[i - 1]);
        }
        if !token_is_placeholder(&tokens[i]) {
            let ghost pre = str_views(args@);
            args.push(tokens[i].clone());
            proof {
                assert(str_views(args@) =~= pre + seq![rest[i - 1]]);
            }
        } else {
            proof {
                assert(str_views(args@) =~= str_views(args@) + Seq::<Seq<char>>::empty());
            }
        }
        i = i + 1;
    }
    proof {
        assert(rest.take(views.len() - 1) =~= rest);
    }
    Option::Some(LaunchCommand { program, args })
}

/// Tokenizes a desktop entry's command line and builds the launch
/// command from the tokens.
pub fn launch_command(exec_line: &str) -> (r: Option<LaunchCommand>)
    ensures
        r is Some <==> tokens_launchable(shell_tokens_of(exec_line@)),
        r matches Option::Some(c) ==> {
            &&& c.program@ == shell_tokens_of(exec_line@)[0]
            &&& str_views(c.args@) == strip_placeholders(shell_tokens_of(exec_line@).drop_first())
        },
{
    let tokens = tokenize(exec_line);
    build_command(&tokens)
}

} // verus!
