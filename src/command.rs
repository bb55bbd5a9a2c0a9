//! What one stage of a pipeline asks for, and the working-directory built-in.
use vstd::prelude::*;
use crate::parse::{views, words};

verus! {

/// The name of the built-in that ends the shell.
pub open spec fn exit_name() -> Seq<char> {
    seq!['e', 'x', 'i', 't']
}

/// The name of the built-in that changes the working directory.
pub open spec fn cd_name() -> Seq<char> {
    seq!['c', 'd']
}

/// One stage of a pipeline, resolved once from its words.
pub enum Command {
    /// A stage with no words: a bar with nothing on one side.
    Empty,
    /// The `exit` built-in; its arguments are ignored.
    Exit,
    /// The `cd` built-in with its arguments.
    Cd { args: Vec<String> },
    /// Any other program, with its arguments.
    External { program: String, args: Vec<String> },
}

/// Whether `c` is the command that the words `w` make.
pub open spec fn command_of(c: Command, w: Seq<Seq<char>>) -> bool {
    match c {
        Command::Empty => w.len() == 0,
        Command::Exit => w.len() > 0 && w[0] == exit_name(),
        Command::Cd { args } => w.len() > 0 && w[0] == cd_name() && views(args@) == w.drop_first(),
        Command::External { program, args } => w.len() > 0 && w[0] != exit_name() && w[0]
            != cd_name() && program@ == w[0] && views(args@) == w.drop_first(),
    }
}

/// Whether `c` is the command that the text `stage` makes.
pub open spec fn command_of_text(c: Command, stage: Seq<char>) -> bool {
    command_of(c, words(stage))
}

/// Tells whether two texts are equal, character by character.
pub fn same_text(s: &str, t: &str) -> (r: bool)
    ensures
        r == (s@ == t@),
{
    let n = s.unicode_len();
    if n != t.unicode_len() {
        return false;
    }
    let mut i: usize = 0;
    while i < n
        invariant
            n == s@.len() == t@.len(),
            i <= n,
            forall|j: int| 0 <= j < i ==> s@[j] == t@[j],
        decreases n - i,
    {
        if s.get_char(i) != t.get_char(i) {
            return false;
        }
        i = i + 1;
    }
    proof {
        assert(s@ =~= t@);
    }
    true
}

/// Resolves the words of a stage into the command they ask for.
pub fn classify(w: Vec<String>) -> (r: Command)
    ensures
        command_of(r, views(w@)),
{
    let mut w = w;
    if w.len() == 0 {
        return Command::Empty;
    }
    let ghost all = views(w@);
    let program = w.remove(0);
    proof {
        assert(views(w@) =~= all.drop_first());
        reveal_strlit("exit");
        reveal_strlit("cd");
        assert("exit"@ =~= exit_name());
        assert("cd"@ =~= cd_name());
        assert(program@ == all[0]);
    }
    if same_text(program.as_str(), "exit") {
        Command::Exit
    } else if same_text(program.as_str(), "cd") {
        Command::Cd { args: w }
    } else {
        Command::External { program, args: w }
    }
}

/// `p` with each `~` replaced by `home`.
pub open spec fn expand_home(p: Seq<char>, home: Seq<char>) -> Seq<char>
    decreases p.len(),
{
    if p.len() == 0 {
        p
    } else if p.last() == '~' {
        expand_home(p.drop_last(), home) + home
    } else {
        expand_home(p.drop_last(), home).push(p.last())
    }
}

/// Replaces each `~` of `path` by `home`.
pub fn expand_tilde(path: &str, home: &str) -> (r: String)
    ensures
        r@ == expand_home(path@, home@),
{
    let n = path.unicode_len();
    let mut out = String::new();
    let mut i: usize = 0;
    proof {
        assert(path@.take(0) =~= Seq::<char>::empty());
    }
    while i < n
        invariant
            n == path@.len(),
            i <= n,
            out@ == expand_home(path@.take(i as int), home@),
        decreases n - i,
    {
        let c = path.get_char(i);
        proof {
            assert(path@.take(i + 1).drop_last() =~= path@.take(i as int));
        }
        if c == '~' {
            out.append(home);
        } else {
            let one = path.substring_char(i, i + 1);
            proof {
                assert(one@ =~= seq![c]);
            }
            out.append(one);
            proof {
                assert(out@ =~= expand_home(path@.take(i as int), home@).push(c));
            }
        }
        i = i + 1;
    }
    proof {
        assert(path@.take(n as int) =~= path@);
    }
    out
}

/// Why `cd` did nothing before asking the system.
#[derive(PartialEq, Eq, Structural, Clone, Copy, Debug)]
pub enum CdError {
    /// More than one argument was given.
    TooManyArguments,
}

/// The directory that `cd` with `args` moves to: `~` when none is given, `~` expanded to
/// `home` in any case.
pub open spec fn cd_path(args: Seq<Seq<char>>, home: Seq<char>) -> Seq<char> {
    if args.len() == 0 {
        expand_home(seq!['~'], home)
    } else {
        expand_home(args[0], home)
    }
}

/// Works out where `cd` with `args` goes, or why it goes nowhere.
pub fn cd_target(args: &Vec<String>, home: &str) -> (r: Result<String, CdError>)
    ensures
        args@.len() > 1 <==> r == Err::<String, CdError>(CdError::TooManyArguments),
        args@.len() <= 1 ==> r is Ok && r->Ok_0@ == cd_path(views(args@), home@),
{
    if args.len() > 1 {
        return Err(CdError::TooManyArguments);
    }
    if args.len() == 0 {
        proof {
            reveal_strlit("~");
        }
        let p = expand_tilde("~", home);
        proof {
            assert("~"@ =~= seq!['~']);
        }
        Ok(p)
    } else {
        Ok(expand_tilde(args[0].as_str(), home))
    }
}

} // verus!
