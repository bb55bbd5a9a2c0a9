//! A pipeline and the decisions taken while running it, one stage at a time.
//!
//! The [`Dispatcher`] is a state machine: it names the next thing to do (an [`Action`]),
//! and, after a spawn, is told how the spawn went. Whoever performs the actions owns the
//! processes and stream handles.
use vstd::prelude::*;
use crate::command::{CdError, Command, cd_path, cd_target, classify, command_of_text};
use crate::parse::{split_bars, split_stages, split_words, views};

verus! {

/// Whether `p` is the pipeline that `line` makes: one command per piece between bars.
pub open spec fn pipeline_of(p: Seq<Command>, line: Seq<char>) -> bool {
    &&& p.len() == split_bars(line).len()
    &&& forall|i: int| 0 <= i < p.len() ==> command_of_text(#[trigger] p[i], split_bars(line)[i])
}

/// Parses `line` into its pipeline.
pub fn parse_line(line: &str) -> (r: Vec<Command>)
    ensures
        pipeline_of(r@, line@),
{
    let stages = split_stages(line);
    let mut out: Vec<Command> = Vec::new();
    let mut i: usize = 0;
    while i < stages.len()
        invariant
            views(stages@) == split_bars(line@),
            i <= stages@.len(),
            out@.len() == i,
            forall|j: int| 0 <= j < i ==> command_of_text(#[trigger] out@[j], split_bars(line@)[j]),
        decreases stages@.len() - i,
    {
        let w = split_words(stages[i].as_str());
        let c = classify(w);
        proof {
            assert(split_bars(line@)[i as int] == stages@[i as int]@);
        }
        out.push(c);
        i = i + 1;
    }
    out
}

/// Where a spawned program reads from.
#[derive(PartialEq, Eq, Structural, Clone, Copy, Debug)]
pub enum Source {
    /// The shell's own standard input.
    Terminal,
    /// The null device: end of input at once.
    Null,
    /// The output of the program spawned just before.
    PreviousOutput,
}

/// Where a spawned program writes to.
#[derive(PartialEq, Eq, Structural, Clone, Copy, Debug)]
pub enum Sink {
    /// A new pipe, read by the next stage.
    Pipe,
    /// The shell's own standard output.
    Terminal,
}

/// How a spawn went.
#[derive(PartialEq, Eq, Structural, Clone, Copy, Debug)]
pub enum SpawnOutcome {
    /// The child runs; `has_output` tells whether its standard output could be taken.
    Spawned { has_output: bool },
    /// The program could not be started.
    Failed,
}

/// What the shell does next.
#[derive(Debug)]
pub enum Action {
    /// Report the empty stage; spawn nothing more, and wait for the children.
    SyntaxError,
    /// End the shell now, without waiting for the children.
    Exit,
    /// Make `path` the working directory.
    ChangeDirectory { path: String },
    /// Report that `cd` refused its arguments, and change nothing.
    CdUsageError { error: CdError },
    /// Start `program` with `args`, reading from `stdin` and writing to `stdout`.
    Spawn { program: String, args: Vec<String>, stdin: Source, stdout: Sink },
    /// Every stage was dispatched: wait for the children.
    AwaitChildren,
}

/// Whether `c` ends the dispatch of a pipeline.
pub open spec fn halts(c: Command) -> bool {
    c is Empty || c is Exit
}

/// The first stage at or after `i` that ends the dispatch, or the length if none does.
pub open spec fn stop_from(s: Seq<Command>, i: int) -> int
    decreases s.len() - i,
{
    if 0 <= i < s.len() {
        if halts(s[i]) {
            i
        } else {
            stop_from(s, i + 1)
        }
    } else {
        s.len() as int
    }
}

/// The stage at which the dispatch of `s` ends: the first empty or `exit` stage, or the
/// length of `s`.
pub open spec fn stop_index(s: Seq<Command>) -> int {
    stop_from(s, 0)
}

/// The number of external stages among the first `k` of `s`.
pub open spec fn spawns_before(s: Seq<Command>, k: int) -> nat
    decreases k,
{
    if k <= 0 {
        0
    } else {
        spawns_before(s, k - 1) + if s[k - 1] is External {
            1nat
        } else {
            0nat
        }
    }
}

/// The number of programs that the dispatch of `s` starts.
pub open spec fn spawn_count(s: Seq<Command>) -> nat {
    spawns_before(s, stop_index(s))
}

/// The dispatch from `i` stops at `i` or later, and at the length at the latest.
pub proof fn lemma_stop_from_bounds(s: Seq<Command>, i: int)
    requires
        0 <= i <= s.len(),
    ensures
        i <= stop_from(s, i) <= s.len(),
    decreases s.len() - i,
{
    if i < s.len() && !halts(s[i]) {
        lemma_stop_from_bounds(s, i + 1);
    }
}

proof fn lemma_spawns_before_bound(s: Seq<Command>, k: int)
    requires
        0 <= k,
    ensures
        spawns_before(s, k) <= k,
    decreases k,
{
    if k > 0 {
        lemma_spawns_before_bound(s, k - 1);
    }
}

/// The state of running one pipeline.
pub struct Dispatcher {
    /// The pipeline's stages, in order.
    pub commands: Vec<Command>,
    /// What `~` stands for in the argument of `cd`.
    pub home: String,
    /// The stage to dispatch next.
    pub next: usize,
    /// Where the next external stage reads from.
    pub input: Source,
    /// How many spawns were asked for so far.
    pub launched: usize,
    /// A spawn was asked for and its outcome is not known yet.
    pub awaiting_outcome: bool,
    /// The dispatch has ended.
    pub finished: bool,
}

impl Dispatcher {
    /// The state is one that the dispatch reaches.
    pub open spec fn wf(self) -> bool {
        let s = self.commands@;
        &&& s.len() <= usize::MAX
        &&& stop_from(s, self.next as int) == stop_index(s)
        &&& self.next <= stop_index(s)
        &&& self.launched == spawns_before(s, self.next as int)
        &&& self.finished ==> self.next == stop_index(s) && !self.awaiting_outcome
        &&& self.awaiting_outcome ==> self.next >= 1 && s[self.next - 1] is External
    }

    /// The next action may be asked for.
    pub open spec fn ready(self) -> bool {
        !self.finished && !self.awaiting_outcome
    }

    /// From `self`, asking for the next action gives `a` and leaves `after`.
    pub open spec fn steps_to(self, after: Self, a: Action) -> bool {
        let s = self.commands@;
        let i = self.next as int;
        if i >= s.len() {
            a is AwaitChildren && after == (Dispatcher { finished: true, ..self })
        } else {
            match s[i] {
                Command::Empty => a is SyntaxError && after == (Dispatcher {
                    finished: true,
                    ..self
                }),
                Command::Exit => a is Exit && after == (Dispatcher { finished: true, ..self }),
                Command::Cd { args } => {
                    &&& after == (Dispatcher {
                        next: (i + 1) as usize,
                        input: Source::Null,
                        ..self
                    })
                    &&& if args@.len() > 1 {
                        a is CdUsageError && a->error == CdError::TooManyArguments
                    } else {
                        a is ChangeDirectory && a->path@ == cd_path(views(args@), self.home@)
                    }
                },
                Command::External { program, args } => {
                    &&& after == (Dispatcher {
                        next: (i + 1) as usize,
                        launched: (self.launched + 1) as usize,
                        awaiting_outcome: true,
                        ..self
                    })
                    &&& a is Spawn
                    &&& a->program@ == program@
                    &&& views(a->args@) == views(args@)
                    &&& a->stdin == self.input
                    &&& a->stdout == if i + 1 < s.len() {
                        Sink::Pipe
                    } else {
                        Sink::Terminal
                    }
                },
            }
        }
    }

    /// From `self`, reporting `outcome` leaves `after`.
    pub open spec fn reports_to(self, after: Self, outcome: SpawnOutcome) -> bool {
        after == (Dispatcher {
            awaiting_outcome: false,
            input: match outcome {
                SpawnOutcome::Spawned { has_output: true } => Source::PreviousOutput,
                _ => Source::Null,
            },
            ..self
        })
    }

    /// Starts the dispatch of `commands`; the first external stage reads from the terminal.
    pub fn new(commands: Vec<Command>, home: String) -> (r: Self)
        ensures
            r.wf(),
            r.ready(),
            r.commands == commands,
            r.home == home,
            r.next == 0,
            r.input == Source::Terminal,
            r.launched == 0,
    {
        let stages = commands.len();
        proof {
            assert(commands@.len() == stages);
            lemma_stop_from_bounds(commands@, 0);
        }
        Dispatcher {
            commands,
            home,
            next: 0,
            input: Source::Terminal,
            launched: 0,
            awaiting_outcome: false,
            finished: false,
        }
    }

    /// Starts the dispatch of the pipeline that `line` makes.
    pub fn from_line(line: &str, home: &str) -> (r: Self)
        ensures
            r.wf(),
            r.ready(),
            pipeline_of(r.commands@, line@),
            r.home@ == home@,
            r.next == 0,
            r.input == Source::Terminal,
            r.launched == 0,
    {
        Dispatcher::new(parse_line(line), String::from_str(home))
    }

    /// Names the next action, and moves past the stage it comes from.
    pub fn next_action(&mut self) -> (a: Action)
        requires
            old(self).wf(),
            old(self).ready(),
        ensures
            old(self).steps_to(*final(self), a),
            final(self).wf(),
            a is Spawn ==> final(self).awaiting_outcome,
            !(a is Spawn) ==> !final(self).awaiting_outcome,
            final(self).finished <==> (a is SyntaxError || a is Exit || a is AwaitChildren),
            final(self).finished ==> final(self).launched == spawn_count(final(self).commands@),
    {
        let i = self.next;
        let ghost s = self.commands@;
        proof {
            lemma_stop_from_bounds(s, i as int);
            lemma_spawns_before_bound(s, i as int);
            if (i as int) < s.len() {
                assert(spawns_before(s, i + 1) == spawns_before(s, i as int) + if s[i as int] is External {
                    1nat
                } else {
                    0nat
                });
                if !halts(s[i as int]) {
                    lemma_stop_from_bounds(s, i + 1);
                    assert(stop_from(s, i as int) == stop_from(s, i + 1));
                }
            }
        }
        if i >= self.commands.len() {
            self.finished = true;
            return Action::AwaitChildren;
        }
        let last = i + 1 == self.commands.len();
        match &self.commands[i] {
            Command::Empty => {
                self.finished = true;
                Action::SyntaxError
            },
            Command::Exit => {
                self.finished = true;
                Action::Exit
            },
            Command::Cd { args } => {
                let target = cd_target(args, self.home.as_str());
                self.next = i + 1;
                self.input = Source::Null;
                match target {
                    Ok(path) => Action::ChangeDirectory { path },
                    Err(error) => Action::CdUsageError { error },
                }
            },
            Command::External { program, args } => {
                let program = program.clone();
                let args = copy_all(args);
                let stdin = self.input;
                self.next = i + 1;
                self.launched = self.launched + 1;
                self.awaiting_outcome = true;
                Action::Spawn {
                    program,
                    args,
                    stdin,
                    stdout: if last {
                        Sink::Terminal
                    } else {
                        Sink::Pipe
                    },
                }
            },
        }
    }

    /// Takes the outcome of the spawn just asked for: the next external stage reads the
    /// child's output when it could be taken, and the null device otherwise.
    pub fn report_spawn(&mut self, outcome: SpawnOutcome)
        requires
            old(self).wf(),
            old(self).awaiting_outcome,
        ensures
            old(self).reports_to(*final(self), outcome),
            final(self).wf(),
            final(self).ready(),
    {
        self.awaiting_outcome = false;
        self.input = match outcome {
            SpawnOutcome::Spawned { has_output: true } => Source::PreviousOutput,
            _ => Source::Null,
        };
    }
}

/// A copy of `v`, string by string.
pub fn copy_all(v: &Vec<String>) -> (r: Vec<String>)
    ensures
        r@ == v@,
{
    let mut r: Vec<String> = Vec::new();
    let mut i: usize = 0;
    while i < v.len()
        invariant
            i <= v@.len(),
            r@ == v@.take(i as int),
        decreases v@.len() - i,
    {
        r.push(v[i].clone());
        proof {
            assert(v@.take(i + 1) =~= v@.take(i as int).push(v@[i as int]));
        }
        i = i + 1;
    }
    proof {
        assert(v@.take(v@.len() as int) =~= v@);
    }
    r
}

} // verus!
