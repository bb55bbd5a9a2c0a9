//! Properties of parsing and dispatching a pipeline.
use vstd::prelude::*;
use crate::command::{Command, command_of, command_of_text};
use crate::parse::{lemma_split_bars_ends, split_bars, views, words};
use crate::pipeline::{
    Action,
    Dispatcher,
    Source,
    halts,
    lemma_stop_from_bounds,
    pipeline_of,
    spawn_count,
    spawns_before,
    stop_from,
    stop_index,
};

verus! {

proof fn lemma_stop_past_dispatchable(s: Seq<Command>, i: int)
    requires
        0 <= i <= s.len(),
        forall|j: int| 0 <= j < i ==> !halts(#[trigger] s[j]),
    ensures
        stop_index(s) == stop_from(s, i),
    decreases i,
{
    if i > 0 {
        lemma_stop_past_dispatchable(s, i - 1);
        assert(!halts(s[i - 1]));
    }
}

proof fn lemma_all_external_count(s: Seq<Command>, k: int)
    requires
        0 <= k <= s.len(),
        forall|j: int| 0 <= j < s.len() ==> #[trigger] s[j] is External,
    ensures
        spawns_before(s, k) == k,
    decreases k,
{
    if k > 0 {
        lemma_all_external_count(s, k - 1);
    }
}

/// A pipeline of external stages only is dispatched whole: every stage is spawned, one
/// spawn each, and then the children are awaited.
pub proof fn lemma_external_pipeline_spawns_all(s: Seq<Command>)
    requires
        forall|j: int| 0 <= j < s.len() ==> #[trigger] s[j] is External,
    ensures
        stop_index(s) == s.len(),
        spawn_count(s) == s.len(),
{
    assert forall|j: int| 0 <= j < s.len() implies !halts(#[trigger] s[j]) by {
        assert(s[j] is External);
    }
    lemma_stop_past_dispatchable(s, s.len() as int);
    lemma_all_external_count(s, s.len() as int);
}

/// When the first stage that ends the dispatch is empty, the dispatch stops there: only
/// the stages before it are spawned.
pub proof fn lemma_empty_stage_stops(s: Seq<Command>, k: int)
    requires
        0 <= k < s.len(),
        s[k] is Empty,
        forall|j: int| 0 <= j < k ==> !halts(#[trigger] s[j]),
    ensures
        stop_index(s) == k,
        spawn_count(s) == spawns_before(s, k),
{
    lemma_stop_past_dispatchable(s, k);
}

/// An `exit` at any position, before which nothing has ended the dispatch, ends it.
pub proof fn lemma_exit_stops(s: Seq<Command>, k: int)
    requires
        0 <= k < s.len(),
        s[k] is Exit,
        forall|j: int| 0 <= j < k ==> !halts(#[trigger] s[j]),
    ensures
        stop_index(s) == k,
{
    lemma_stop_past_dispatchable(s, k);
}

/// The dispatch stops at the stage that ends it, with the action that belongs to it: a
/// syntax error for an empty stage, `exit` for `exit`, and waiting for the children when
/// every stage was dispatched.
pub proof fn lemma_stop_action(d: Dispatcher, after: Dispatcher, a: Action)
    requires
        d.wf(),
        d.ready(),
        d.next == stop_index(d.commands@),
        d.steps_to(after, a),
    ensures
        after.finished,
        after.launched == spawn_count(d.commands@),
        d.next < d.commands@.len() && d.commands@[d.next as int] is Empty ==> a is SyntaxError,
        d.next < d.commands@.len() && d.commands@[d.next as int] is Exit ==> a is Exit,
        d.next >= d.commands@.len() ==> a is AwaitChildren,
{
    let s = d.commands@;
    if d.next < s.len() {
        if !halts(s[d.next as int]) {
            lemma_stop_from_bounds(s, d.next + 1);
            assert(stop_from(s, d.next as int) == stop_from(s, d.next + 1));
        }
    }
}

/// A line that starts with a bar has an empty first stage: the dispatch reports it at
/// once and spawns nothing.
pub proof fn lemma_leading_bar(line: Seq<char>, p: Seq<Command>)
    requires
        line.len() > 0,
        line[0] == '|',
        pipeline_of(p, line),
    ensures
        p[0] is Empty,
        stop_index(p) == 0,
        spawn_count(p) == 0,
{
    lemma_split_bars_ends(line);
    assert(words(Seq::<char>::empty()) == Seq::<Seq<char>>::empty());
    assert(command_of_text(p[0], split_bars(line)[0]));
    lemma_empty_stage_stops(p, 0);
}

/// A line that ends with a bar has an empty last stage: no stage after it is spawned, and
/// the dispatch stops there at the latest.
pub proof fn lemma_trailing_bar(line: Seq<char>, p: Seq<Command>)
    requires
        line.len() > 0,
        line.last() == '|',
        pipeline_of(p, line),
    ensures
        p.last() is Empty,
        stop_index(p) <= p.len() - 1,
        (forall|j: int| 0 <= j < p.len() - 1 ==> !halts(#[trigger] p[j])) ==> stop_index(p)
            == p.len() - 1 && spawn_count(p) == spawns_before(p, p.len() - 1),
{
    lemma_split_bars_ends(line);
    let k = p.len() - 1;
    assert(words(Seq::<char>::empty()) == Seq::<Seq<char>>::empty());
    assert(command_of_text(p[k], split_bars(line)[k]));
    if forall|j: int| 0 <= j < k ==> !halts(#[trigger] p[j]) {
        lemma_empty_stage_stops(p, k);
    } else {
        let j = choose|j: int| 0 <= j < k && halts(#[trigger] p[j]);
        lemma_first_stop_at_most(p, j);
    }
}

proof fn lemma_stop_from_at_most(s: Seq<Command>, i: int, j: int)
    requires
        0 <= i <= j < s.len(),
        halts(s[j]),
    ensures
        stop_from(s, i) <= j,
    decreases j - i,
{
    if i < j && !halts(s[i]) {
        lemma_stop_from_at_most(s, i + 1, j);
    }
}

proof fn lemma_first_stop_at_most(s: Seq<Command>, j: int)
    requires
        0 <= j < s.len(),
        halts(s[j]),
    ensures
        stop_index(s) <= j,
{
    lemma_stop_from_at_most(s, 0, j);
}

/// A `cd` followed by an external stage leaves that stage reading the null device, not
/// the terminal.
pub proof fn lemma_cd_feeds_nothing(
    d0: Dispatcher,
    d1: Dispatcher,
    a1: Action,
    d2: Dispatcher,
    a2: Action,
)
    requires
        d0.wf(),
        d0.ready(),
        d0.next + 1 < d0.commands@.len(),
        d0.commands@[d0.next as int] is Cd,
        d0.commands@[d0.next + 1] is External,
        d0.steps_to(d1, a1),
        d1.steps_to(d2, a2),
    ensures
        a1 is ChangeDirectory || a1 is CdUsageError,
        a2 is Spawn,
        a2->stdin == Source::Null,
{
    assert(d1.next == d0.next + 1);
}

/// Two commands made from the same words are the same command.
pub open spec fn same_command(c: Command, e: Command) -> bool {
    match (c, e) {
        (Command::Empty, Command::Empty) => true,
        (Command::Exit, Command::Exit) => true,
        (Command::Cd { args: x }, Command::Cd { args: y }) => views(x@) == views(y@),
        (
            Command::External { program: p, args: x },
            Command::External { program: q, args: y },
        ) => p@ == q@ && views(x@) == views(y@),
        _ => false,
    }
}

/// Two actions that do the same thing.
pub open spec fn same_action(a: Action, b: Action) -> bool {
    match (a, b) {
        (Action::SyntaxError, Action::SyntaxError) => true,
        (Action::Exit, Action::Exit) => true,
        (Action::ChangeDirectory { path: p }, Action::ChangeDirectory { path: q }) => p@ == q@,
        (Action::CdUsageError { error: e }, Action::CdUsageError { error: f }) => e == f,
        (
            Action::Spawn { program: p, args: x, stdin: i, stdout: o },
            Action::Spawn { program: q, args: y, stdin: j, stdout: u },
        ) => p@ == q@ && views(x@) == views(y@) && i == j && o == u,
        (Action::AwaitChildren, Action::AwaitChildren) => true,
        _ => false,
    }
}

/// Parsing is a function of the line: the same line gives the same pipeline.
pub proof fn lemma_parse_deterministic(line: Seq<char>, p: Seq<Command>, q: Seq<Command>)
    requires
        pipeline_of(p, line),
        pipeline_of(q, line),
    ensures
        p.len() == q.len(),
        forall|i: int| 0 <= i < p.len() ==> same_command(#[trigger] p[i], q[i]),
{
    assert forall|i: int| 0 <= i < p.len() implies same_command(#[trigger] p[i], q[i]) by {
        assert(command_of(p[i], words(split_bars(line)[i])));
        assert(command_of(q[i], words(split_bars(line)[i])));
    }
}

/// Each decision is a function of the state: asking twice in the same state gives the same
/// action and the same next state.
pub proof fn lemma_step_deterministic(
    d: Dispatcher,
    d1: Dispatcher,
    a1: Action,
    d2: Dispatcher,
    a2: Action,
)
    requires
        d.steps_to(d1, a1),
        d.steps_to(d2, a2),
    ensures
        d1 == d2,
        same_action(a1, a2),
{
}

} // verus!
