//! Whether the process that asks for an installation is really the front end that started the
//! backend: it runs the same executable, and it is an ancestor of the backend. The process table
//! is not read here: whether the executables are the same, and which process is the parent of
//! another, is what the caller found there.
use vstd::prelude::*;
use vstd::set_lib::{lemma_int_range, lemma_len_subset, set_int_range};

use crate::log::{opt_log_view, LogLevel, LogLine};
use crate::text::{join, join3};

verus! {

/// What is known of the front end's process. The texts are what a log prints of the process
/// number and of the executable.
#[derive(Debug)]
pub enum FrontendProcess {
    /// There is no such process.
    Missing { pid: String },
    /// It runs an executable. Whether that is the backend's own, `same_exe` says: the caller has
    /// compared the two paths.
    Running { same_exe: bool, exe: String },
}

/// What to do next about a front end.
#[derive(Debug)]
pub enum AncestryStep {
    /// The process is an ancestor.
    Accept,
    /// The process is not accepted; where there is a line, it is to be logged.
    Reject(Option<LogLine>),
    /// The parent of this process is to be looked up.
    FindParent(u32),
}

/// What to do next about a front end, as values.
pub enum StepView {
    Accept,
    Reject(Option<(LogLevel, Seq<char>)>),
    FindParent(u32),
}

impl View for AncestryStep {
    type V = StepView;

    open spec fn view(&self) -> StepView {
        match self {
            AncestryStep::Accept => StepView::Accept,
            AncestryStep::Reject(line) => StepView::Reject(opt_log_view(*line)),
            AncestryStep::FindParent(pid) => StepView::FindParent(*pid),
        }
    }
}

/// The walk from a process upwards, in search of the front end.
#[derive(Debug)]
pub struct AncestryWalk {
    pub frontend_pid: u32,
    /// The process that the walk has come to.
    pub current: u32,
}

/// What to do at the ancestor that a walk has come to.
pub open spec fn at_process(walk: AncestryWalk) -> StepView {
    if walk.current == walk.frontend_pid {
        StepView::Accept
    } else {
        StepView::FindParent(walk.current)
    }
}

/// The process to go on to from one whose parent was looked up: none where there is no parent,
/// where the process is its own parent, or where the parent is the kernel.
pub open spec fn next_process(current: u32, parent: Option<u32>) -> Option<u32> {
    match parent {
        Some(parent) => if parent == current || parent == 0 {
            None
        } else {
            Some(parent)
        },
        None => None,
    }
}

/// The rejection where the backend's own executable cannot be found out.
pub fn no_self_exe(error: &str) -> (step: AncestryStep)
    ensures
        step@ == StepView::Reject(
            Some((LogLevel::Error, "Failed to get self exe: "@ + error@)),
        ),
{
    AncestryStep::Reject(Some(LogLine::error(join("Failed to get self exe: ", error))))
}

/// The check of the front end's executable, and where it passes, the start of the walk from the
/// backend's own process, which is not its own ancestor.
pub open spec fn checked_exe(
    process: FrontendProcess,
    self_pid: u32,
    self_exe: Seq<char>,
) -> StepView {
    match process {
        FrontendProcess::Missing { pid } => StepView::Reject(
            Some((LogLevel::Error, "Frontend process "@ + pid@ + " not found"@)),
        ),
        FrontendProcess::Running { same_exe, exe } => if same_exe {
            StepView::FindParent(self_pid)
        } else {
            StepView::Reject(
                Some((LogLevel::Error, "Frontend exe "@ + exe@ + " != self "@ + self_exe)),
            )
        },
    }
}

impl AncestryWalk {
    /// A walk that starts at a process.
    pub fn new(frontend_pid: u32, self_pid: u32) -> (walk: AncestryWalk)
        ensures
            walk == (AncestryWalk { frontend_pid, current: self_pid }),
    {
        AncestryWalk { frontend_pid, current: self_pid }
    }

    fn at_current(&self) -> (step: AncestryStep)
        ensures
            step@ == at_process(*self),
    {
        if self.current == self.frontend_pid {
            AncestryStep::Accept
        } else {
            AncestryStep::FindParent(self.current)
        }
    }

    /// Decides by what the caller found out of the front end's process: rejects one that is not
    /// there or whose executable is not the backend's own, which `self_exe` prints for a log, and
    /// starts to walk otherwise.
    pub fn check_exe(&self, process: &FrontendProcess, self_exe: &str) -> (step: AncestryStep)
        ensures
            step@ == checked_exe(*process, self.current, self_exe@),
    {
        match process {
            FrontendProcess::Missing { pid } => AncestryStep::Reject(
                Some(LogLine::error(join3("Frontend process ", pid.as_str(), " not found"))),
            ),
            FrontendProcess::Running { same_exe, exe } => if *same_exe {
                AncestryStep::FindParent(self.current)
            } else {
                AncestryStep::Reject(
                    Some(
                        LogLine::error(
                            join3("Frontend exe ", exe.as_str(), " != self ").concat(self_exe),
                        ),
                    ),
                )
            },
        }
    }

    /// Goes on to the parent of the current process, if it has one.
    pub fn go_to_parent(&mut self, parent: Option<u32>) -> (step: AncestryStep)
        ensures
            final(self).frontend_pid == old(self).frontend_pid,
            match next_process(old(self).current, parent) {
                Some(next) => final(self).current == next && step@ == at_process(*final(self)),
                None => *final(self) == *old(self) && step@ == StepView::Reject(None),
            },
    {
        match parent {
            Some(parent) => {
                if parent == self.current || parent == 0 {
                    return AncestryStep::Reject(None);
                }
                self.current = parent;
                self.at_current()
            },
            None => AncestryStep::Reject(None),
        }
    }
}

/// The process that is so many generations above another, by a table of parents. Neither a process
/// itself nor the kernel counts as its parent.
pub open spec fn ancestor(
    parents: spec_fn(u32) -> Option<u32>,
    pid: u32,
    generations: nat,
) -> Option<u32>
    decreases generations,
{
    if generations == 0 {
        Some(pid)
    } else {
        match ancestor(parents, pid, (generations - 1) as nat) {
            Some(below) => match parents(below) {
                Some(above) => if above != below && above != 0 {
                    Some(above)
                } else {
                    None
                },
                None => None,
            },
            None => None,
        }
    }
}

/// Whether a process is an ancestor of another: one or more generations above it.
pub open spec fn is_in_ancestry(
    parents: spec_fn(u32) -> Option<u32>,
    frontend_pid: u32,
    pid: u32,
) -> bool {
    exists|generations: nat|
        generations > 0 && #[trigger] ancestor(parents, pid, generations) == Some(frontend_pid)
}

/// The verdict of a walk that may look up so many parents; `None` where that is not enough.
pub open spec fn verdict(
    parents: spec_fn(u32) -> Option<u32>,
    walk: AncestryWalk,
    lookups: nat,
) -> Option<bool>
    decreases lookups,
{
    if lookups == 0 {
        None
    } else {
        match next_process(walk.current, parents(walk.current)) {
            Some(next) => {
                let above = AncestryWalk { current: next, ..walk };
                if at_process(above) is Accept {
                    Some(true)
                } else {
                    verdict(parents, above, (lookups - 1) as nat)
                }
            },
            None => Some(false),
        }
    }
}

/// One generation up first, or last: it is the same.
proof fn lemma_ancestor_of_parent(
    parents: spec_fn(u32) -> Option<u32>,
    pid: u32,
    next: u32,
    generations: nat,
)
    requires
        next_process(pid, parents(pid)) == Some(next),
    ensures
        ancestor(parents, pid, generations + 1) == ancestor(parents, next, generations),
    decreases generations,
{
    if generations == 0 {
        assert(ancestor(parents, pid, 0) == Some(pid));
        assert(ancestor(parents, pid, 1) == Some(next));
    } else {
        lemma_ancestor_of_parent(parents, pid, next, (generations - 1) as nat);
    }
}

/// Above a process that has no process to go on to, there is none.
proof fn lemma_no_ancestor(
    parents: spec_fn(u32) -> Option<u32>,
    pid: u32,
    generations: nat,
)
    requires
        next_process(pid, parents(pid)) is None,
        generations > 0,
    ensures
        ancestor(parents, pid, generations) is None,
    decreases generations,
{
    if generations == 1 {
        assert(ancestor(parents, pid, 0) == Some(pid));
    } else {
        lemma_no_ancestor(parents, pid, (generations - 1) as nat);
    }
}

/// A walk that comes to a verdict comes to the right one: it accepts the front end if and only if
/// the front end is an ancestor of the process that the walk started from.
pub proof fn law_verdict_is_ancestry(
    parents: spec_fn(u32) -> Option<u32>,
    walk: AncestryWalk,
    lookups: nat,
)
    requires
        verdict(parents, walk, lookups) is Some,
    ensures
        verdict(parents, walk, lookups) == Some(
            is_in_ancestry(parents, walk.frontend_pid, walk.current),
        ),
    decreases lookups,
{
    let pid = walk.current;
    let frontend = walk.frontend_pid;
    match next_process(pid, parents(pid)) {
        Some(next) => {
            lemma_ancestor_of_parent(parents, pid, next, 0);
            if next == frontend {
                assert(ancestor(parents, pid, 1) == Some(frontend));
            } else {
                law_verdict_is_ancestry(
                    parents,
                    AncestryWalk { current: next, ..walk },
                    (lookups - 1) as nat,
                );
                if is_in_ancestry(parents, frontend, next) {
                    let g = choose|g: nat|
                        g > 0 && #[trigger] ancestor(parents, next, g) == Some(frontend);
                    lemma_ancestor_of_parent(parents, pid, next, g);
                    assert(ancestor(parents, pid, g + 1) == Some(frontend));
                }
                if is_in_ancestry(parents, frontend, pid) {
                    let g = choose|g: nat|
                        g > 0 && #[trigger] ancestor(parents, pid, g) == Some(frontend);
                    lemma_ancestor_of_parent(parents, pid, next, (g - 1) as nat);
                    assert(ancestor(parents, next, (g - 1) as nat) == Some(frontend));
                }
            }
        },
        None => {
            if is_in_ancestry(parents, frontend, pid) {
                let g = choose|g: nat|
                    g > 0 && #[trigger] ancestor(parents, pid, g) == Some(frontend);
                lemma_no_ancestor(parents, pid, g);
            }
        },
    }
}

/// A front end that is in the ancestry is found: so many generations up, so many lookups.
pub proof fn law_ancestor_is_found(
    parents: spec_fn(u32) -> Option<u32>,
    walk: AncestryWalk,
    generations: nat,
)
    requires
        generations > 0,
        ancestor(parents, walk.current, generations) == Some(walk.frontend_pid),
    ensures
        verdict(parents, walk, generations) == Some(true),
    decreases generations,
{
    let pid = walk.current;
    match next_process(pid, parents(pid)) {
        Some(next) => {
            lemma_ancestor_of_parent(parents, pid, next, (generations - 1) as nat);
            if next != walk.frontend_pid {
                assert(ancestor(parents, next, 0) == Some(next));
                law_ancestor_is_found(
                    parents,
                    AncestryWalk { current: next, ..walk },
                    (generations - 1) as nat,
                );
            }
        },
        None => {
            lemma_no_ancestor(parents, pid, generations);
        },
    }
}

/// Whether no process occurs twice on the way up from one.
pub open spec fn has_no_cycle(parents: spec_fn(u32) -> Option<u32>, pid: u32) -> bool {
    forall|i: nat, j: nat|
        i < j && #[trigger] ancestor(parents, pid, j) is Some ==> #[trigger] ancestor(
            parents,
            pid,
            i,
        ) != ancestor(parents, pid, j)
}

/// Above a walk without a verdict there are as many generations as it has looked up.
proof fn lemma_undecided_has_ancestors(
    parents: spec_fn(u32) -> Option<u32>,
    walk: AncestryWalk,
    lookups: nat,
    generations: nat,
)
    requires
        verdict(parents, walk, lookups) is None,
        generations <= lookups,
    ensures
        ancestor(parents, walk.current, generations) is Some,
    decreases lookups,
{
    if generations > 0 {
        let next = next_process(walk.current, parents(walk.current))->0;
        lemma_undecided_has_ancestors(
            parents,
            AncestryWalk { current: next, ..walk },
            (lookups - 1) as nat,
            (generations - 1) as nat,
        );
        lemma_ancestor_of_parent(parents, walk.current, next, (generations - 1) as nat);
    }
}

/// A walk on which no process occurs twice ends: the process numbers are used up before so many
/// lookups are.
pub proof fn law_walk_ends(parents: spec_fn(u32) -> Option<u32>, walk: AncestryWalk)
    requires
        has_no_cycle(parents, walk.current),
    ensures
        verdict(parents, walk, u32::MAX as nat + 1) is Some,
{
    let pid = walk.current;
    let bound = u32::MAX as nat + 1;
    if verdict(parents, walk, bound) is None {
        let way = Seq::new(bound + 1, |i: int| ancestor(parents, pid, i as nat)->0 as int);
        assert forall|i: int| 0 <= i <= bound implies #[trigger] ancestor(
            parents,
            pid,
            i as nat,
        ) is Some by {
            lemma_undecided_has_ancestors(parents, walk, bound, i as nat);
        }
        assert forall|i: int, j: int| 0 <= i < j < way.len() implies way[i] != way[j] by {
            assert(ancestor(parents, pid, i as nat) is Some);
            assert(ancestor(parents, pid, j as nat) is Some);
        }
        assert(way.no_duplicates());
        way.unique_seq_to_set();
        let numbers = set_int_range(0, bound as int);
        lemma_int_range(0, bound as int);
        assert forall|n: int| way.to_set().contains(n) implies numbers.contains(n) by {
            let i = choose|i: int| 0 <= i < way.len() && way[i] == n;
            assert(way[i] == n);
        }
        lemma_len_subset(way.to_set(), numbers);
    }
}

/// A walk goes on to every parent that is another process and not the kernel, whatever its number,
/// and stops nowhere else; there it accepts the front end, and looks further up from any other.
pub proof fn law_parent_followed(current: u32, parent: u32, frontend_pid: u32)
    ensures
        next_process(current, None) is None,
        parent != 0 && parent != current ==> next_process(current, Some(parent)) == Some(parent),
        parent == 0 || parent == current ==> next_process(current, Some(parent)) is None,
        at_process(AncestryWalk { frontend_pid, current: frontend_pid }) is Accept,
        parent != frontend_pid ==> at_process(AncestryWalk { frontend_pid, current: parent })
            == StepView::FindParent(parent),
{
}

/// A front end is looked for above the backend if and only if it is there and runs the same
/// executable, whatever the log prints of them; where it is not, the log says so.
pub proof fn law_executable_decides(pid: String, exe: String, self_pid: u32, self_exe: Seq<char>)
    ensures
        checked_exe(FrontendProcess::Running { same_exe: true, exe }, self_pid, self_exe)
            == StepView::FindParent(self_pid),
        checked_exe(FrontendProcess::Running { same_exe: false, exe }, self_pid, self_exe)
            == StepView::Reject(
            Some((LogLevel::Error, "Frontend exe "@ + exe@ + " != self "@ + self_exe)),
        ),
        checked_exe(FrontendProcess::Missing { pid }, self_pid, self_exe) == StepView::Reject(
            Some((LogLevel::Error, "Frontend process "@ + pid@ + " not found"@)),
        ),
{
}

/// Steps are shown as they are.
pub proof fn law_steps_shown(line: LogLine, pid: u32)
    ensures
        AncestryStep::Accept@ == StepView::Accept,
        AncestryStep::FindParent(pid)@ == StepView::FindParent(pid),
        AncestryStep::Reject(None)@ == StepView::Reject(None),
        AncestryStep::Reject(Some(line))@ == StepView::Reject(Some((line.level, line.text@))),
{
}

/// Whether processes lead upwards by a table of parents: each is followed by its parent, which is
/// another process and not the kernel.
pub open spec fn is_way_up(parents: spec_fn(u32) -> Option<u32>, way: Seq<u32>) -> bool {
    &&& way.len() > 1
    &&& forall|i: int|
        0 <= i < way.len() - 1 ==> {
            &&& parents(#[trigger] way[i]) == Some(way[i + 1])
            &&& way[i + 1] != way[i]
            &&& way[i + 1] != 0
        }
}

/// A front end to which the table of parents leads up from the backend is accepted, with at most
/// one lookup for each parent on the way, and no walk ever rejects it.
pub proof fn law_way_up_is_accepted(
    parents: spec_fn(u32) -> Option<u32>,
    walk: AncestryWalk,
    way: Seq<u32>,
    lookups: nat,
)
    requires
        is_way_up(parents, way),
        way[0] == walk.current,
        way[way.len() - 1] == walk.frontend_pid,
    ensures
        verdict(parents, walk, lookups) != Some(false),
        lookups >= way.len() - 1 ==> verdict(parents, walk, lookups) == Some(true),
    decreases way.len(),
{
    let next = way[1];
    assert(parents(way[0]) == Some(way[0int + 1]));
    if lookups > 0 && next != walk.frontend_pid {
        let rest = way.skip(1);
        assert forall|i: int| 0 <= i < rest.len() - 1 implies {
            &&& parents(#[trigger] rest[i]) == Some(rest[i + 1])
            &&& rest[i + 1] != rest[i]
            &&& rest[i + 1] != 0
        } by {
            assert(rest[i] == way[i + 1]);
            assert(rest[i + 1] == way[i + 2]);
            assert(parents(way[i + 1]) == Some(way[i + 1 + 1]));
        }
        law_way_up_is_accepted(
            parents,
            AncestryWalk { current: next, ..walk },
            rest,
            (lookups - 1) as nat,
        );
    }
}

/// A walk accepts only a front end to which the table of parents leads up from the backend.
pub proof fn law_accepted_has_way_up(
    parents: spec_fn(u32) -> Option<u32>,
    walk: AncestryWalk,
    lookups: nat,
)
    requires
        verdict(parents, walk, lookups) == Some(true),
    ensures
        exists|way: Seq<u32>|
            #[trigger] is_way_up(parents, way) && way[0] == walk.current && way[way.len() - 1]
                == walk.frontend_pid,
    decreases lookups,
{
    let next = next_process(walk.current, parents(walk.current))->0;
    if next == walk.frontend_pid {
        let way = seq![walk.current, next];
        assert(is_way_up(parents, way));
    } else {
        let above = AncestryWalk { current: next, ..walk };
        law_accepted_has_way_up(parents, above, (lookups - 1) as nat);
        let rest = choose|way: Seq<u32>|
            #[trigger] is_way_up(parents, way) && way[0] == above.current && way[way.len() - 1]
                == above.frontend_pid;
        let way = seq![walk.current] + rest;
        assert forall|i: int| 0 <= i < way.len() - 1 implies {
            &&& parents(#[trigger] way[i]) == Some(way[i + 1])
            &&& way[i + 1] != way[i]
            &&& way[i + 1] != 0
        } by {
            assert(way[i + 1] == rest[i]);
            if i > 0 {
                assert(way[i] == rest[i - 1]);
                assert(parents(rest[i - 1]) == Some(rest[i - 1 + 1]));
            }
        }
        assert(is_way_up(parents, way));
        assert(way[way.len() - 1] == rest[rest.len() - 1]);
    }
}

} // verus!
