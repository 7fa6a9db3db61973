//! Batches of editor commands that execute and undo as one unit.
//!
//! [`CommandGroup`] runs its commands in order and undoes them in reverse
//! order; pushed into a [`crate::commands::CommandHistory`] it is undone and
//! redone as a whole (a batch delete, a multi-entity gizmo drag, a paste).
use vstd::prelude::*;
use crate::commands::EditorCommand;
use crate::commands::RecordedCommand;
use crate::commands::lemma_push_entry;

verus! {

/// The abstract state of a [`CommandGroup`]: its commands, description and
/// state, and every call it made on its commands so far, in order: `true`
/// with an index for an `execute`, `false` with an index for an `undo`.
pub struct GroupView {
    pub commands: Seq<RecordedCommand>,
    pub description: Seq<char>,
    pub executed: bool,
    pub calls: Seq<(bool, nat)>,
}

/// Executing the commands `0..k`, in order.
pub open spec fn exec_calls(k: nat) -> Seq<(bool, nat)> {
    Seq::new(k, |j: int| (true, j as nat))
}

/// Undoing the commands from `hi - 1` down to `lo`.
pub open spec fn undo_calls(hi: nat, lo: nat) -> Seq<(bool, nat)> {
    Seq::new((hi - lo) as nat, |j: int| (false, (hi - 1 - j) as nat))
}

/// The calls of an execute whose command `k` failed: commands `0..=k`
/// executed, then the `k` that succeeded undone, last first.
pub open spec fn failed_at(before: Seq<(bool, nat)>, after: Seq<(bool, nat)>, k: nat) -> bool {
    after == before + exec_calls(k + 1) + undo_calls(k, 0)
}

/// The calls of an undo of `n` commands that stopped at the failing undo
/// of command `k`.
pub open spec fn undo_stopped_at(before: Seq<(bool, nat)>, after: Seq<(bool, nat)>, n: nat, k: nat) -> bool {
    after == before + undo_calls(n, k)
}

/// Command `after` is `before` after one `execute` that succeeded and then
/// one `undo`, whatever the `undo` returned.
pub open spec fn rolled_back(after: RecordedCommand, before: RecordedCommand) -> bool {
    &&& after.command.runs() == before.command.runs().push((true, true)).push(
        (false, after.command.runs().last().1),
    )
    &&& after.shown() == before.shown()
}

/// Command `after` is `before` after one `undo`, whatever it returned.
pub open spec fn undone_once(after: RecordedCommand, before: RecordedCommand) -> bool {
    &&& after.command.runs() == before.command.runs().push((false, after.command.runs().last().1))
    &&& after.shown() == before.shown()
}

/// Every command of `after` is that of `before` after one more run of the
/// given kind that returned `true`.
pub open spec fn all_ran(before: Seq<RecordedCommand>, after: Seq<RecordedCommand>, execute: bool) -> bool {
    &&& after.len() == before.len()
    &&& forall|i: int| 0 <= i < before.len() ==> #[trigger] after[i].ran(before[i], execute, true)
}

/// The commands after an `execute` of the group whose command `k` was the
/// first to fail: those before it executed and were rolled back, it failed,
/// and those after it were not touched.
pub open spec fn execute_failed_at(before: Seq<RecordedCommand>, after: Seq<RecordedCommand>, k: int) -> bool {
    &&& after.len() == before.len()
    &&& 0 <= k < before.len()
    &&& forall|i: int| 0 <= i < k ==> rolled_back(#[trigger] after[i], before[i])
    &&& after[k].ran(before[k], true, false)
    &&& forall|i: int| k < i < before.len() ==> #[trigger] after[i] == before[i]
}

/// The commands after an `undo` of the group whose command `k` was the
/// first to fail, going from the last command down: those after it were
/// undone, it failed, and those before it were not touched.
pub open spec fn undo_failed_at(before: Seq<RecordedCommand>, after: Seq<RecordedCommand>, k: int) -> bool {
    &&& after.len() == before.len()
    &&& 0 <= k < before.len()
    &&& forall|i: int| k < i < before.len() ==> #[trigger] after[i].ran(before[i], false, true)
    &&& after[k].ran(before[k], false, false)
    &&& forall|i: int| 0 <= i < k ==> #[trigger] after[i] == before[i]
}

/// `base` followed by the commands of `s`, in order, as a group holds
/// them.
pub open spec fn appended(base: Seq<RecordedCommand>, s: Seq<Box<dyn EditorCommand>>) -> Seq<RecordedCommand>
    decreases s.len(),
{
    if s.len() == 0 {
        base
    } else {
        appended(base, s.drop_last()).push(RecordedCommand { command: s.last() })
    }
}

/// Several editor commands applied as one atomic operation.
pub struct CommandGroup {
    commands: Vec<RecordedCommand>,
    description: String,
    executed: bool,
    calls: Ghost<Seq<(bool, nat)>>,
    runs: Ghost<Seq<(bool, bool)>>,
}

impl View for CommandGroup {
    type V = GroupView;

    closed spec fn view(&self) -> GroupView {
        GroupView {
            commands: self.commands@,
            description: self.description@,
            executed: self.executed,
            calls: self.calls@,
        }
    }
}

impl CommandGroup {
    /// An empty group with the given description.
    pub fn new(description: &str) -> (g: Self)
        ensures
            g@.commands.len() == 0,
            g@.description == description@,
            !g@.executed,
            g@.calls.len() == 0,
            g.runs().len() == 0,
    {
        CommandGroup {
            commands: Vec::new(),
            description: String::from_str(description),
            executed: false,
            calls: Ghost(Seq::empty()),
            runs: Ghost(Seq::empty()),
        }
    }

    /// Appends one command; it runs last and is undone first.
    pub fn with(self, command: Box<dyn EditorCommand>) -> (g: Self)
        ensures
            g@ == (GroupView { commands: self@.commands.push(RecordedCommand { command }), ..self@ }),
            g@.commands.len() == self@.commands.len() + 1,
            g@.commands.drop_last() == self@.commands,
            g.runs() == self.runs(),
    {
        let mut g = self;
        g.commands.push(RecordedCommand { command });
        proof {
            lemma_push_entry(self@.commands, RecordedCommand { command });
        }
        g
    }

    /// Appends several commands, keeping their order.
    pub fn with_all(self, commands: Vec<Box<dyn EditorCommand>>) -> (g: Self)
        ensures
            g@.commands == appended(self@.commands, commands@),
            g@.description == self@.description,
            g@.executed == self@.executed,
            g@.calls == self@.calls,
            g.runs() == self.runs(),
    {
        let mut rest = commands;
        let mut g = self;
        while rest.len() > 0
            invariant
                rest@.len() <= commands@.len(),
                rest@ == commands@.skip(commands@.len() - rest@.len()),
                g@.commands == appended(self@.commands, commands@.take(commands@.len() - rest@.len())),
                g@.description == self@.description,
                g@.executed == self@.executed,
                g@.calls == self@.calls,
                g.runs() == self.runs(),
            decreases rest@.len(),
        {
            let ghost k = commands@.len() - rest@.len();
            let ghost before = rest@;
            let command = rest.remove(0);
            proof {
                assert(command == before[0]);
                assert(before[0] == commands@.skip(k)[0]);
                assert(command == commands@[k]);
                assert(rest@ =~= commands@.skip(k + 1));
            }
            let rc = RecordedCommand { command };
            proof {
                assert(rc == RecordedCommand { command: commands@[k] });
            }
            g.commands.push(rc);
            proof {
                let t = commands@.take(k + 1);
                assert(t.drop_last() =~= commands@.take(k));
                assert(t.last() == commands@[k]);
                assert(appended(self@.commands, t) == appended(self@.commands, commands@.take(k)).push(
                    RecordedCommand { command: commands@[k] },
                ));
            }
        }
        assert(commands@.take(commands@.len() as int) =~= commands@);
        g
    }

    /// The number of commands.
    pub fn len(&self) -> (n: usize)
        ensures
            n == self@.commands.len(),
    {
        self.commands.len()
    }

    /// Whether the group holds no command.
    pub fn is_empty(&self) -> (b: bool)
        ensures
            b == (self@.commands.len() == 0),
    {
        self.commands.is_empty()
    }

    /// Undoes the first `executed` commands, the last of them first,
    /// ignoring failures (best-effort rollback after a failed `execute`).
    fn rollback_executed(&mut self, executed: usize)
        requires
            executed <= old(self)@.commands.len(),
        ensures
            final(self)@.commands.len() == old(self)@.commands.len(),
            final(self)@.description == old(self)@.description,
            final(self)@.executed == old(self)@.executed,
            final(self)@.calls == old(self)@.calls + undo_calls(executed as nat, 0),
            final(self).runs() == old(self).runs(),
            forall|j: int|
                0 <= j < executed ==> undone_once(#[trigger] final(self)@.commands[j], old(self)@.commands[j]),
            forall|j: int|
                executed <= j < old(self)@.commands.len() ==> #[trigger] final(self)@.commands[j]
                    == old(self)@.commands[j],
    {
        let n = self.commands.len();
        let mut i: usize = executed;
        assert(undo_calls(executed as nat, executed as nat) =~= Seq::<(bool, nat)>::empty());
        assert(old(self)@.calls + undo_calls(executed as nat, executed as nat) =~= old(self)@.calls);
        while i > 0
            invariant
                i <= executed,
                executed <= n,
                n == self@.commands.len(),
                n == old(self)@.commands.len(),
                self@.description == old(self)@.description,
                self@.executed == old(self)@.executed,
                self@.calls == old(self)@.calls + undo_calls(executed as nat, i as nat),
                self.runs() == old(self).runs(),
                forall|j: int| i <= j < executed ==> undone_once(#[trigger] self@.commands[j], old(self)@.commands[j]),
                forall|j: int| 0 <= j < i ==> #[trigger] self@.commands[j] == old(self)@.commands[j],
                forall|j: int| executed <= j < n ==> #[trigger] self@.commands[j] == old(self)@.commands[j],
            decreases i,
        {
            i = i - 1;
            let ghost cur = self@.commands;
            let mut entry = self.commands.remove(i);
            let _ = entry.undo();
            self.commands.insert(i, entry);
            proof {
                assert(self@.commands =~= cur.update(i as int, self@.commands[i as int]));
                let c = self.calls@;
                self.calls = Ghost(c.push((false, i as nat)));
                assert(self.calls@ =~= old(self)@.calls + undo_calls(executed as nat, i as nat));
            }
        }
    }
}

impl EditorCommand for CommandGroup {
    open spec fn shown(&self) -> Seq<char> {
        self@.description
    }

    closed spec fn runs(&self) -> Seq<(bool, bool)> {
        self.runs@
    }

    /// Executes the commands in order; on the first failure undoes the ones
    /// that succeeded (last first) and reports failure.
    fn execute(&mut self) -> (ok: bool)
        ensures
            final(self)@.description == old(self)@.description,
            ok ==> final(self)@.executed && all_ran(old(self)@.commands, final(self)@.commands, true),
            ok ==> final(self)@.calls == old(self)@.calls + exec_calls(old(self)@.commands.len()),
            !ok ==> final(self)@.executed == old(self)@.executed,
            !ok ==> exists|k: int|
                #![trigger failed_at(old(self)@.calls, final(self)@.calls, k as nat)]
                execute_failed_at(old(self)@.commands, final(self)@.commands, k) && failed_at(
                    old(self)@.calls,
                    final(self)@.calls,
                    k as nat,
                ),
    {
        let n = self.commands.len();
        let mut i: usize = 0;
        assert(old(self)@.calls + exec_calls(0) =~= old(self)@.calls);
        while i < n
            invariant
                i <= n,
                n == self@.commands.len(),
                n == old(self)@.commands.len(),
                self@.description == old(self)@.description,
                self@.executed == old(self)@.executed,
                self@.calls == old(self)@.calls + exec_calls(i as nat),
                self.runs() == old(self).runs(),
                forall|j: int| 0 <= j < i ==> #[trigger] self@.commands[j].ran(old(self)@.commands[j], true, true),
                forall|j: int| i <= j < n ==> #[trigger] self@.commands[j] == old(self)@.commands[j],
            decreases n - i,
        {
            let ghost cur = self@.commands;
            let mut entry = self.commands.remove(i);
            let ok = entry.execute();
            self.commands.insert(i, entry);
            proof {
                assert(self@.commands =~= cur.update(i as int, self@.commands[i as int]));
                let c = self.calls@;
                self.calls = Ghost(c.push((true, i as nat)));
                assert(self.calls@ =~= old(self)@.calls + exec_calls((i + 1) as nat));
            }
            if !ok {
                let ghost mid = self@.commands;
                self.rollback_executed(i);
                proof {
                    let after = self@.commands;
                    let before = old(self)@.commands;
                    assert forall|j: int| 0 <= j < i implies rolled_back(#[trigger] after[j], before[j]) by {
                        assert(mid[j].ran(before[j], true, true));
                        assert(undone_once(after[j], mid[j]));
                    }
                    assert(after[i as int] == mid[i as int]);
                    assert(execute_failed_at(before, after, i as int));
                    assert(failed_at(old(self)@.calls, self@.calls, i as nat));
                    self.runs = Ghost(self.runs@.push((true, false)));
                }
                return false;
            }
            i = i + 1;
        }
        self.executed = true;
        proof {
            self.runs = Ghost(self.runs@.push((true, true)));
        }
        true
    }

    /// Undoes the commands in reverse order; refuses (changing nothing) when
    /// the group is not executed, and stops at the first failure.
    fn undo(&mut self) -> (ok: bool)
        ensures
            !old(self)@.executed ==> !ok && final(self)@ == old(self)@,
            final(self)@.description == old(self)@.description,
            ok ==> !final(self)@.executed && all_ran(old(self)@.commands, final(self)@.commands, false),
            ok ==> final(self)@.calls == old(self)@.calls + undo_calls(old(self)@.commands.len(), 0),
            !ok ==> final(self)@.executed == old(self)@.executed,
            !ok && old(self)@.executed ==> exists|k: int|
                #![trigger undo_failed_at(old(self)@.commands, final(self)@.commands, k)]
                undo_failed_at(old(self)@.commands, final(self)@.commands, k) && undo_stopped_at(
                    old(self)@.calls,
                    final(self)@.calls,
                    old(self)@.commands.len(),
                    k as nat,
                ),
    {
        if !self.executed {
            proof {
                self.runs = Ghost(self.runs@.push((false, false)));
            }
            return false;
        }
        let n = self.commands.len();
        let mut i: usize = n;
        assert(old(self)@.calls + undo_calls(n as nat, n as nat) =~= old(self)@.calls);
        while i > 0
            invariant
                i <= n,
                n == self@.commands.len(),
                n == old(self)@.commands.len(),
                self@.description == old(self)@.description,
                self@.executed == old(self)@.executed,
                old(self)@.executed,
                self@.calls == old(self)@.calls + undo_calls(n as nat, i as nat),
                self.runs() == old(self).runs(),
                forall|j: int| i <= j < n ==> #[trigger] self@.commands[j].ran(old(self)@.commands[j], false, true),
                forall|j: int| 0 <= j < i ==> #[trigger] self@.commands[j] == old(self)@.commands[j],
            decreases i,
        {
            i = i - 1;
            let ghost cur = self@.commands;
            let mut entry = self.commands.remove(i);
            let ok = entry.undo();
            self.commands.insert(i, entry);
            proof {
                assert(self@.commands =~= cur.update(i as int, self@.commands[i as int]));
                let c = self.calls@;
                self.calls = Ghost(c.push((false, i as nat)));
                assert(self.calls@ =~= old(self)@.calls + undo_calls(n as nat, i as nat));
            }
            if !ok {
                proof {
                    assert(undo_failed_at(old(self)@.commands, self@.commands, i as int));
                    assert(undo_stopped_at(old(self)@.calls, self@.calls, n as nat, i as nat));
                    self.runs = Ghost(self.runs@.push((false, false)));
                }
                return false;
            }
        }
        self.executed = false;
        proof {
            self.runs = Ghost(self.runs@.push((false, true)));
        }
        true
    }

    fn description(&self) -> (d: &str) {
        self.description.as_str()
    }
}

/// A group that executed and was then undone, both succeeding, has run
/// each of its commands once forward and once back, each succeeding, and
/// none of them changed its text.
pub proof fn execute_then_undo_runs_each_once(
    before: Seq<RecordedCommand>,
    mid: Seq<RecordedCommand>,
    after: Seq<RecordedCommand>,
)
    requires
        all_ran(before, mid, true),
        all_ran(mid, after, false),
    ensures
        after.len() == before.len(),
        forall|i: int|
            0 <= i < before.len() ==> (#[trigger] after[i]).command.runs() == before[i].command.runs().push(
                (true, true),
            ).push((false, true)) && after[i].shown() == before[i].shown(),
{
    assert forall|i: int| 0 <= i < before.len() implies (#[trigger] after[i]).command.runs()
        == before[i].command.runs().push((true, true)).push((false, true)) && after[i].shown() == before[i].shown() by {
        assert(mid[i].ran(before[i], true, true));
        assert(after[i].ran(mid[i], false, true));
    }
}

} // verus!
