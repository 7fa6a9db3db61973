//! Undo/redo command system: the [`EditorCommand`] trait, the reparent
//! command, and [`CommandHistory`], a two-stack undo/redo history with a
//! bounded depth.
use vstd::prelude::*;
use crate::text::opt_text;

verus! {

/// An editor operation that can be applied and reverted.
///
/// Each command keeps whatever state it needs so that `undo` can restore the
/// scene as it was before `execute`. Implementations belong to the users of
/// the editor. What their `execute` and `undo` do to the scene is theirs;
/// what every implementation promises is that its description does not
/// change, and that it keeps the record of its runs that `runs` names.
///
/// The defaults of `shown` and `runs` (empty) serve implementations whose
/// code is not proved, which are taken on trust; a proved implementation
/// defines both, or its `execute`, `undo` and `description` cannot meet
/// their contracts.
pub trait EditorCommand {
    /// The text the command shows in the user interface.
    open spec fn shown(&self) -> Seq<char> {
        Seq::empty()
    }

    /// The calls of `execute` (`true`) and `undo` (`false`) made on the
    /// command so far, oldest first, each with what it returned.
    open spec fn runs(&self) -> Seq<(bool, bool)> {
        Seq::empty()
    }

    /// Applies the command; returns whether it succeeded.
    fn execute(&mut self) -> (ok: bool)
        ensures
            final(self).runs() == old(self).runs().push((true, ok)),
            final(self).shown() == old(self).shown();

    /// Reverts the command; returns whether it succeeded.
    fn undo(&mut self) -> (ok: bool)
        ensures
            final(self).runs() == old(self).runs().push((false, ok)),
            final(self).shown() == old(self).shown();

    /// A short text shown in the user interface.
    fn description(&self) -> (r: &str)
        ensures
            r@ == self.shown();
}

/// Borrows the text of an optional string.
pub fn option_as_str(s: &Option<String>) -> (r: Option<&str>)
    ensures
        opt_str_text(r) == opt_text(*s),
{
    match s {
        Some(t) => Some(t.as_str()),
        None => None,
    }
}

/// The text of an optional string slice.
pub open spec fn opt_str_text(s: Option<&str>) -> Option<Seq<char>> {
    match s {
        Some(t) => Some(t@),
        None => None,
    }
}

/// Moves an entity from one parent to another. `F` moves the entity in the
/// scene: it gets the entity id and the parent (none for the root).
pub struct ReparentCommand<F: Fn(&str, Option<&str>)> {
    pub entity_id: String,
    pub old_parent: Option<String>,
    pub new_parent: Option<String>,
    on_reparent: Option<F>,
    executed: bool,
    runs: Ghost<Seq<(bool, bool)>>,
}

/// What a [`ReparentCommand`] records.
pub struct ReparentView {
    pub entity_id: Seq<char>,
    pub old_parent: Option<Seq<char>>,
    pub new_parent: Option<Seq<char>>,
    pub has_callback: bool,
    pub executed: bool,
}

impl<F: Fn(&str, Option<&str>)> View for ReparentCommand<F> {
    type V = ReparentView;

    closed spec fn view(&self) -> ReparentView {
        ReparentView {
            entity_id: self.entity_id@,
            old_parent: opt_text(self.old_parent),
            new_parent: opt_text(self.new_parent),
            has_callback: self.on_reparent is Some,
            executed: self.executed,
        }
    }
}

/// Whether `f` was called with an entity id of text `id` and a parent of
/// text `parent` (and returned).
pub open spec fn reparent_called<F: Fn(&str, Option<&str>)>(f: F, id: Seq<char>, parent: Option<Seq<char>>) -> bool {
    exists|e: &str, p: Option<&str>| e@ == id && opt_str_text(p) == parent && #[trigger] call_ensures(f, (e, p), ())
}

impl<F: Fn(&str, Option<&str>)> ReparentCommand<F> {
    #[verifier::type_invariant]
    spec fn inv(&self) -> bool {
        self.on_reparent matches Some(f) ==> forall|e: &str, p: Option<&str>| #[trigger] call_requires(f, (e, p))
    }

    /// The callback, if one is set.
    pub closed spec fn callback(&self) -> Option<F> {
        self.on_reparent
    }

    pub fn new(entity_id: String, old_parent: Option<String>, new_parent: Option<String>) -> (r: Self)
        ensures
            r@ == (ReparentView {
                entity_id: entity_id@,
                old_parent: opt_text(old_parent),
                new_parent: opt_text(new_parent),
                has_callback: false,
                executed: false,
            }),
            r.callback() is None,
            r.runs().len() == 0,
    {
        ReparentCommand {
            entity_id,
            old_parent,
            new_parent,
            on_reparent: None,
            executed: false,
            runs: Ghost(Seq::empty()),
        }
    }

    /// The same command, moving the entity through `f`.
    pub fn with_callback(self, f: F) -> (r: Self)
        requires
            forall|e: &str, p: Option<&str>| #[trigger] call_requires(f, (e, p)),
        ensures
            r@ == (ReparentView { has_callback: true, ..self@ }),
            r.callback() == Some(f),
            r.runs() == self.runs(),
    {
        ReparentCommand {
            entity_id: self.entity_id,
            old_parent: self.old_parent,
            new_parent: self.new_parent,
            on_reparent: Some(f),
            executed: self.executed,
            runs: self.runs,
        }
    }
}

impl<F: Fn(&str, Option<&str>)> EditorCommand for ReparentCommand<F> {
    open spec fn shown(&self) -> Seq<char> {
        "Reparent"@
    }

    closed spec fn runs(&self) -> Seq<(bool, bool)> {
        self.runs@
    }

    /// Moves the entity under the new parent.
    fn execute(&mut self) -> (ok: bool)
        ensures
            ok,
            final(self)@ == (ReparentView { executed: true, ..old(self)@ }),
            final(self).callback() == old(self).callback(),
            old(self).callback() matches Some(f) ==> reparent_called(f, old(self)@.entity_id, old(self)@.new_parent),
    {
        proof {
            use_type_invariant(&*self);
        }
        match &self.on_reparent {
            Some(cb) => {
                let e = self.entity_id.as_str();
                let p = option_as_str(&self.new_parent);
                cb(e, p);
            },
            None => {},
        }
        self.executed = true;
        proof {
            self.runs = Ghost(self.runs@.push((true, true)));
        }
        true
    }

    /// Moves the entity back under the old parent, if the command ran.
    fn undo(&mut self) -> (ok: bool)
        ensures
            ok == old(self)@.executed,
            final(self)@ == (ReparentView { executed: false, ..old(self)@ }),
            final(self).callback() == old(self).callback(),
            old(self)@.executed ==> (old(self).callback() matches Some(f) ==> reparent_called(
                f,
                old(self)@.entity_id,
                old(self)@.old_parent,
            )),
    {
        proof {
            use_type_invariant(&*self);
        }
        if !self.executed {
            proof {
                self.runs = Ghost(self.runs@.push((false, false)));
            }
            return false;
        }
        match &self.on_reparent {
            Some(cb) => {
                let e = self.entity_id.as_str();
                let p = option_as_str(&self.old_parent);
                cb(e, p);
            },
            None => {},
        }
        self.executed = false;
        proof {
            self.runs = Ghost(self.runs@.push((false, true)));
        }
        true
    }

    fn description(&self) -> (d: &str) {
        "Reparent"
    }
}

/// A command held by a history or a group.
pub struct RecordedCommand {
    pub command: Box<dyn EditorCommand>,
}

impl RecordedCommand {
    pub fn new(command: Box<dyn EditorCommand>) -> (r: Self)
        ensures
            r == (RecordedCommand { command }),
    {
        RecordedCommand { command }
    }

    /// The text the command shows.
    pub open spec fn shown(self) -> Seq<char> {
        self.command.shown()
    }

    /// Whether this entry is `before` after one more run: an `execute`
    /// (`execute` true) or an `undo`, which returned `ok`. The command's
    /// text is unchanged.
    pub open spec fn ran(self, before: RecordedCommand, execute: bool, ok: bool) -> bool {
        &&& self.command.runs() == before.command.runs().push((execute, ok))
        &&& self.command.shown() == before.command.shown()
    }

    /// Runs the command's `execute`.
    pub fn execute(&mut self) -> (ok: bool)
        ensures
            final(self).ran(*old(self), true, ok),
    {
        self.command.execute()
    }

    /// Runs the command's `undo`.
    pub fn undo(&mut self) -> (ok: bool)
        ensures
            final(self).ran(*old(self), false, ok),
    {
        self.command.undo()
    }

    /// The command's description.
    pub fn description(&self) -> (d: &str)
        ensures
            d@ == self.shown(),
    {
        self.command.description()
    }
}

/// Pushing an entry on a sequence of entries adds one at the end. (Stated
/// over an entry taken as a parameter, so that it also serves entries built
/// in place from a boxed command.)
pub proof fn lemma_push_entry(s: Seq<RecordedCommand>, e: RecordedCommand)
    ensures
        s.push(e).len() == s.len() + 1,
        s.push(e).drop_last() == s,
        s.push(e).last() == e,
{
    assert(s.push(e).drop_last() =~= s);
}

/// The abstract state of a [`CommandHistory`]: the commands that can be
/// undone (most recent last), those that can be redone (most recently
/// undone last), and the depth limit.
pub struct HistoryView {
    pub undo: Seq<RecordedCommand>,
    pub redo: Seq<RecordedCommand>,
    pub max_depth: nat,
}

impl HistoryView {
    /// The undo stack that remains before a newly executed command is
    /// pushed: the oldest entry goes when the stack is full.
    pub open spec fn kept_for_push(self) -> Seq<RecordedCommand> {
        if self.undo.len() >= self.max_depth {
            self.undo.skip(1)
        } else {
            self.undo
        }
    }

    /// The state after the command `c` was executed and recorded.
    pub open spec fn executed(self, c: RecordedCommand) -> HistoryView {
        HistoryView { undo: self.kept_for_push().push(c), redo: Seq::empty(), max_depth: self.max_depth }
    }

    /// The state after the top undo entry was reverted, becoming `c`.
    pub open spec fn undone(self, c: RecordedCommand) -> HistoryView {
        HistoryView { undo: self.undo.drop_last(), redo: self.redo.push(c), max_depth: self.max_depth }
    }

    /// The state after the top redo entry was applied again, becoming `c`.
    pub open spec fn redone(self, c: RecordedCommand) -> HistoryView {
        HistoryView { undo: self.undo.push(c), redo: self.redo.drop_last(), max_depth: self.max_depth }
    }

    /// The state after the top undo entry became `c`, staying in place.
    pub open spec fn undo_top_replaced(self, c: RecordedCommand) -> HistoryView {
        HistoryView { undo: self.undo.drop_last().push(c), redo: self.redo, max_depth: self.max_depth }
    }

    /// The state after the top redo entry became `c`, staying in place.
    pub open spec fn redo_top_replaced(self, c: RecordedCommand) -> HistoryView {
        HistoryView { undo: self.undo, redo: self.redo.drop_last().push(c), max_depth: self.max_depth }
    }

    /// The state after the top undo entry was discarded without reverting it.
    pub open spec fn without_top(self) -> HistoryView {
        HistoryView { undo: self.undo.drop_last(), redo: self.redo, max_depth: self.max_depth }
    }

    /// Both stacks together never hold more than `max_depth` commands.
    pub open spec fn bounded(self) -> bool {
        self.undo.len() + self.redo.len() <= self.max_depth
    }
}

/// Undo/redo history built on two stacks.
///
/// Executing a new command clears the redo stack; when the undo stack is
/// full, its oldest command is dropped.
pub struct CommandHistory {
    undo_stack: Vec<RecordedCommand>,
    redo_stack: Vec<RecordedCommand>,
    max_depth: usize,
}

impl View for CommandHistory {
    type V = HistoryView;

    closed spec fn view(&self) -> HistoryView {
        HistoryView { undo: self.undo_stack@, redo: self.redo_stack@, max_depth: self.max_depth as nat }
    }
}

impl CommandHistory {
    #[verifier::type_invariant]
    spec fn inv(&self) -> bool {
        self.undo_stack@.len() + self.redo_stack@.len() <= self.max_depth
    }

    /// Moves both stacks out, leaving the history empty.
    fn take_stacks(&mut self) -> (r: (Vec<RecordedCommand>, Vec<RecordedCommand>))
        ensures
            r.0@ == old(self)@.undo,
            r.1@ == old(self)@.redo,
            final(self)@.undo.len() == 0,
            final(self)@.redo.len() == 0,
            final(self)@.max_depth == old(self)@.max_depth,
            r.0@.len() + r.1@.len() <= old(self)@.max_depth,
    {
        proof {
            use_type_invariant(&*self);
        }
        let mut u: Vec<RecordedCommand> = Vec::new();
        let mut r: Vec<RecordedCommand> = Vec::new();
        std::mem::swap(&mut u, &mut self.undo_stack);
        std::mem::swap(&mut r, &mut self.redo_stack);
        (u, r)
    }

    /// Installs both stacks into an emptied history.
    fn put_stacks(&mut self, u: Vec<RecordedCommand>, r: Vec<RecordedCommand>)
        requires
            old(self)@.undo.len() == 0,
            old(self)@.redo.len() == 0,
            u@.len() + r@.len() <= old(self)@.max_depth,
        ensures
            final(self)@ == (HistoryView { undo: u@, redo: r@, max_depth: old(self)@.max_depth }),
    {
        self.undo_stack = u;
        self.redo_stack = r;
    }

    pub fn new(max_depth: usize) -> (h: Self)
        ensures
            h@.undo == Seq::<RecordedCommand>::empty(),
            h@.redo == Seq::<RecordedCommand>::empty(),
            h@.max_depth == max_depth,
    {
        CommandHistory { undo_stack: Vec::with_capacity(max_depth), redo_stack: Vec::new(), max_depth }
    }

    /// Records the outcome of executing `entry`: when it succeeded, `entry`
    /// goes on top of the undo stack (the oldest entry leaves a full stack)
    /// and the redo stack is cleared; otherwise `entry` is dropped and
    /// nothing changes. Returns `success`.
    pub fn record_executed(&mut self, entry: RecordedCommand, success: bool) -> (ok: bool)
        requires
            old(self)@.max_depth > 0,
        ensures
            ok == success,
            success ==> final(self)@ == old(self)@.executed(entry),
            !success ==> final(self)@ == old(self)@,
    {
        proof {
            use_type_invariant(&*self);
        }
        if !success {
            return false;
        }
        let (mut undo, _) = self.take_stacks();
        if undo.len() >= self.max_depth {
            undo.remove(0);
        }
        undo.push(entry);
        let empty: Vec<RecordedCommand> = Vec::new();
        self.put_stacks(undo, empty);
        proof {
            assert(self@.undo.drop_last() =~= old(self)@.kept_for_push());
            assert(self@ =~= old(self)@.executed(entry));
        }
        true
    }

    /// Executes the command held by `entry` and records it for undo; clears
    /// the redo stack (see [`Self::execute`]).
    pub fn execute_entry(&mut self, entry: RecordedCommand) -> (ok: bool)
        requires
            old(self)@.max_depth > 0,
        ensures
            ok ==> final(self)@ == old(self)@.executed(final(self)@.undo.last()),
            ok ==> final(self)@.undo.last().ran(entry, true, true),
            ok ==> final(self)@.undo.drop_last() == old(self)@.kept_for_push() && final(self)@.undo.len()
                == old(self)@.kept_for_push().len() + 1 && final(self)@.redo.len() == 0,
            !ok ==> final(self)@ == old(self)@,
            !ok ==> exists|c: RecordedCommand| #[trigger] c.ran(entry, true, false),
            final(self)@.bounded(),
    {
        proof {
            use_type_invariant(&*self);
        }
        let mut entry = entry;
        let success = entry.execute();
        let ghost e = entry;
        let ok = self.record_executed(entry, success);
        proof {
            use_type_invariant(&*self);
            lemma_push_entry(old(self)@.kept_for_push(), e);
        }
        ok
    }

    /// Executes `command` and records it for undo; clears the redo stack.
    ///
    /// Returns what the command's `execute` returned: on `true` the command,
    /// run once, is the new top of the undo stack (see
    /// [`Self::record_executed`]); on `false` it is dropped, having run once
    /// and failed, and the history is left as it was.
    pub fn execute(&mut self, command: Box<dyn EditorCommand>) -> (ok: bool)
        requires
            old(self)@.max_depth > 0,
        ensures
            ok ==> final(self)@ == old(self)@.executed(final(self)@.undo.last()),
            ok ==> final(self)@.undo.last().ran(RecordedCommand { command }, true, true),
            ok ==> final(self)@.undo.drop_last() == old(self)@.kept_for_push() && final(self)@.undo.len()
                == old(self)@.kept_for_push().len() + 1 && final(self)@.redo.len() == 0,
            !ok ==> final(self)@ == old(self)@,
            !ok ==> exists|c: RecordedCommand| #[trigger] c.ran(RecordedCommand { command }, true, false),
            final(self)@.bounded(),
    {
        self.execute_entry(RecordedCommand { command })
    }

    /// Records the outcome of undoing `entry`, which was just taken off the
    /// top of the undo stack and shows `desc`: when it succeeded, `entry`
    /// goes on top of the redo stack and `desc` is returned; otherwise
    /// `entry` goes back on top of the undo stack and `None` is returned.
    pub fn record_undone(&mut self, entry: RecordedCommand, desc: String, success: bool) -> (r: Option<String>)
        requires
            old(self)@.undo.len() + old(self)@.redo.len() < old(self)@.max_depth,
        ensures
            success ==> r == Some(desc) && final(self)@ == (HistoryView {
                redo: old(self)@.redo.push(entry),
                ..old(self)@
            }),
            !success ==> r is None && final(self)@ == (HistoryView { undo: old(self)@.undo.push(entry), ..old(self)@ }),
    {
        let (mut undo, mut redo) = self.take_stacks();
        if success {
            redo.push(entry);
            self.put_stacks(undo, redo);
            proof {
                assert(self@ =~= (HistoryView { redo: old(self)@.redo.push(entry), ..old(self)@ }));
            }
            Some(desc)
        } else {
            undo.push(entry);
            self.put_stacks(undo, redo);
            proof {
                assert(self@ =~= (HistoryView { undo: old(self)@.undo.push(entry), ..old(self)@ }));
            }
            None
        }
    }

    /// Records the outcome of executing again `entry`, which was just taken
    /// off the top of the redo stack and shows `desc`: when it succeeded,
    /// `entry` goes on top of the undo stack and `desc` is returned;
    /// otherwise `entry` goes back on top of the redo stack and `None` is
    /// returned.
    pub fn record_redone(&mut self, entry: RecordedCommand, desc: String, success: bool) -> (r: Option<String>)
        requires
            old(self)@.undo.len() + old(self)@.redo.len() < old(self)@.max_depth,
        ensures
            success ==> r == Some(desc) && final(self)@ == (HistoryView {
                undo: old(self)@.undo.push(entry),
                ..old(self)@
            }),
            !success ==> r is None && final(self)@ == (HistoryView { redo: old(self)@.redo.push(entry), ..old(self)@ }),
    {
        let (mut undo, mut redo) = self.take_stacks();
        if success {
            undo.push(entry);
            self.put_stacks(undo, redo);
            proof {
                assert(self@ =~= (HistoryView { undo: old(self)@.undo.push(entry), ..old(self)@ }));
            }
            Some(desc)
        } else {
            redo.push(entry);
            self.put_stacks(undo, redo);
            proof {
                assert(self@ =~= (HistoryView { redo: old(self)@.redo.push(entry), ..old(self)@ }));
            }
            None
        }
    }

    /// Takes the top entry off the undo stack, or off the redo stack when
    /// `from_redo` holds.
    fn pop_entry(&mut self, from_redo: bool) -> (r: Option<RecordedCommand>)
        ensures
            !from_redo && old(self)@.undo.len() == 0 ==> r is None && final(self)@ == old(self)@,
            !from_redo && old(self)@.undo.len() > 0 ==> r == Some(old(self)@.undo.last()) && final(self)@
                == old(self)@.without_top(),
            from_redo && old(self)@.redo.len() == 0 ==> r is None && final(self)@ == old(self)@,
            from_redo && old(self)@.redo.len() > 0 ==> r == Some(old(self)@.redo.last()) && final(self)@ == (
            HistoryView { redo: old(self)@.redo.drop_last(), ..old(self)@ }),
    {
        proof {
            use_type_invariant(&*self);
        }
        let (mut undo, mut redo) = self.take_stacks();
        let popped = if from_redo {
            redo.pop()
        } else {
            undo.pop()
        };
        self.put_stacks(undo, redo);
        proof {
            assert(!from_redo && old(self)@.undo.len() > 0 ==> self@ =~= old(self)@.without_top());
            assert(from_redo && old(self)@.redo.len() > 0 ==> self@ =~= (HistoryView {
                redo: old(self)@.redo.drop_last(),
                ..old(self)@
            }));
        }
        popped
    }

    /// Reverts the most recent command and moves it to the redo stack.
    ///
    /// Returns its description, or `None` when there is nothing to undo or
    /// the command's `undo` failed (it then stays on the undo stack).
    pub fn undo(&mut self) -> (r: Option<String>)
        ensures
            old(self)@.undo.len() == 0 ==> r is None && final(self)@ == old(self)@,
            old(self)@.undo.len() > 0 && r is Some ==> final(self)@ == old(self)@.undone(final(self)@.redo.last())
                && final(self)@.redo.last().ran(old(self)@.undo.last(), false, true) && r->0@ == old(
                self,
            )@.undo.last().shown(),
            old(self)@.undo.len() > 0 && r is None ==> final(self)@ == old(self)@.undo_top_replaced(
                final(self)@.undo.last(),
            ) && final(self)@.undo.last().ran(old(self)@.undo.last(), false, false),
            old(self)@.undo.len() > 0 && r is Some ==> final(self)@.undo.len() == old(self)@.undo.len() - 1
                && final(self)@.redo.len() == old(self)@.redo.len() + 1,
            r is None ==> final(self)@.undo.len() == old(self)@.undo.len() && final(self)@.redo.len()
                == old(self)@.redo.len(),
            final(self)@.bounded(),
    {
        proof {
            use_type_invariant(&*self);
        }
        let popped = self.pop_entry(false);
        match popped {
            None => None,
            Some(entry) => {
                let mut entry = entry;
                let desc = String::from_str(entry.description());
                let success = entry.undo();
                let r = self.record_undone(entry, desc, success);
                proof {
                    use_type_invariant(&*self);
                    lemma_push_entry(old(self)@.redo, entry);
                    lemma_push_entry(old(self)@.undo.drop_last(), entry);
                    assert(old(self)@.undo_top_replaced(entry) =~= (HistoryView {
                        undo: old(self)@.undo.drop_last().push(entry),
                        ..old(self)@
                    }));
                    assert(old(self)@.undone(entry) =~= (HistoryView {
                        undo: old(self)@.undo.drop_last(),
                        redo: old(self)@.redo.push(entry),
                        ..old(self)@
                    }));
                }
                r
            },
        }
    }

    /// Applies again the most recently undone command and moves it back to
    /// the undo stack.
    ///
    /// Returns its description, or `None` when there is nothing to redo or
    /// the command's `execute` failed (it then stays on the redo stack).
    pub fn redo(&mut self) -> (r: Option<String>)
        ensures
            old(self)@.redo.len() == 0 ==> r is None && final(self)@ == old(self)@,
            old(self)@.redo.len() > 0 && r is Some ==> final(self)@ == old(self)@.redone(final(self)@.undo.last())
                && final(self)@.undo.last().ran(old(self)@.redo.last(), true, true) && r->0@ == old(
                self,
            )@.redo.last().shown(),
            old(self)@.redo.len() > 0 && r is None ==> final(self)@ == old(self)@.redo_top_replaced(
                final(self)@.redo.last(),
            ) && final(self)@.redo.last().ran(old(self)@.redo.last(), true, false),
            old(self)@.redo.len() > 0 && r is Some ==> final(self)@.redo.len() == old(self)@.redo.len() - 1
                && final(self)@.undo.len() == old(self)@.undo.len() + 1,
            r is None ==> final(self)@.undo.len() == old(self)@.undo.len() && final(self)@.redo.len()
                == old(self)@.redo.len(),
            final(self)@.bounded(),
    {
        proof {
            use_type_invariant(&*self);
        }
        let popped = self.pop_entry(true);
        match popped {
            None => None,
            Some(entry) => {
                let mut entry = entry;
                let desc = String::from_str(entry.description());
                let success = entry.execute();
                let r = self.record_redone(entry, desc, success);
                proof {
                    use_type_invariant(&*self);
                    lemma_push_entry(old(self)@.undo, entry);
                    lemma_push_entry(old(self)@.redo.drop_last(), entry);
                    assert(old(self)@.redone(entry) =~= (HistoryView {
                        undo: old(self)@.undo.push(entry),
                        redo: old(self)@.redo.drop_last(),
                        ..old(self)@
                    }));
                    assert(old(self)@.redo_top_replaced(entry) =~= (HistoryView {
                        redo: old(self)@.redo.drop_last().push(entry),
                        ..old(self)@
                    }));
                }
                r
            },
        }
    }

    pub fn can_undo(&self) -> (r: bool)
        ensures
            r == (self@.undo.len() > 0),
    {
        !self.undo_stack.is_empty()
    }

    pub fn can_redo(&self) -> (r: bool)
        ensures
            r == (self@.redo.len() > 0),
    {
        !self.redo_stack.is_empty()
    }

    pub fn undo_depth(&self) -> (n: usize)
        ensures
            n == self@.undo.len(),
    {
        self.undo_stack.len()
    }

    pub fn redo_depth(&self) -> (n: usize)
        ensures
            n == self@.redo.len(),
    {
        self.redo_stack.len()
    }

    /// Removes the most recent undo entry without reverting it (used to
    /// merge consecutive drag steps).
    pub fn pop_last_undo(&mut self) -> (r: Option<Box<dyn EditorCommand>>)
        ensures
            old(self)@.undo.len() == 0 ==> r is None && final(self)@ == old(self)@,
            old(self)@.undo.len() > 0 ==> r == Some(old(self)@.undo.last().command) && final(self)@
                == old(self)@.without_top(),
            final(self)@.bounded(),
    {
        proof {
            use_type_invariant(&*self);
        }
        let (mut undo, redo) = self.take_stacks();
        let popped = undo.pop();
        self.put_stacks(undo, redo);
        let r = match popped {
            Some(entry) => Some(entry.command),
            None => None,
        };
        proof {
            assert(old(self)@.undo.len() > 0 ==> self@ =~= old(self)@.without_top());
        }
        r
    }

    /// The description of the most recent undo entry.
    pub fn last_undo_description(&self) -> (r: Option<&str>)
        ensures
            self@.undo.len() == 0 ==> r is None,
            self@.undo.len() > 0 ==> opt_str_text(r) == Some(self@.undo.last().shown()),
    {
        let n = self.undo_stack.len();
        if n == 0 {
            None
        } else {
            Some(self.undo_stack[n - 1].description())
        }
    }

    /// Forgets every command.
    pub fn clear(&mut self)
        ensures
            final(self)@.undo == Seq::<RecordedCommand>::empty(),
            final(self)@.redo == Seq::<RecordedCommand>::empty(),
            final(self)@.max_depth == old(self)@.max_depth,
    {
        let _ = self.take_stacks();
    }
}

impl Default for CommandHistory {
    fn default() -> (h: Self)
        ensures
            h@.undo.len() == 0,
            h@.redo.len() == 0,
            h@.max_depth == 256,
    {
        Self::new(256)
    }
}

/// Undoing the top command and then redoing it, both succeeding, gives the
/// history back as it was, but for that command, which has run once more
/// each way and still shows the same text: the text that both calls return.
pub proof fn undo_then_redo_round_trip(h: HistoryView, undone: RecordedCommand, redone: RecordedCommand)
    requires
        h.undo.len() > 0,
        undone.ran(h.undo.last(), false, true),
        redone.ran(h.undone(undone).redo.last(), true, true),
    ensures
        h.undone(undone).redone(redone) == h.undo_top_replaced(redone),
        h.undone(undone).redo.last().shown() == h.undo.last().shown(),
        redone.shown() == h.undo.last().shown(),
        redone.command.runs() == h.undo.last().command.runs().push((false, true)).push((true, true)),
{
    assert(h.undone(undone).redone(redone).redo =~= h.redo);
    assert(h.undone(undone).redone(redone).undo =~= h.undo.drop_last().push(redone));
}

/// Redoing the top undone command and then undoing it again, both
/// succeeding, gives the history back as it was, but for that command,
/// which has run once more each way and still shows the same text.
pub proof fn redo_then_undo_round_trip(h: HistoryView, redone: RecordedCommand, undone: RecordedCommand)
    requires
        h.redo.len() > 0,
        redone.ran(h.redo.last(), true, true),
        undone.ran(h.redone(redone).undo.last(), false, true),
    ensures
        h.redone(redone).undone(undone) == h.redo_top_replaced(undone),
        h.redone(redone).undo.last().shown() == h.redo.last().shown(),
        undone.shown() == h.redo.last().shown(),
        undone.command.runs() == h.redo.last().command.runs().push((true, true)).push((false, true)),
{
    assert(h.redone(redone).undone(undone).undo =~= h.undo);
    assert(h.redone(redone).undone(undone).redo =~= h.redo.drop_last().push(undone));
}

/// A history whose `undo` or `redo` failed is the same as before but for
/// the command that failed, which stays on top of its stack; the depths do
/// not change.
pub proof fn failed_step_keeps_depths(h: HistoryView, c: RecordedCommand)
    ensures
        h.undo.len() > 0 ==> h.undo_top_replaced(c).undo.len() == h.undo.len() && h.undo_top_replaced(c).redo
            == h.redo && h.undo_top_replaced(c).undo.drop_last() == h.undo.drop_last(),
        h.redo.len() > 0 ==> h.redo_top_replaced(c).redo.len() == h.redo.len() && h.redo_top_replaced(c).undo
            == h.undo && h.redo_top_replaced(c).redo.drop_last() == h.redo.drop_last(),
{
    assert(h.undo.len() > 0 ==> h.undo_top_replaced(c).undo.drop_last() =~= h.undo.drop_last());
    assert(h.redo.len() > 0 ==> h.redo_top_replaced(c).redo.drop_last() =~= h.redo.drop_last());
}

/// Executing a command always leaves nothing to redo, and the undo stack
/// holds at most `max_depth` commands, the new one on top.
pub proof fn execute_clears_redo_and_respects_depth(h: HistoryView, c: RecordedCommand)
    requires
        h.max_depth > 0,
        h.bounded(),
    ensures
        h.executed(c).redo.len() == 0,
        h.executed(c).undo.len() <= h.max_depth,
        h.executed(c).undo.last() == c,
        h.executed(c).bounded(),
{
}

} // verus!
