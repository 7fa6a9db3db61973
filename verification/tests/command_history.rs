use geese::commands::RecordedCommand;
use geese::commands::CommandHistory;
use geese::commands::EditorCommand;
use geese::commands::ReparentCommand;
use std::cell::RefCell;
use std::rc::Rc;

struct TestCommand {
    desc: String,
    executed: bool,
}

impl EditorCommand for TestCommand {
    fn execute(&mut self) -> bool {
        self.executed = true;
        true
    }
    fn undo(&mut self) -> bool {
        self.executed = false;
        true
    }
    fn description(&self) -> &str {
        &self.desc
    }
}

struct FailingCommand {
    fail_execute: bool,
    fail_undo: bool,
}

impl EditorCommand for FailingCommand {
    fn execute(&mut self) -> bool {
        !self.fail_execute
    }
    fn undo(&mut self) -> bool {
        !self.fail_undo
    }
    fn description(&self) -> &str {
        "Failing"
    }
}

#[test]
fn test_command_history_undo_redo() {
    let mut history = CommandHistory::new(10);
    history.execute(Box::new(TestCommand { desc: "Cmd1".into(), executed: false }));
    history.execute(Box::new(TestCommand { desc: "Cmd2".into(), executed: false }));

    assert_eq!(history.undo_depth(), 2);
    assert!(history.can_undo());

    let desc = history.undo();
    assert_eq!(desc, Some("Cmd2".into()));
    assert_eq!(history.undo_depth(), 1);
    assert_eq!(history.redo_depth(), 1);

    let desc = history.redo();
    assert_eq!(desc, Some("Cmd2".into()));
    assert_eq!(history.undo_depth(), 2);
    assert_eq!(history.redo_depth(), 0);
}

#[test]
fn test_redo_cleared_on_new_command() {
    let mut history = CommandHistory::new(10);
    history.execute(Box::new(TestCommand { desc: "Cmd1".into(), executed: false }));
    history.undo();
    assert_eq!(history.redo_depth(), 1);

    history.execute(Box::new(TestCommand { desc: "Cmd2".into(), executed: false }));
    assert_eq!(history.redo_depth(), 0);
}

#[test]
fn test_max_depth() {
    let mut history = CommandHistory::new(3);
    for i in 0..5 {
        history.execute(Box::new(TestCommand { desc: format!("Cmd{}", i), executed: false }));
    }
    assert_eq!(history.undo_depth(), 3);
}

#[test]
fn max_depth_drops_oldest_command() {
    let mut history = CommandHistory::new(2);
    for i in 0..3 {
        history.execute(Box::new(TestCommand { desc: format!("Cmd{}", i), executed: false }));
    }
    assert_eq!(history.last_undo_description(), Some("Cmd2"));
    assert_eq!(history.undo(), Some("Cmd2".to_string()));
    assert_eq!(history.undo(), Some("Cmd1".to_string()));
    assert_eq!(history.undo(), None);
    assert_eq!(history.redo_depth(), 2);
}

#[test]
fn undo_and_redo_on_empty_history_do_nothing() {
    let mut history = CommandHistory::new(4);
    assert!(!history.can_undo());
    assert!(!history.can_redo());
    assert_eq!(history.undo(), None);
    assert_eq!(history.redo(), None);
    assert_eq!(history.last_undo_description(), None);
    assert!(history.pop_last_undo().is_none());
    assert_eq!(history.undo_depth(), 0);
    assert_eq!(history.redo_depth(), 0);
}

#[test]
fn failed_execute_is_not_recorded() {
    let mut history = CommandHistory::new(4);
    history.execute(Box::new(TestCommand { desc: "Keep".into(), executed: false }));
    history.undo();
    let ok = history.execute(Box::new(FailingCommand { fail_execute: true, fail_undo: false }));
    assert!(!ok);
    assert_eq!(history.undo_depth(), 0);
    assert_eq!(history.redo_depth(), 1);
}

#[test]
fn failed_undo_keeps_command_on_undo_stack() {
    let mut history = CommandHistory::new(4);
    assert!(history.execute(Box::new(FailingCommand { fail_execute: false, fail_undo: true })));
    assert_eq!(history.undo(), None);
    assert_eq!(history.undo_depth(), 1);
    assert_eq!(history.redo_depth(), 0);
    assert!(history.can_undo());
}

#[test]
fn pop_last_undo_and_clear() {
    let mut history = CommandHistory::new(4);
    history.execute(Box::new(TestCommand { desc: "A".into(), executed: false }));
    history.execute(Box::new(TestCommand { desc: "B".into(), executed: false }));
    let popped = history.pop_last_undo().unwrap();
    assert_eq!(popped.description(), "B");
    assert_eq!(history.undo_depth(), 1);
    history.undo();
    assert_eq!(history.redo_depth(), 1);
    history.clear();
    assert_eq!(history.undo_depth(), 0);
    assert_eq!(history.redo_depth(), 0);
}

#[test]
fn default_history_holds_256_commands() {
    let mut history = CommandHistory::default();
    for i in 0..300 {
        history.execute(Box::new(TestCommand { desc: format!("Cmd{}", i), executed: false }));
    }
    assert_eq!(history.undo_depth(), 256);
}

#[test]
fn undo_then_redo_restores_depths_on_values() {
    let mut history = CommandHistory::new(5);
    for i in 0..3 {
        history.execute(Box::new(TestCommand { desc: format!("Cmd{}", i), executed: false }));
    }
    history.undo();
    let (u, r) = (history.undo_depth(), history.redo_depth());
    assert_eq!(history.undo(), Some("Cmd1".to_string()));
    assert_eq!(history.redo(), Some("Cmd1".to_string()));
    assert_eq!((history.undo_depth(), history.redo_depth()), (u, r));
}

#[test]
fn reparent_command_calls_back_with_new_then_old_parent() {
    let log: Rc<RefCell<Vec<(String, Option<String>)>>> = Rc::new(RefCell::new(Vec::new()));
    let sink = log.clone();
    let mut cmd = ReparentCommand::new("child".into(), Some("a".into()), None).with_callback(
        move |id: &str, parent: Option<&str>| {
            sink.borrow_mut().push((id.to_string(), parent.map(|p| p.to_string())));
        },
    );
    assert!(!cmd.undo());
    assert!(cmd.execute());
    assert!(cmd.undo());
    assert!(!cmd.undo());
    assert_eq!(cmd.description(), "Reparent");
    let log = log.borrow();
    assert_eq!(log.len(), 2);
    assert_eq!(log[0], ("child".to_string(), None));
    assert_eq!(log[1], ("child".to_string(), Some("a".to_string())));
}

#[test]
fn record_steps_follow_the_outcome() {
    let mut h = CommandHistory::new(3);
    let entry = RecordedCommand::new(Box::new(TestCommand { desc: "A".into(), executed: false }));
    assert!(!h.record_executed(entry, false));
    assert_eq!(h.undo_depth(), 0);
    let entry = RecordedCommand::new(Box::new(TestCommand { desc: "A".into(), executed: false }));
    assert!(h.record_executed(entry, true));
    assert_eq!(h.last_undo_description(), Some("A"));
    let entry = RecordedCommand::new(Box::new(TestCommand { desc: "B".into(), executed: false }));
    assert_eq!(h.record_undone(entry, "B".to_string(), true), Some("B".to_string()));
    assert_eq!(h.redo_depth(), 1);
    assert_eq!(h.undo_depth(), 1);
    let entry = RecordedCommand::new(Box::new(TestCommand { desc: "C".into(), executed: false }));
    assert_eq!(h.record_redone(entry, "C".to_string(), false), None);
    assert_eq!(h.redo_depth(), 2);
    assert_eq!(h.undo_depth(), 1);
}

struct OnceCommand {
    runs_left: u32,
}

impl EditorCommand for OnceCommand {
    fn execute(&mut self) -> bool {
        if self.runs_left == 0 {
            return false;
        }
        self.runs_left -= 1;
        true
    }
    fn undo(&mut self) -> bool {
        true
    }
    fn description(&self) -> &str {
        "Once"
    }
}

#[test]
fn failed_redo_keeps_command_on_redo_stack() {
    let mut h = CommandHistory::new(4);
    assert!(h.execute(Box::new(OnceCommand { runs_left: 1 })));
    assert_eq!(h.undo(), Some("Once".to_string()));
    assert_eq!(h.redo(), None);
    assert_eq!(h.redo_depth(), 1);
    assert_eq!(h.undo_depth(), 0);
    assert!(h.can_redo());
}

#[test]
fn execute_entry_records_the_entry() {
    let mut h = CommandHistory::new(2);
    let e = RecordedCommand::new(Box::new(TestCommand { desc: "E".into(), executed: false }));
    assert!(h.execute_entry(e));
    assert_eq!(h.last_undo_description(), Some("E"));
    let f = RecordedCommand::new(Box::new(FailingCommand { fail_execute: true, fail_undo: false }));
    assert!(!h.execute_entry(f));
    assert_eq!(h.undo_depth(), 1);
}
