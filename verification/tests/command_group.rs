use geese::command_group::CommandGroup;
use geese::commands::EditorCommand;
use std::sync::atomic::AtomicI32;
use std::sync::atomic::Ordering;
use std::sync::Arc;

struct CounterCmd {
    desc: String,
    counter: Arc<AtomicI32>,
    executed: bool,
}

impl CounterCmd {
    fn new(desc: &str, counter: Arc<AtomicI32>) -> Self {
        Self { desc: desc.to_string(), counter, executed: false }
    }
}

impl EditorCommand for CounterCmd {
    fn execute(&mut self) -> bool {
        self.counter.fetch_add(1, Ordering::SeqCst);
        self.executed = true;
        true
    }
    fn undo(&mut self) -> bool {
        if !self.executed {
            return false;
        }
        self.counter.fetch_sub(1, Ordering::SeqCst);
        self.executed = false;
        true
    }
    fn description(&self) -> &str {
        &self.desc
    }
}

struct RefuseCmd;

impl EditorCommand for RefuseCmd {
    fn execute(&mut self) -> bool {
        false
    }
    fn undo(&mut self) -> bool {
        false
    }
    fn description(&self) -> &str {
        "Refuse"
    }
}

#[test]
fn command_group_execute_and_undo() {
    let counter = Arc::new(AtomicI32::new(0));
    let mut group = CommandGroup::new("Test Group")
        .with(Box::new(CounterCmd::new("A", counter.clone())))
        .with(Box::new(CounterCmd::new("B", counter.clone())))
        .with(Box::new(CounterCmd::new("C", counter.clone())));

    assert_eq!(group.len(), 3);

    let ok = group.execute();
    assert!(ok);
    assert_eq!(counter.load(Ordering::SeqCst), 3);

    let ok = group.undo();
    assert!(ok);
    assert_eq!(counter.load(Ordering::SeqCst), 0);

    assert!(!group.undo());
}

#[test]
fn empty_command_group() {
    let group = CommandGroup::new("Empty");
    assert!(group.is_empty());
    assert_eq!(group.len(), 0);

    let mut group = group;
    assert!(group.execute());
    assert!(group.undo());
}

#[test]
fn command_group_description() {
    let group = CommandGroup::new("Batch Delete (3 entities)");
    assert_eq!(group.description(), "Batch Delete (3 entities)");
}

#[test]
fn command_group_with_all() {
    let counter = Arc::new(AtomicI32::new(0));
    let cmds: Vec<Box<dyn EditorCommand>> = vec![
        Box::new(CounterCmd::new("X", counter.clone())),
        Box::new(CounterCmd::new("Y", counter.clone())),
    ];

    let mut group = CommandGroup::new("With All").with_all(cmds);
    assert_eq!(group.len(), 2);
    assert!(group.execute());
    assert_eq!(counter.load(Ordering::SeqCst), 2);
    assert!(group.undo());
    assert_eq!(counter.load(Ordering::SeqCst), 0);
}

#[test]
fn failed_child_rolls_back_the_group() {
    let counter = Arc::new(AtomicI32::new(0));
    let mut group = CommandGroup::new("Partial")
        .with(Box::new(CounterCmd::new("A", counter.clone())))
        .with(Box::new(CounterCmd::new("B", counter.clone())))
        .with(Box::new(RefuseCmd))
        .with(Box::new(CounterCmd::new("D", counter.clone())));
    assert!(!group.execute());
    assert_eq!(counter.load(Ordering::SeqCst), 0);
    assert!(!group.undo());
    assert_eq!(group.len(), 4);
}

#[test]
fn group_with_keeps_existing_commands_first() {
    let counter = Arc::new(AtomicI32::new(0));
    let first: Vec<Box<dyn EditorCommand>> = vec![Box::new(CounterCmd::new("P", counter.clone()))];
    let group = CommandGroup::new("Order")
        .with(Box::new(CounterCmd::new("O", counter.clone())))
        .with_all(first)
        .with(Box::new(CounterCmd::new("Q", counter.clone())));
    assert_eq!(group.len(), 3);
    assert!(!group.is_empty());
}

struct LogCmd {
    name: String,
    log: std::rc::Rc<std::cell::RefCell<Vec<String>>>,
}

impl EditorCommand for LogCmd {
    fn execute(&mut self) -> bool {
        self.log.borrow_mut().push(format!("+{}", self.name));
        true
    }
    fn undo(&mut self) -> bool {
        self.log.borrow_mut().push(format!("-{}", self.name));
        true
    }
    fn description(&self) -> &str {
        &self.name
    }
}

#[test]
fn with_all_keeps_order_after_existing_commands() {
    let log = std::rc::Rc::new(std::cell::RefCell::new(Vec::new()));
    let cmd = |n: &str| -> Box<dyn EditorCommand> { Box::new(LogCmd { name: n.to_string(), log: log.clone() }) };
    let mut group = CommandGroup::new("Ordered").with(cmd("a")).with_all(vec![cmd("b"), cmd("c"), cmd("d")]);
    assert_eq!(group.len(), 4);
    assert!(group.execute());
    assert!(group.undo());
    assert_eq!(*log.borrow(), vec!["+a", "+b", "+c", "+d", "-d", "-c", "-b", "-a"]);
    assert_eq!(group.description(), "Ordered");
}
