use std::cell::RefCell;
use std::rc::Rc;

use geese::commands::CommandHistory;
use geese::commands::EditorCommand;
use geese::entity_commands::CreateEntityCommand;
use geese::entity_commands::DeleteEntityCommand;
use geese::entity_commands::InstantiatePrefabCommand;
use geese::entity_commands::TransformCommand;

type P = (i32, i32, i32);

#[test]
fn transform_applies_new_then_old_placement() {
    let log: Rc<RefCell<Vec<(String, P)>>> = Rc::new(RefCell::new(Vec::new()));
    let sink = log.clone();
    let mut cmd = TransformCommand::new("e".to_string(), (0, 0, 0), (1, 2, 3), (0, 0, 0), (0, 90, 0), (1, 1, 1), (2, 2, 2))
        .with_apply(move |id: &str, p: P, _r: P, _s: P| sink.borrow_mut().push((id.to_string(), p)));
    assert!(!cmd.undo());
    assert!(cmd.execute());
    assert!(cmd.undo());
    assert!(!cmd.undo());
    assert_eq!(*log.borrow(), vec![("e".to_string(), (1, 2, 3)), ("e".to_string(), (0, 0, 0))]);
    assert_eq!(cmd.description(), "Transform");
}

#[test]
fn delete_and_create_are_inverse() {
    let log: Rc<RefCell<Vec<String>>> = Rc::new(RefCell::new(Vec::new()));
    let (a, b) = (log.clone(), log.clone());
    let del = DeleteEntityCommand::new("e".to_string(), (1, 1, 1), (0, 0, 0), (1, 1, 1)).with_callbacks(
        move |id: &str| a.borrow_mut().push(format!("delete {}", id)),
        move |id: &str, _p: P, _r: P, _s: P| b.borrow_mut().push(format!("create {}", id)),
    );
    let mut history = CommandHistory::new(8);
    assert!(history.execute(Box::new(del)));
    assert_eq!(history.undo(), Some("Delete Entity".to_string()));
    assert_eq!(history.redo(), Some("Delete Entity".to_string()));
    assert_eq!(*log.borrow(), vec!["delete e", "create e", "delete e"]);
    let mut create: CreateEntityCommand<P, P, fn(&str, P, P, P), fn(&str)> =
        CreateEntityCommand::new("n".to_string(), (0, 0, 0), (0, 0, 0), (1, 1, 1));
    assert!(create.execute());
    assert!(create.undo());
    assert_eq!(create.description(), "Create Entity");
}

#[test]
fn prefab_instantiation_succeeds_only_with_created_entities() {
    let removed: Rc<RefCell<Vec<String>>> = Rc::new(RefCell::new(Vec::new()));
    let sink = removed.clone();
    let mut cmd = InstantiatePrefabCommand::new("prefab-1".to_string(), (5, 0, 5)).with_callbacks(
        |_uuid: &str, _p: P| vec!["a".to_string(), "b".to_string()],
        move |id: &str| sink.borrow_mut().push(id.to_string()),
    );
    assert!(cmd.execute());
    assert_eq!(cmd.created_entity_ids(), &vec!["a".to_string(), "b".to_string()]);
    assert!(cmd.undo());
    assert_eq!(*removed.borrow(), vec!["a".to_string(), "b".to_string()]);
    let mut empty: InstantiatePrefabCommand<P, fn(&str, P) -> Vec<String>, fn(&str)> =
        InstantiatePrefabCommand::new("none".to_string(), (0, 0, 0));
    assert!(!empty.execute());
    assert!(empty.undo());
}
