use held::utils::ui::undotree as screen;
use held::utils::undotree::{Action, EditCommand, UndoTree, UndoTreeNode};

fn cmd(deleted: &str, inserted: &str, line: u16) -> EditCommand {
    EditCommand::new(
        Action::Delete(deleted.to_string()),
        Action::Insert(inserted.to_string()),
        line,
    )
}

fn history() -> UndoTree {
    let mut tree = UndoTree::new(EditCommand::default());
    let root = tree.get_root();
    tree.set_tree_pointer(root);
    tree
}

#[test]
fn a_command_reverses_to_the_swapped_texts() {
    let c = cmd("old", "new", 7);
    let r = c.process().unwrap();
    assert_eq!(r.get_delete_content(), Some("new".to_string()));
    assert_eq!(r.get_insert_content(), Some("old".to_string()));
    assert_eq!(c.duplicate(), c);
    assert_eq!(EditCommand::default().get_delete_content(), None);
}

#[test]
fn undo_after_push_answers_the_reversed_command() {
    let mut tree = history();
    let root = tree.get_root();
    tree.push_with_command(cmd("a", "b", 3));
    let k = tree.get_current_node();
    assert_ne!(k, root);
    assert_eq!(tree.get_parent(k), Some(root));
    assert_eq!(tree.get_children(root), vec![k]);
    let undone = tree.undo().unwrap();
    assert_eq!(undone.get_delete_content(), Some("b".to_string()));
    assert_eq!(undone.get_insert_content(), Some("a".to_string()));
    assert_eq!(tree.get_current_node(), root);
    let redone = tree.redo().unwrap();
    assert_eq!(redone, cmd("a", "b", 3));
    assert_eq!(tree.get_current_node(), k);
}

#[test]
fn undo_and_redo_with_nothing_recorded_fail() {
    let mut tree = history();
    assert_eq!(tree.undo(), Err(()));
    assert_eq!(tree.redo(), Err(()));
    assert_eq!(tree.undo_last_operation(), Err(()));
    assert_eq!(tree.redo_next_operation(), Err(()));
}

#[test]
fn the_chain_of_operations_goes_back_and_forth() {
    let mut tree = history();
    let root = tree.get_root();
    tree.push_with_command(cmd("x", "y", 1));
    let k = tree.get_current_node();
    let back = tree.undo_last_operation().unwrap();
    assert_eq!(back.get_insert_content(), Some("x".to_string()));
    assert_eq!(tree.get_current_node(), root);
    let forth = tree.redo_next_operation().unwrap();
    assert_eq!(forth, cmd("x", "y", 1));
    assert_eq!(tree.get_current_node(), k);
}

#[test]
fn a_child_can_be_deleted_again() {
    let mut tree = history();
    let root = tree.get_root();
    UndoTreeNode::insert_with_command(&mut tree, root, cmd("", "z", 0));
    let children = tree.get_children(root);
    assert_eq!(children.len(), 1);
    let k = children[0];
    assert_eq!(tree.get_command(k), cmd("", "z", 0));
    UndoTreeNode::delete(&mut tree, k);
    assert!(tree.get_children(root).is_empty());
}

#[test]
fn screen_history_undo_swaps_insert_and_delete() {
    let mut tree = screen::UndoTree::new(screen::EditCommand::default());
    let root = tree.get_root();
    let params = vec!["1".to_string(), "hello".to_string()];
    tree.push_with_command(screen::EditCommand::new(screen::Action::Insert, params.clone()));
    let undone = tree.undo().unwrap();
    assert_eq!(undone.action, screen::Action::Delete);
    assert_eq!(undone.params, params);
    assert_eq!(tree.get_current_node(), root);
    let redone = tree.redo().unwrap();
    assert_eq!(redone.action, screen::Action::Insert);
    assert_eq!(redone.params, params);
}

#[test]
fn screen_history_undo_at_the_root_does_nothing() {
    let mut tree = screen::UndoTree::new(screen::EditCommand::default());
    let root = tree.get_root();
    let c = tree.undo().unwrap();
    assert_eq!(c.action, screen::Action::NoAction);
    assert!(c.params.is_empty());
    assert_eq!(tree.get_current_node(), root);
}

#[test]
fn screen_history_restore_undoes_to_replace() {
    let mut tree = screen::UndoTree::new(screen::EditCommand::default());
    tree.push_with_command(screen::EditCommand::new(screen::Action::Restore, vec!["a".to_string()]));
    assert_eq!(tree.undo().unwrap().action, screen::Action::Replace);
}

#[test]
fn reversing_a_command_twice_gives_it_back() {
    let c = cmd("gone", "here", 4);
    assert_eq!(c.process().unwrap().process().unwrap(), c);
}

#[test]
fn a_fresh_history_takes_a_push() {
    let mut tree = UndoTree::new(EditCommand::default());
    let root = tree.get_root();
    tree.push_with_command(cmd("a", "b", 1));
    let k = tree.get_current_node();
    assert_eq!(tree.get_children(root), vec![k]);
    assert_eq!(tree.get_parent(k), Some(root));
    assert_eq!(tree.undo().unwrap(), cmd("b", "a", 1));
    assert_eq!(tree.get_current_node(), root);
}

#[test]
fn deleting_a_node_takes_its_whole_subtree_out() {
    let mut tree = history();
    let root = tree.get_root();
    UndoTreeNode::insert_with_command(&mut tree, root, cmd("", "a", 0));
    UndoTreeNode::insert_with_command(&mut tree, root, cmd("", "b", 0));
    UndoTreeNode::insert_with_command(&mut tree, root, cmd("", "c", 0));
    let kids = tree.get_children(root);
    let (a, b, c) = (kids[0], kids[1], kids[2]);
    UndoTreeNode::insert_with_command(&mut tree, b, cmd("", "d", 0));
    let d = tree.get_children(b)[0];
    UndoTreeNode::insert_with_command(&mut tree, d, cmd("", "e", 0));
    UndoTreeNode::delete(&mut tree, b);
    assert_eq!(tree.get_children(root), vec![a, c]);
    assert!(tree.get_children(b).is_empty());
    assert!(tree.get_children(d).is_empty());
    tree.set_current_node(root);
    tree.push_with_command(cmd("x", "y", 1));
    let k = tree.get_current_node();
    assert_eq!(tree.get_children(root), vec![a, c, k]);
    UndoTreeNode::delete(&mut tree, k);
    assert_eq!(tree.get_children(root), vec![a, c]);
    assert_eq!(tree.redo_next_operation(), Err(()));
}
