use held::utils::ui::undotree::{Action, EditCommand, UndoTree};

#[test]
fn test() {
    let tree = UndoTree::new(EditCommand::default());
    let node = tree.get_root();
    let command = tree.get_command(node);
    assert_eq!(command.action, Action::NoAction);
}
