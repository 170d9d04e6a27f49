//! A second history of edits, whose commands name their kind and carry their arguments as
//! strings. Nodes live in one vector; a node is named by its index there.
use vstd::pervasive::VecAdditionalExecFns;
use vstd::prelude::*;

verus! {

/// The kind of an edit.
#[derive(Debug, Clone, Copy, PartialEq, PartialOrd)]
pub enum Action {
    /// Insert text at a place.
    Insert,
    /// Delete the text between two places.
    Delete,
    /// Replace the text between two places.
    Replace,
    /// Put back replaced text.
    Restore,
    /// Move text between two places.
    Move,
    /// Any other edit.
    NoAction,
}

/// A command: the kind of edit and its arguments (places, text).
#[derive(Debug, Clone, PartialEq, PartialOrd)]
pub struct EditCommand {
    pub action: Action,
    pub params: Vec<String>,
}

/// What a command is.
pub struct CommandModel {
    pub action: Action,
    pub params: Seq<Seq<char>>,
}

pub open spec fn strings_view(v: Seq<String>) -> Seq<Seq<char>> {
    v.map_values(|s: String| s@)
}

impl View for EditCommand {
    type V = CommandModel;

    open spec fn view(&self) -> CommandModel {
        CommandModel { action: self.action, params: strings_view(self.params@) }
    }
}

/// The command that does nothing.
pub open spec fn default_model() -> CommandModel {
    CommandModel { action: Action::NoAction, params: Seq::empty() }
}

/// The command that reverses `c`: insertion and deletion swap, replacement and restoration
/// swap, a move stays a move, with the same arguments; any other command reverses to the
/// command that does nothing.
pub open spec fn reversed(c: CommandModel) -> CommandModel {
    match c.action {
        Action::Insert => CommandModel { action: Action::Delete, ..c },
        Action::Delete => CommandModel { action: Action::Insert, ..c },
        Action::Replace => CommandModel { action: Action::Restore, ..c },
        Action::Restore => CommandModel { action: Action::Replace, ..c },
        Action::Move => CommandModel { action: Action::Move, ..c },
        Action::NoAction => default_model(),
    }
}

/// The command an undo answers for `c`: as `reversed`, except that a replacement answers a
/// replacement.
pub open spec fn undone(c: CommandModel) -> CommandModel {
    match c.action {
        Action::Replace => c,
        _ => reversed(c),
    }
}

impl Default for EditCommand {
    fn default() -> (r: EditCommand)
        ensures
            r@ == default_model(),
    {
        let r = EditCommand { action: Action::NoAction, params: Vec::new() };
        assert(r@.params =~= Seq::<Seq<char>>::empty());
        r
    }
}

fn copy_strings(v: &Vec<String>) -> (r: Vec<String>)
    ensures
        strings_view(r@) == strings_view(v@),
{
    let mut r: Vec<String> = Vec::new();
    let n = v.len();
    for i in 0..n
        invariant
            n == v.len(),
            strings_view(r@) == strings_view(v@.take(i as int)),
    {
        let s = v[i].clone();
        let ghost old_r = r@;
        r.push(s);
        assert(strings_view(r@) =~= strings_view(old_r).push(v@[i as int]@));
        assert(v@.take(i + 1) =~= v@.take(i as int).push(v@[i as int]));
        assert(strings_view(v@.take(i + 1)) =~= strings_view(v@.take(i as int)).push(v@[i as int]@));
    }
    assert(v@.take(n as int) =~= v@);
    r
}

fn same_strings(a: &Vec<String>, b: &Vec<String>) -> (r: bool)
    ensures
        r == (strings_view(a@) == strings_view(b@)),
{
    if a.len() != b.len() {
        assert(strings_view(a@).len() != strings_view(b@).len());
        return false;
    }
    let n = a.len();
    for i in 0..n
        invariant
            n == a.len(),
            n == b.len(),
            forall|j: int| 0 <= j < i ==> a@[j]@ == b@[j]@,
    {
        if a[i] != b[i] {
            assert(strings_view(a@)[i as int] != strings_view(b@)[i as int]);
            return false;
        }
    }
    assert(strings_view(a@) =~= strings_view(b@));
    true
}

fn same_action(a: Action, b: Action) -> (r: bool)
    ensures
        r == (a == b),
{
    match (a, b) {
        (Action::Insert, Action::Insert) => true,
        (Action::Delete, Action::Delete) => true,
        (Action::Replace, Action::Replace) => true,
        (Action::Restore, Action::Restore) => true,
        (Action::Move, Action::Move) => true,
        (Action::NoAction, Action::NoAction) => true,
        _ => false,
    }
}

/// Whether two commands are the same command.
pub fn same_command(a: &EditCommand, b: &EditCommand) -> (r: bool)
    ensures
        r == (a@ == b@),
{
    same_action(a.action, b.action) && same_strings(&a.params, &b.params)
}

impl EditCommand {
    pub fn new(action: Action, params: Vec<String>) -> (r: EditCommand)
        ensures
            r@ == (CommandModel { action, params: strings_view(params@) }),
    {
        EditCommand { action, params }
    }

    /// The command that reverses this one.
    pub fn process(&self) -> (r: Result<EditCommand, ()>)
        ensures
            r matches Ok(c) && c@ == reversed(self@),
    {
        let res = match self.action {
            Action::Insert => EditCommand::new(Action::Delete, copy_strings(&self.params)),
            Action::Delete => EditCommand::new(Action::Insert, copy_strings(&self.params)),
            Action::Replace => EditCommand::new(Action::Restore, copy_strings(&self.params)),
            Action::Restore => EditCommand::new(Action::Replace, copy_strings(&self.params)),
            Action::Move => EditCommand::new(Action::Move, copy_strings(&self.params)),
            _ => EditCommand::default(),
        };
        Ok(res)
    }

    /// An exact copy of this command.
    pub fn duplicate(&self) -> (r: EditCommand)
        ensures
            r@ == self@,
    {
        EditCommand { action: self.action, params: copy_strings(&self.params) }
    }

    /// The kind of edit.
    pub fn action(&self) -> (r: Action)
        ensures
            r == self.action,
    {
        self.action
    }
}

/// Reversing a command twice gives it back, except for a command that does nothing, which
/// reverses to the command that does nothing without arguments.
pub proof fn law_process_twice(c: CommandModel)
    ensures
        c.action != Action::NoAction ==> reversed(reversed(c)) == c,
        c.action == Action::NoAction ==> reversed(reversed(c)) == default_model(),
{
}


/// A node of the history: the command it records and its links.
#[derive(Debug)]
pub struct UndoTreeNode {
    parent: Option<usize>,
    children: Vec<usize>,
    command: EditCommand,
    // the node's own index, once the node is in a tree
    self_pointer: Option<usize>,
    // whether the node belongs to a tree
    tree_pointer: bool,
}

/// What a node is: its links and its command.
pub struct NodeModel {
    pub parent: Option<usize>,
    pub children: Seq<usize>,
    pub command: CommandModel,
    pub tree: bool,
}

impl View for UndoTreeNode {
    type V = NodeModel;

    closed spec fn view(&self) -> NodeModel {
        NodeModel {
            parent: self.parent,
            children: self.children@,
            command: self.command@,
            tree: self.tree_pointer,
        }
    }
}

impl UndoTreeNode {
    /// A node recording `command`, in no tree yet and without a parent.
    pub fn new(command: EditCommand) -> (r: UndoTreeNode)
        ensures
            r@ == (NodeModel { parent: None, children: Seq::empty(), command: command@, tree: false }),
            r.detached(),
    {
        UndoTreeNode {
            parent: None,
            children: Vec::new(),
            command,
            self_pointer: None,
            tree_pointer: false,
        }
    }

    /// The node is in no tree.
    pub closed spec fn detached(&self) -> bool {
        self.self_pointer is None
    }

    pub fn get_command(&self) -> (r: EditCommand)
        ensures
            r@ == self@.command,
    {
        self.command.duplicate()
    }

    pub fn set_parent(&mut self, parent: usize)
        ensures
            final(self)@ == (NodeModel { parent: Some(parent), ..old(self)@ }),
            final(self).detached() == old(self).detached(),
    {
        self.parent = Some(parent);
    }

    /// Marks the node as belonging to a tree.
    pub fn set_tree_pointer(&mut self)
        ensures
            final(self)@ == (NodeModel { tree: true, ..old(self)@ }),
            final(self).detached() == old(self).detached(),
    {
        self.tree_pointer = true;
    }

    pub fn get_parent(&self) -> (r: Option<usize>)
        ensures
            r == self@.parent,
    {
        self.parent
    }
}

/// What a history is: its nodes, where it starts, where it stands, and what can be undone and
/// redone.
pub struct TreeModel {
    pub nodes: Seq<NodeModel>,
    pub root: usize,
    pub current: usize,
    pub to_undo: Seq<usize>,
    pub to_redo: Seq<usize>,
}

/// The links of one node name nodes of a history of `n` nodes.
pub open spec fn node_links_in(nd: NodeModel, n: int) -> bool {
    &&& nd.parent matches Some(p) ==> p < n
    &&& forall|j: int| 0 <= j < nd.children.len() ==> #[trigger] nd.children[j] < n
}

/// Every link of the history names a node of it.
pub open spec fn tree_wf(m: TreeModel) -> bool {
    let n = m.nodes.len();
    &&& m.root < n
    &&& m.current < n
    &&& forall|i: int| 0 <= i < m.to_undo.len() ==> #[trigger] m.to_undo[i] < n
    &&& forall|i: int| 0 <= i < m.to_redo.len() ==> #[trigger] m.to_redo[i] < n
    &&& forall|k: int| 0 <= k < n ==> node_links_in(#[trigger] m.nodes[k], n as int)
}

/// The history after a node recording `c`, marked as in the tree when `tree` says so, is
/// added as the last child of node `p`.
pub open spec fn spec_insert(m: TreeModel, p: usize, c: CommandModel, tree: bool) -> TreeModel {
    let k = m.nodes.len() as usize;
    let node = NodeModel { parent: Some(p), children: Seq::empty(), command: c, tree: tree };
    let up = NodeModel { children: m.nodes[p as int].children.push(k), ..m.nodes[p as int] };
    TreeModel { nodes: m.nodes.update(p as int, up).push(node), ..m }
}

/// The index among `s` of the first node that records `c`, or the length of `s`.
pub open spec fn first_with(nodes: Seq<NodeModel>, s: Seq<usize>, c: CommandModel, i: int) -> int
    decreases s.len() - i,
{
    if i < 0 || i >= s.len() {
        s.len() as int
    } else if nodes[s[i] as int].command == c {
        i
    } else {
        first_with(nodes, s, c, i + 1)
    }
}

/// The history after the first child of node `p` that records `c` is taken out from under it.
pub open spec fn spec_delete_with(m: TreeModel, p: usize, c: CommandModel) -> TreeModel {
    let pn = m.nodes[p as int];
    let i = first_with(m.nodes, pn.children, c, 0);
    TreeModel {
        nodes: m.nodes.update(p as int, NodeModel { children: pn.children.remove(i), ..pn }),
        ..m
    }
}

/// Whether some child of node `p` records `c`.
pub open spec fn has_child_with(m: TreeModel, p: usize, c: CommandModel) -> bool {
    exists|j: int|
        0 <= j < m.nodes[p as int].children.len() && #[trigger] m.nodes[m.nodes[p as int].children[j] as int].command == c
}

/// The history after `c` is recorded in a new node under the current one, which becomes
/// current and can be undone.
pub open spec fn spec_push(m: TreeModel, c: CommandModel) -> TreeModel {
    let k = m.nodes.len() as usize;
    TreeModel {
        current: k,
        to_undo: m.to_undo.push(k),
        ..spec_insert(m, m.current, c, m.nodes[m.current as int].tree)
    }
}

/// Undo: when the current node has a parent, it becomes redoable, the parent becomes current,
/// and the command answered is the undone command of the current node; otherwise the command
/// that does nothing.
pub open spec fn spec_undo(m: TreeModel) -> (CommandModel, TreeModel) {
    let cur = m.nodes[m.current as int];
    match cur.parent {
        Some(p) => (undone(cur.command), TreeModel { to_redo: m.to_redo.push(m.current), current: p, ..m }),
        None => (default_model(), m),
    }
}

/// Redo: the last redoable node becomes current and undoable, and answers its command.
pub open spec fn spec_redo(m: TreeModel) -> (CommandModel, TreeModel) {
    let n = m.to_redo.last();
    (
        m.nodes[n as int].command,
        TreeModel { to_redo: m.to_redo.drop_last(), current: n, to_undo: m.to_undo.push(n), ..m },
    )
}

/// The history of edits.
#[derive(Debug)]
pub struct UndoTree {
    nodes: Vec<UndoTreeNode>,
    root: usize,
    current_node: usize,
    to_undo: Vec<usize>,
    to_redo: Vec<usize>,
}

impl View for UndoTree {
    type V = TreeModel;

    closed spec fn view(&self) -> TreeModel {
        TreeModel {
            nodes: self.nodes@.map_values(|n: UndoTreeNode| n@),
            root: self.root,
            current: self.current_node,
            to_undo: self.to_undo@,
            to_redo: self.to_redo@,
        }
    }
}

proof fn lemma_wf_update(m: TreeModel, k: int, nd: NodeModel)
    requires
        tree_wf(m),
        0 <= k < m.nodes.len(),
        node_links_in(nd, m.nodes.len() as int),
    ensures
        tree_wf(TreeModel { nodes: m.nodes.update(k, nd), ..m }),
{
    let m2 = TreeModel { nodes: m.nodes.update(k, nd), ..m };
    assert forall|k2: int| 0 <= k2 < m2.nodes.len() implies node_links_in(
        #[trigger] m2.nodes[k2],
        m2.nodes.len() as int,
    ) by {
        if k2 != k {
            assert(m2.nodes[k2] == m.nodes[k2]);
        }
    }
}

impl UndoTree {
    /// The history is well formed, and each node knows its own index.
    pub closed spec fn wf(&self) -> bool {
        &&& tree_wf(self@)
        &&& forall|k: int| 0 <= k < self.nodes.len() ==> #[trigger] self.nodes@[k].self_pointer == Some(k as usize)
    }

    /// The model of a well-formed history is well formed: the laws stated over `tree_wf` hold
    /// of every history that the methods here build.
    pub proof fn lemma_model_wf(&self)
        requires
            self.wf(),
        ensures
            tree_wf(self@),
    {
    }

    /// A history whose root records `command`; the root has no parent.
    pub fn new(command: EditCommand) -> (r: UndoTree)
        ensures
            r.wf(),
            r@.nodes == seq![
                NodeModel { parent: None, children: Seq::empty(), command: command@, tree: false },
            ],
            r@.root == 0,
            r@.current == 0,
            r@.to_undo == Seq::<usize>::empty(),
            r@.to_redo == Seq::<usize>::empty(),
    {
        let mut root = UndoTreeNode::new(command);
        root.self_pointer = Some(0);
        let mut nodes: Vec<UndoTreeNode> = Vec::new();
        nodes.push(root);
        let r = UndoTree { nodes, root: 0, current_node: 0, to_undo: vec![], to_redo: vec![] };
        assert(r@.nodes =~= seq![
            NodeModel { parent: None, children: Seq::empty(), command: command@, tree: false },
        ]);
        r
    }

    pub fn get_root(&self) -> (r: usize)
        ensures
            r == self@.root,
    {
        self.root
    }

    pub fn get_current_node(&self) -> (r: usize)
        ensures
            r == self@.current,
    {
        self.current_node
    }

    pub fn set_current_node(&mut self, node: usize)
        requires
            old(self).wf(),
            node < old(self)@.nodes.len(),
        ensures
            final(self).wf(),
            final(self)@ == (TreeModel { current: node, ..old(self)@ }),
    {
        self.current_node = node;
    }

    /// The command recorded at node `node`.
    pub fn get_command(&self, node: usize) -> (r: EditCommand)
        requires
            node < self@.nodes.len(),
        ensures
            r@ == self@.nodes[node as int].command,
    {
        self.nodes[node].get_command()
    }

    /// The parent of node `node`.
    pub fn get_parent(&self, node: usize) -> (r: Option<usize>)
        requires
            node < self@.nodes.len(),
        ensures
            r == self@.nodes[node as int].parent,
    {
        self.nodes[node].get_parent()
    }

    fn take_node(&mut self, k: usize) -> (r: UndoTreeNode)
        requires
            k < old(self).nodes.len(),
        ensures
            r == old(self).nodes@[k as int],
            final(self).nodes@.len() == old(self).nodes@.len(),
            forall|i: int| 0 <= i < old(self).nodes@.len() && i != k ==> final(self).nodes@[i] == old(self).nodes@[i],
            final(self).root == old(self).root,
            final(self).current_node == old(self).current_node,
            final(self).to_undo == old(self).to_undo,
            final(self).to_redo == old(self).to_redo,
    {
        let mut n = UndoTreeNode {
            parent: None,
            children: Vec::new(),
            command: EditCommand { action: Action::NoAction, params: Vec::new() },
            self_pointer: None,
            tree_pointer: false,
        };
        self.nodes.set_and_swap(k, &mut n);
        n
    }

    fn put_node(&mut self, k: usize, n: UndoTreeNode)
        requires
            k < old(self).nodes.len(),
        ensures
            final(self).nodes@ == old(self).nodes@.update(k as int, n),
            final(self).root == old(self).root,
            final(self).current_node == old(self).current_node,
            final(self).to_undo == old(self).to_undo,
            final(self).to_redo == old(self).to_redo,
    {
        self.nodes.set(k, n);
    }

    /// Takes the redoable node that was made redoable last; one must be there.
    pub fn get_to_redo(&mut self) -> (r: Result<usize, ()>)
        requires
            old(self).wf(),
            old(self)@.to_redo.len() > 0,
        ensures
            final(self).wf(),
            r == Ok::<usize, ()>(old(self)@.to_redo.last()),
            final(self)@ == (TreeModel { to_redo: old(self)@.to_redo.drop_last(), ..old(self)@ }),
    {
        let r = self.to_redo.pop();
        proof {
            let m = self@;
            assert(m.to_redo =~= old(self)@.to_redo.drop_last());
            assert forall|i: int| 0 <= i < m.to_redo.len() implies #[trigger] m.to_redo[i] < m.nodes.len() by {
                assert(m.to_redo[i] == old(self)@.to_redo[i]);
            }
        }
        match r {
            Some(n) => Ok(n),
            None => Err(()),
        }
    }

    /// Drops the undoable node that was made undoable last, and answers the command that does
    /// nothing; one must be there.
    pub fn get_to_undo(&mut self) -> (r: Result<EditCommand, ()>)
        requires
            old(self).wf(),
            old(self)@.to_undo.len() > 0,
        ensures
            final(self).wf(),
            r matches Ok(c) && c@ == default_model(),
            final(self)@ == (TreeModel { to_undo: old(self)@.to_undo.drop_last(), ..old(self)@ }),
    {
        self.to_undo.pop();
        proof {
            let m = self@;
            assert(m.to_undo =~= old(self)@.to_undo.drop_last());
            assert forall|i: int| 0 <= i < m.to_undo.len() implies #[trigger] m.to_undo[i] < m.nodes.len() by {
                assert(m.to_undo[i] == old(self)@.to_undo[i]);
            }
        }
        Ok(EditCommand::default())
    }

    /// Adds a new node recording `command` as the last child of the current node.
    pub fn add_child_with_command(&mut self, command: EditCommand)
        requires
            old(self).wf(),
        ensures
            final(self).wf(),
            final(self)@ == spec_insert(
                old(self)@,
                old(self)@.current,
                command@,
                old(self)@.nodes[old(self)@.current as int].tree,
            ),
    {
        let cur = self.current_node;
        UndoTreeNode::insert_with_command(self, cur, command);
    }

    /// Takes the first child of the current node that records `command` out from under it.
    pub fn delete_child_with_command(&mut self, command: EditCommand)
        requires
            old(self).wf(),
            has_child_with(old(self)@, old(self)@.current, command@),
        ensures
            final(self).wf(),
            final(self)@ == spec_delete_with(old(self)@, old(self)@.current, command@),
    {
        let cur = self.current_node;
        UndoTreeNode::delete_with_command(self, cur, &command);
    }

    /// Adds the new node `node` as the last child of the current node.
    pub fn insert(&mut self, node: UndoTreeNode)
        requires
            old(self).wf(),
            node.detached(),
            node@.children.len() == 0,
        ensures
            final(self).wf(),
            final(self)@ == spec_insert(
                old(self)@,
                old(self)@.current,
                node@.command,
                old(self)@.nodes[old(self)@.current as int].tree,
            ),
    {
        let cur = self.current_node;
        UndoTreeNode::insert(self, cur, node);
    }

    /// Takes the first child of the current node that records the command of `node` out from
    /// under it.
    pub fn delete(&mut self, node: &UndoTreeNode)
        requires
            old(self).wf(),
            has_child_with(old(self)@, old(self)@.current, node@.command),
        ensures
            final(self).wf(),
            final(self)@ == spec_delete_with(old(self)@, old(self)@.current, node@.command),
    {
        let cur = self.current_node;
        UndoTreeNode::delete(self, cur, node);
    }

    /// Records `command` in a new node under the current node; it becomes current and can be
    /// undone.
    pub fn push_with_command(&mut self, command: EditCommand)
        requires
            old(self).wf(),
        ensures
            final(self).wf(),
            final(self)@ == spec_push(old(self)@, command@),
    {
        let new_node = UndoTreeNode::new(command);
        let cur = self.current_node;
        let k = UndoTreeNode::insert(self, cur, new_node);
        self.current_node = k;
        self.to_undo.push(k);
        proof {
            let m = self@;
            assert forall|i: int| 0 <= i < m.to_undo.len() implies #[trigger] m.to_undo[i] < m.nodes.len() by {
                if i < m.to_undo.len() - 1 {
                    assert(m.to_undo[i] == old(self)@.to_undo[i]);
                }
            }
        }
    }

    /// Undoes the current node: when it has a parent, makes it redoable, moves to the parent
    /// and answers the undone command; otherwise answers the command that does nothing.
    pub fn undo(&mut self) -> (r: Result<EditCommand, ()>)
        requires
            old(self).wf(),
        ensures
            final(self).wf(),
            r matches Ok(c) && (c@, final(self)@) == spec_undo(old(self)@),
    {
        let cur = self.current_node;
        proof {
            assert(self@.nodes[cur as int] == self.nodes@[cur as int]@);
            assert(node_links_in(old(self)@.nodes[cur as int], old(self)@.nodes.len() as int));
        }
        match self.nodes[cur].parent {
            Some(parent) => {
                assert(parent < self.nodes.len());
                self.to_redo.push(cur);
                self.current_node = parent;
                let command = match self.nodes[cur].command.action {
                    Action::Insert => EditCommand::new(Action::Delete, copy_strings(&self.nodes[cur].command.params)),
                    Action::Delete => EditCommand::new(Action::Insert, copy_strings(&self.nodes[cur].command.params)),
                    Action::Move => EditCommand::new(Action::Move, copy_strings(&self.nodes[cur].command.params)),
                    Action::Replace => EditCommand::new(Action::Replace, copy_strings(&self.nodes[cur].command.params)),
                    Action::Restore => EditCommand::new(Action::Replace, copy_strings(&self.nodes[cur].command.params)),
                    _ => EditCommand::default(),
                };
                proof {
                    let m = self@;
                    assert(m.nodes == old(self)@.nodes);
                    assert forall|i: int| 0 <= i < m.to_redo.len() implies #[trigger] m.to_redo[i] < m.nodes.len() by {
                        if i < m.to_redo.len() - 1 {
                            assert(m.to_redo[i] == old(self)@.to_redo[i]);
                        }
                    }
                    assert(m.root < m.nodes.len());
                    assert(m.current < m.nodes.len());
                    assert(m.to_undo == old(self)@.to_undo);
                    assert(tree_wf(m));
                }
                Ok(command)
            },
            None => Ok(EditCommand::default()),
        }
    }

    /// Redoes the redoable node made redoable last: it becomes current and undoable, and answers
    /// its command. One must be there.
    pub fn redo(&mut self) -> (r: Result<EditCommand, ()>)
        requires
            old(self).wf(),
            old(self)@.to_redo.len() > 0,
        ensures
            final(self).wf(),
            r matches Ok(c) && (c@, final(self)@) == spec_redo(old(self)@),
    {
        let redo_node = match self.get_to_redo() {
            Ok(n) => n,
            Err(_) => 0,
        };
        proof {
            let l = old(self)@.to_redo.len() - 1;
            assert(old(self)@.to_redo[l] < old(self)@.nodes.len());
        }
        self.current_node = redo_node;
        self.to_undo.push(redo_node);
        let command = self.nodes[redo_node].get_command();
        proof {
            let m = self@;
            assert forall|i: int| 0 <= i < m.to_undo.len() implies #[trigger] m.to_undo[i] < m.nodes.len() by {
                if i < m.to_undo.len() - 1 {
                    assert(m.to_undo[i] == old(self)@.to_undo[i]);
                }
            }
        }
        Ok(command)
    }
}

/// Recording a command, undoing it and redoing it: the undo answers the undone command and
/// goes back to where the history stood; the redo answers the command again and stands at the
/// recorded node once more.
pub proof fn law_undo_redo_after_push(m: TreeModel, c: CommandModel)
    requires
        tree_wf(m),
        m.nodes.len() < usize::MAX,
    ensures
        ({
            let k = m.nodes.len() as usize;
            let m1 = spec_push(m, c);
            let (u, m2) = spec_undo(m1);
            let (r, m3) = spec_redo(m2);
            &&& u == undone(c)
            &&& m2.current == m.current
            &&& r == c
            &&& m3.current == k
            &&& m3.to_redo == m.to_redo
        }),
{
    let m1 = spec_push(m, c);
    assert(m1.nodes[m.nodes.len() as int].parent == Some(m.current));
    let (_, m2) = spec_undo(m1);
    assert(m2.to_redo.drop_last() =~= m.to_redo);
}

impl UndoTreeNode {
    /// Adds the new node `node` as the last child of node `p`; it belongs to the tree when `p`
    /// does. Answers the new node's index.
    pub fn insert(tree: &mut UndoTree, p: usize, node: UndoTreeNode) -> (r: usize)
        requires
            old(tree).wf(),
            p < old(tree)@.nodes.len(),
            node.detached(),
            node@.children.len() == 0,
        ensures
            final(tree).wf(),
            r == old(tree)@.nodes.len(),
            final(tree)@ == spec_insert(old(tree)@, p, node@.command, old(tree)@.nodes[p as int].tree),
    {
        let ghost old_model = tree@;
        let k = tree.nodes.len();
        let mut node = node;
        node.parent = Some(p);
        node.self_pointer = Some(k);
        node.tree_pointer = tree.nodes[p].tree_pointer;
        let ghost new_node = node;
        tree.nodes.push(node);
        let ghost pushed = tree.nodes@;
        let mut up = tree.take_node(p);
        up.children.push(k);
        tree.put_node(p, up);
        assert(tree.nodes@ =~= pushed.update(p as int, up));
        proof {
            let sp = spec_insert(old_model, p, new_node@.command, old_model.nodes[p as int].tree);
            assert(up@ == sp.nodes[p as int]) by {
                assert(up@.children =~= sp.nodes[p as int].children);
            }
            assert(new_node@ == sp.nodes[k as int]) by {
                assert(new_node@.children =~= sp.nodes[k as int].children);
            }
            assert forall|i: int| 0 <= i < sp.nodes.len() implies tree@.nodes[i] == sp.nodes[i] by {
                if i != p && i != k {
                    assert(tree@.nodes[i] == old_model.nodes[i]);
                }
            }
            assert(tree@.nodes =~= sp.nodes);
            let m = tree@;
            assert forall|k2: int| 0 <= k2 < m.nodes.len() implies node_links_in(
                #[trigger] m.nodes[k2],
                m.nodes.len() as int,
            ) by {
                if k2 < old_model.nodes.len() && k2 != p {
                    assert(m.nodes[k2] == old_model.nodes[k2]);
                    assert(node_links_in(old_model.nodes[k2], old_model.nodes.len() as int));
                }
                if k2 == p {
                    assert(node_links_in(old_model.nodes[k2], old_model.nodes.len() as int));
                }
            }
            assert forall|i: int| 0 <= i < m.to_undo.len() implies #[trigger] m.to_undo[i] < m.nodes.len() by {
                assert(m.to_undo[i] == old_model.to_undo[i]);
            }
            assert forall|i: int| 0 <= i < m.to_redo.len() implies #[trigger] m.to_redo[i] < m.nodes.len() by {
                assert(m.to_redo[i] == old_model.to_redo[i]);
            }
        }
        k
    }

    /// Adds a new node recording `command` as the last child of node `p`.
    pub fn insert_with_command(tree: &mut UndoTree, p: usize, command: EditCommand)
        requires
            old(tree).wf(),
            p < old(tree)@.nodes.len(),
        ensures
            final(tree).wf(),
            final(tree)@ == spec_insert(old(tree)@, p, command@, old(tree)@.nodes[p as int].tree),
    {
        let node = UndoTreeNode::new(command);
        UndoTreeNode::insert(tree, p, node);
    }

    /// Takes the first child of node `p` that records `command` out from under `p`. Some
    /// child must record it.
    pub fn delete_with_command(tree: &mut UndoTree, p: usize, command: &EditCommand)
        requires
            old(tree).wf(),
            p < old(tree)@.nodes.len(),
            has_child_with(old(tree)@, p, command@),
        ensures
            final(tree).wf(),
            final(tree)@ == spec_delete_with(old(tree)@, p, command@),
    {
        let ghost m0 = tree@;
        let ghost ch = m0.nodes[p as int].children;
        proof {
            assert(node_links_in(m0.nodes[p as int], m0.nodes.len() as int));
        }
        let n = tree.nodes[p].children.len();
        let mut i: usize = 0;
        while i < n && !same_command(&tree.nodes[tree.nodes[p].children[i]].command, command)
            invariant
                tree@ == m0,
                tree.wf(),
                p < tree.nodes.len(),
                n == ch.len(),
                ch == tree.nodes@[p as int].children@,
                ch == m0.nodes[p as int].children,
                node_links_in(m0.nodes[p as int], m0.nodes.len() as int),
                tree.nodes.len() == m0.nodes.len(),
                i <= n,
                first_with(m0.nodes, ch, command@, 0) == first_with(m0.nodes, ch, command@, i as int),
                forall|j: int| 0 <= j < i ==> #[trigger] m0.nodes[ch[j] as int].command != command@,
            decreases n - i,
        {
            proof {
                assert(tree@.nodes[ch[i as int] as int] == tree.nodes@[ch[i as int] as int]@);
            }
            i = i + 1;
        }
        proof {
            if i < n {
                assert(tree@.nodes[ch[i as int] as int] == tree.nodes@[ch[i as int] as int]@);
                assert(first_with(m0.nodes, ch, command@, i as int) == i);
            }
        }
        proof {
            if i == n {
                let j = choose|j: int| 0 <= j < ch.len() && #[trigger] m0.nodes[ch[j] as int].command == command@;
                assert(m0.nodes[ch[j] as int].command != command@);
            }
        }
        let ghost old_nodes = tree.nodes@;
        let mut pn = tree.take_node(p);
        pn.children.remove(i);
        tree.put_node(p, pn);
        assert(tree.nodes@ =~= old_nodes.update(p as int, pn));
        proof {
            let sd = spec_delete_with(m0, p, command@);
            assert(pn@ == sd.nodes[p as int]) by {
                assert(pn@.children =~= sd.nodes[p as int].children);
            }
            assert(tree@.nodes =~= sd.nodes);
            let newp = sd.nodes[p as int];
            assert(node_links_in(newp, m0.nodes.len() as int)) by {
                assert forall|j: int| 0 <= j < newp.children.len() implies #[trigger] newp.children[j] < m0.nodes.len() by {
                    if j < i {
                        assert(newp.children[j] == ch[j]);
                    } else {
                        assert(newp.children[j] == ch[j + 1]);
                    }
                }
            }
            lemma_wf_update(m0, p as int, newp);
        }
    }

    /// Takes the first child of node `p` that records the command of `node` out from under
    /// `p`. Some child must record it.
    pub fn delete(tree: &mut UndoTree, p: usize, node: &UndoTreeNode)
        requires
            old(tree).wf(),
            p < old(tree)@.nodes.len(),
            has_child_with(old(tree)@, p, node@.command),
        ensures
            final(tree).wf(),
            final(tree)@ == spec_delete_with(old(tree)@, p, node@.command),
    {
        UndoTreeNode::delete_with_command(tree, p, &node.command);
    }
}

} // verus!
