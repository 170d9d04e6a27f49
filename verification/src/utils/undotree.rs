//! The edit history of a text, kept as a tree of commands with an undo and a redo stack.
//! Nodes live in one vector; a node is named by its index there.
use vstd::pervasive::VecAdditionalExecFns;
use vstd::prelude::*;

verus! {

/// An edit, as the history records it.
#[derive(Debug, Clone, PartialEq, PartialOrd)]
pub enum Action {
    /// Text that was inserted.
    Insert(String),
    /// Text that was deleted.
    Delete(String),
    /// A move of the cursor (not used yet).
    Move,
    /// Any other edit.
    NoAction,
}

/// What an edit is: its kind and the text it carries.
pub enum ActionModel {
    Insert(Seq<char>),
    Delete(Seq<char>),
    Move,
    NoAction,
}

impl View for Action {
    type V = ActionModel;

    open spec fn view(&self) -> ActionModel {
        match self {
            Action::Insert(s) => ActionModel::Insert(s@),
            Action::Delete(s) => ActionModel::Delete(s@),
            Action::Move => ActionModel::Move,
            Action::NoAction => ActionModel::NoAction,
        }
    }
}

/// A command of the history: what it deleted, what it inserted, and on which line.
#[derive(Debug, Clone, PartialEq, PartialOrd)]
pub struct EditCommand {
    action_delete: Option<Action>,
    action_insert: Option<Action>,
    line_number: u16,
}

/// What a command is.
pub struct CommandModel {
    pub delete: Option<ActionModel>,
    pub insert: Option<ActionModel>,
    pub line_number: u16,
}

pub open spec fn option_view(a: Option<Action>) -> Option<ActionModel> {
    match a {
        Some(x) => Some(x@),
        None => None,
    }
}

impl View for EditCommand {
    type V = CommandModel;

    closed spec fn view(&self) -> CommandModel {
        CommandModel {
            delete: option_view(self.action_delete),
            insert: option_view(self.action_insert),
            line_number: self.line_number,
        }
    }
}

/// A command can be reversed when it says both what it deleted and what it inserted.
pub open spec fn reversible(c: CommandModel) -> bool {
    c.delete is Some && c.insert is Some
}

/// The text a command deleted, or nothing.
pub open spec fn deleted_text(c: CommandModel) -> Seq<char> {
    match c.delete {
        Some(ActionModel::Delete(s)) => s,
        _ => Seq::empty(),
    }
}

/// The text a command inserted, or nothing.
pub open spec fn inserted_text(c: CommandModel) -> Seq<char> {
    match c.insert {
        Some(ActionModel::Insert(s)) => s,
        _ => Seq::empty(),
    }
}

/// The command that undoes `c`: it deletes what `c` inserted and inserts what `c` deleted.
pub open spec fn reversed(c: CommandModel) -> CommandModel {
    CommandModel {
        delete: Some(ActionModel::Delete(inserted_text(c))),
        insert: Some(ActionModel::Insert(deleted_text(c))),
        line_number: c.line_number,
    }
}

impl Default for EditCommand {
    fn default() -> (r: EditCommand)
        ensures
            r@ == (CommandModel { delete: None, insert: None, line_number: 0 }),
    {
        EditCommand { action_delete: None, action_insert: None, line_number: 0 }
    }
}

fn empty_string() -> (r: String)
    ensures
        r@ == Seq::<char>::empty(),
{
    String::new()
}

impl EditCommand {
    pub fn new(action_delete: Action, action_insert: Action, line_number: u16) -> (r: EditCommand)
        ensures
            r@ == (CommandModel {
                delete: Some(action_delete@),
                insert: Some(action_insert@),
                line_number,
            }),
    {
        EditCommand {
            action_delete: Some(action_delete),
            action_insert: Some(action_insert),
            line_number,
        }
    }

    /// The command that undoes this one.
    pub fn process(&self) -> (r: Result<EditCommand, ()>)
        requires
            reversible(self@),
        ensures
            r matches Ok(c) && c@ == reversed(self@),
    {
        let mut content_to_insert = empty_string();
        let mut content_to_delete = empty_string();
        match &self.action_delete {
            Some(Action::Delete(s)) => {
                content_to_insert = s.clone();
            },
            _ => {},
        }
        match &self.action_insert {
            Some(Action::Insert(s)) => {
                content_to_delete = s.clone();
            },
            _ => {},
        }
        let action_delete = Action::Delete(content_to_delete);
        let action_insert = Action::Insert(content_to_insert);
        Ok(EditCommand::new(action_delete, action_insert, self.line_number))
    }

    /// The text this command deleted, when it records a deletion.
    pub fn get_delete_content(&self) -> (r: Option<String>)
        ensures
            match self@.delete {
                Some(ActionModel::Delete(s)) => r matches Some(t) && t@ == s,
                _ => r is None,
            },
    {
        match &self.action_delete {
            Some(Action::Delete(s)) => Some(s.clone()),
            _ => None,
        }
    }

    /// The text this command inserted, when it records an insertion.
    pub fn get_insert_content(&self) -> (r: Option<String>)
        ensures
            match self@.insert {
                Some(ActionModel::Insert(s)) => r matches Some(t) && t@ == s,
                _ => r is None,
            },
    {
        match &self.action_insert {
            Some(Action::Insert(s)) => Some(s.clone()),
            _ => None,
        }
    }

    /// An exact copy of this command.
    pub fn duplicate(&self) -> (r: EditCommand)
        ensures
            r@ == self@,
    {
        EditCommand {
            action_delete: copy_action(&self.action_delete),
            action_insert: copy_action(&self.action_insert),
            line_number: self.line_number,
        }
    }
}

fn copy_action(a: &Option<Action>) -> (r: Option<Action>)
    ensures
        option_view(r) == option_view(*a),
{
    match a {
        Some(Action::Insert(s)) => Some(Action::Insert(s.clone())),
        Some(Action::Delete(s)) => Some(Action::Delete(s.clone())),
        Some(Action::Move) => Some(Action::Move),
        Some(Action::NoAction) => Some(Action::NoAction),
        None => None,
    }
}

/// Undoing the undo gives the command back: a command that records a deletion and an
/// insertion, reversed twice, is the command itself; and the reversed command inserts what
/// the command deleted.
pub proof fn law_process_twice(c: CommandModel)
    requires
        c.delete matches Some(ActionModel::Delete(_)),
        c.insert matches Some(ActionModel::Insert(_)),
    ensures
        reversible(reversed(c)),
        reversed(reversed(c)) == c,
        inserted_text(reversed(c)) == deleted_text(c),
        deleted_text(reversed(c)) == inserted_text(c),
{
}


/// A node of the history: the command it records and its links.
#[derive(Debug)]
pub struct UndoTreeNode {
    // the node above, once the node is in a tree
    parent: Option<usize>,
    children: Vec<usize>,
    command: EditCommand,
    // the node's own index, once the node is in a tree
    self_pointer: Option<usize>,
    // whether the node belongs to a tree that accepts new children under it
    tree_pointer: bool,
    // the operation before this one
    last_operation_pointer: Option<usize>,
    // the operation after this one
    next_operation_pointer: Option<usize>,
}

/// What a node is: its links and its command.
pub struct NodeModel {
    pub parent: Option<usize>,
    pub children: Seq<usize>,
    pub command: CommandModel,
    pub tree: bool,
    pub last: Option<usize>,
    pub next: Option<usize>,
}

impl View for UndoTreeNode {
    type V = NodeModel;

    closed spec fn view(&self) -> NodeModel {
        NodeModel {
            parent: self.parent,
            children: self.children@,
            command: self.command@,
            tree: self.tree_pointer,
            last: self.last_operation_pointer,
            next: self.next_operation_pointer,
        }
    }
}

impl UndoTreeNode {
    /// A node recording `command`, in no tree yet.
    pub fn new(command: EditCommand) -> (r: UndoTreeNode)
        ensures
            r@ == (NodeModel {
                parent: None,
                children: Seq::empty(),
                command: command@,
                tree: false,
                last: None,
                next: None,
            }),
            r.detached(),
    {
        UndoTreeNode {
            parent: None,
            children: Vec::new(),
            command,
            self_pointer: None,
            tree_pointer: false,
            last_operation_pointer: None,
            next_operation_pointer: None,
        }
    }

    /// The node is in no tree.
    pub closed spec fn detached(&self) -> bool {
        self.self_pointer is None
    }

    pub fn get_command(&self) -> (r: EditCommand)
        ensures
            r@ == self@.command,
    {
        self.command.duplicate()
    }

    pub fn set_parent(&mut self, parent: usize)
        ensures
            final(self)@ == (NodeModel { parent: Some(parent), ..old(self)@ }),
            final(self).detached() == old(self).detached(),
    {
        self.parent = Some(parent);
    }

    /// Marks the node as belonging to a tree, so that children can be added under it.
    pub fn set_tree_pointer(&mut self)
        ensures
            final(self)@ == (NodeModel { tree: true, ..old(self)@ }),
            final(self).detached() == old(self).detached(),
    {
        self.tree_pointer = true;
    }

    pub fn get_parent(&self) -> (r: Option<usize>)
        ensures
            r == self@.parent,
    {
        self.parent
    }

    pub fn get_children(&self) -> (r: Vec<usize>)
        ensures
            r@ == self@.children,
    {
        let mut r: Vec<usize> = Vec::new();
        let n = self.children.len();
        for i in 0..n
            invariant
                n == self.children.len(),
                r@ == self.children@.take(i as int),
        {
            r.push(self.children[i]);
        }
        assert(r@ =~= self.children@);
        r
    }
}

/// What a history is: its nodes, where it starts, where it stands, and what can be undone and
/// redone.
pub struct TreeModel {
    pub nodes: Seq<NodeModel>,
    pub root: usize,
    pub current: usize,
    pub to_undo: Seq<usize>,
    pub to_redo: Seq<usize>,
}

/// Every link of the history names a node of it, and every node has a parent.
pub open spec fn tree_wf(m: TreeModel) -> bool {
    let n = m.nodes.len();
    &&& m.root < n
    &&& m.current < n
    &&& forall|i: int| 0 <= i < m.to_undo.len() ==> #[trigger] m.to_undo[i] < n
    &&& forall|i: int| 0 <= i < m.to_redo.len() ==> #[trigger] m.to_redo[i] < n
    &&& forall|k: int|
        0 <= k < n ==> {
            let node = #[trigger] m.nodes[k];
            &&& node.parent matches Some(p) && p < n
            &&& forall|j: int| 0 <= j < node.children.len() ==> #[trigger] node.children[j] < n
            &&& node.last matches Some(p) ==> p < n
            &&& node.next matches Some(p) ==> p < n
        }
}

/// Every child comes after its parent in the history's order of nodes: a node is always added
/// after all the nodes before it.
pub open spec fn children_after(m: TreeModel) -> bool {
    forall|k: int, j: int|
        0 <= k < m.nodes.len() && 0 <= j < m.nodes[k].children.len() ==> #[trigger] m.nodes[k].children[j] > k
}

/// The links of one node name nodes of a history of `n` nodes.
pub open spec fn node_links_in(nd: NodeModel, n: int) -> bool {
    &&& nd.parent matches Some(p) && p < n
    &&& forall|j: int| 0 <= j < nd.children.len() ==> #[trigger] nd.children[j] < n
    &&& nd.last matches Some(p) ==> p < n
    &&& nd.next matches Some(p) ==> p < n
}

proof fn lemma_wf_update(m: TreeModel, k: int, nd: NodeModel)
    requires
        tree_wf(m),
        0 <= k < m.nodes.len(),
        node_links_in(nd, m.nodes.len() as int),
    ensures
        tree_wf(TreeModel { nodes: m.nodes.update(k, nd), ..m }),
{
    let m2 = TreeModel { nodes: m.nodes.update(k, nd), ..m };
    assert forall|k2: int| 0 <= k2 < m2.nodes.len() implies {
        let node = #[trigger] m2.nodes[k2];
        &&& node.parent matches Some(p) && p < m2.nodes.len()
        &&& forall|j: int| 0 <= j < node.children.len() ==> #[trigger] node.children[j] < m2.nodes.len()
        &&& node.last matches Some(p) ==> p < m2.nodes.len()
        &&& node.next matches Some(p) ==> p < m2.nodes.len()
    } by {
        if k2 != k {
            assert(m2.nodes[k2] == m.nodes[k2]);
        }
    }
}

/// The history after a node recording `c` is added under node `p`: the new node is the last
/// child of `p` and the operation after it, and `p` the operation before the new node.
pub open spec fn spec_insert(m: TreeModel, p: usize, c: CommandModel) -> TreeModel {
    let k = m.nodes.len() as usize;
    let node = NodeModel {
        parent: Some(p),
        children: Seq::empty(),
        command: c,
        tree: m.nodes[p as int].tree,
        last: Some(p),
        next: None,
    };
    let up = NodeModel {
        children: m.nodes[p as int].children.push(k),
        next: Some(k),
        ..m.nodes[p as int]
    };
    TreeModel { nodes: m.nodes.update(p as int, up).push(node), ..m }
}

/// The history after a command `c` is recorded: a new node under the current one, which
/// becomes current and can be undone.
pub open spec fn spec_push(m: TreeModel, c: CommandModel) -> TreeModel {
    let k = m.nodes.len() as usize;
    TreeModel { current: k, to_undo: m.to_undo.push(k), ..spec_insert(m, m.current, c) }
}

/// Undo: the last node that can be undone answers its reversed command; the current node can
/// then be redone, and its parent becomes current. With nothing to undo, an error.
pub open spec fn spec_undo(m: TreeModel) -> (Result<CommandModel, ()>, TreeModel) {
    if m.to_undo.len() == 0 {
        (Err(()), m)
    } else {
        let n = m.to_undo.last();
        let p = m.nodes[m.current as int].parent.unwrap();
        (
            Ok(reversed(m.nodes[n as int].command)),
            TreeModel {
                to_undo: m.to_undo.drop_last(),
                to_redo: m.to_redo.push(m.current),
                current: p,
                ..m
            },
        )
    }
}

/// Redo: the last node that can be redone answers its command; the first child of the current
/// node, when there is one, becomes current and can be undone. With nothing to redo, an error.
pub open spec fn spec_redo(m: TreeModel) -> (Result<CommandModel, ()>, TreeModel) {
    if m.to_redo.len() == 0 {
        (Err(()), m)
    } else {
        let n = m.to_redo.last();
        let cur = m.nodes[m.current as int];
        let m1 = TreeModel { to_redo: m.to_redo.drop_last(), ..m };
        (
            Ok(m.nodes[n as int].command),
            if cur.children.len() > 0 {
                TreeModel { current: cur.children[0], to_undo: m.to_undo.push(cur.children[0]), ..m1 }
            } else {
                m1
            },
        )
    }
}

/// Undo along the chain of operations: the current node answers its reversed command and the
/// operation before it becomes current, keeping the current node as the operation after it.
/// Without an operation before, an error.
pub open spec fn spec_undo_last(m: TreeModel) -> (Result<CommandModel, ()>, TreeModel) {
    let cur = m.nodes[m.current as int];
    match cur.last {
        Some(p) => (
            Ok(reversed(cur.command)),
            TreeModel {
                nodes: m.nodes.update(p as int, NodeModel { next: Some(m.current), ..m.nodes[p as int] }),
                current: p,
                ..m
            },
        ),
        None => (Err(()), m),
    }
}

/// Redo along the chain of operations: the operation after the current node becomes current
/// and answers its command, the edit redone. Without an operation after, an error.
pub open spec fn spec_redo_next(m: TreeModel) -> (Result<CommandModel, ()>, TreeModel) {
    let cur = m.nodes[m.current as int];
    match cur.next {
        Some(n) => (Ok(m.nodes[n as int].command), TreeModel { current: n, ..m }),
        None => (Err(()), m),
    }
}

/// Whether a node is another one than `k`.
pub open spec fn other_than(k: usize) -> spec_fn(usize) -> bool {
    |c: usize| c != k
}

/// The history after node `k` is taken out from under its parent: the parent's children keep
/// their order without it, and the parent forgets it as the operation after it.
pub open spec fn spec_unlink(m: TreeModel, k: usize) -> TreeModel {
    let p = m.nodes[k as int].parent.unwrap();
    let pn = m.nodes[p as int];
    let up = NodeModel {
        children: pn.children.filter(other_than(k)),
        next: if pn.next == Some(k) { None } else { pn.next },
        ..pn
    };
    TreeModel { nodes: m.nodes.update(p as int, up), ..m }
}

/// The history after the subtrees of the nodes `cs`, children of node `k`, are deleted one
/// after the other, each as `spec_delete` deletes a node; `n` is the number of nodes. A child
/// always comes after its parent (`children_after` holds of every history built here), so the
/// deletion goes down the tree and every child in `cs` is deleted.
pub open spec fn delete_subtrees(m: TreeModel, k: usize, cs: Seq<usize>, n: nat) -> TreeModel
    decreases (n - k) as nat, cs.len(),
{
    if cs.len() == 0 {
        m
    } else {
        let c = cs[0];
        let m1 = if k < c && c < n {
            spec_unlink(delete_subtrees(m, c, m.nodes[c as int].children, n), c)
        } else {
            m
        };
        delete_subtrees(m1, k, cs.drop_first(), n)
    }
}

/// The history after node `k` is deleted with all its descendants: the subtree of each child
/// is deleted, children first, and then `k` is taken out from under its parent (see
/// `spec_unlink`).
pub open spec fn spec_delete(m: TreeModel, k: usize) -> TreeModel {
    spec_unlink(delete_subtrees(m, k, m.nodes[k as int].children, m.nodes.len()), k)
}

/// Every child of every node names that node as its parent. Every history built by pushes and
/// inserts is so; `node_set_parent` can make it otherwise.
pub open spec fn parents_match(m: TreeModel) -> bool {
    forall|d: int, j: int|
        0 <= d < m.nodes.len() && 0 <= j < m.nodes[d].children.len() ==> {
            let c = #[trigger] m.nodes[d].children[j];
            &&& c < m.nodes.len()
            &&& m.nodes[c as int].parent == Some(d as usize)
        }
}

/// Taking a node out from under its parent changes no parent and keeps children naming their
/// parents.
proof fn lemma_unlink_keeps(m: TreeModel, k: usize)
    requires
        parents_match(m),
        k < m.nodes.len(),
        m.nodes[k as int].parent matches Some(p) && p < m.nodes.len(),
    ensures
        parents_match(spec_unlink(m, k)),
        spec_unlink(m, k).nodes.len() == m.nodes.len(),
        forall|d: int| 0 <= d < m.nodes.len() ==> #[trigger] spec_unlink(m, k).nodes[d].parent == m.nodes[d].parent,
{
    let r = spec_unlink(m, k);
    let p = m.nodes[k as int].parent.unwrap();
    let cs = m.nodes[p as int].children;
    assert forall|d: int, j: int|
        0 <= d < r.nodes.len() && 0 <= j < r.nodes[d].children.len() implies {
            let c = #[trigger] r.nodes[d].children[j];
            &&& c < r.nodes.len()
            &&& r.nodes[c as int].parent == Some(d as usize)
        } by {
        if d != p {
            assert(r.nodes[d] == m.nodes[d]);
        } else {
            cs.lemma_filter_pred(other_than(k), j);
            let x = r.nodes[d].children[j];
            assert(cs.filter(other_than(k)).contains(x));
            cs.lemma_filter_contains_rev(other_than(k), x);
            let jj = choose|jj: int| 0 <= jj < cs.len() && cs[jj] == x;
            assert(m.nodes[d].children[jj] == x);
        }
    }
}

/// Deleting the subtrees of children of node `k` changes no parent, no node before `k`, and
/// keeps children naming their parents.
proof fn lemma_subtrees_keep(m: TreeModel, k: usize, cs: Seq<usize>, n: nat)
    requires
        parents_match(m),
        n == m.nodes.len(),
        k < n,
        forall|j: int| 0 <= j < cs.len() && k < #[trigger] cs[j] < n ==> m.nodes[cs[j] as int].parent == Some(k),
    ensures
        ({
            let r = delete_subtrees(m, k, cs, n);
            &&& parents_match(r)
            &&& r.nodes.len() == n
            &&& forall|d: int| 0 <= d < n ==> #[trigger] r.nodes[d].parent == m.nodes[d].parent
            &&& forall|d: int| 0 <= d < k ==> #[trigger] r.nodes[d] == m.nodes[d]
        }),
    decreases (n - k) as nat, cs.len(),
{
    if cs.len() > 0 {
        let c = cs[0];
        let m1 = if k < c && c < n {
            spec_unlink(delete_subtrees(m, c, m.nodes[c as int].children, n), c)
        } else {
            m
        };
        if k < c && c < n {
            let ch = m.nodes[c as int].children;
            assert forall|j: int| 0 <= j < ch.len() && c < #[trigger] ch[j] < n implies m.nodes[ch[j] as int].parent == Some(c) by {
                assert(m.nodes[c as int].children[j] == ch[j]);
            }
            lemma_subtrees_keep(m, c, ch, n);
            let r0 = delete_subtrees(m, c, ch, n);
            assert(r0.nodes[c as int].parent == m.nodes[c as int].parent);
            lemma_unlink_keeps(r0, c);
        }
        let rest = cs.drop_first();
        assert forall|j: int| 0 <= j < rest.len() && k < #[trigger] rest[j] < n implies m1.nodes[rest[j] as int].parent == Some(k) by {
            assert(rest[j] == cs[j + 1]);
        }
        lemma_subtrees_keep(m1, k, rest, n);
    }
}

/// Deleting node `k`, a child of `p`, takes its whole subtree out from under `p`: `p`'s other
/// children keep their order, `p` forgets `k` as the operation after it, and nothing else of
/// `p` changes. This holds of every history whose children name their parents.
pub proof fn law_delete_leaves_parent(m: TreeModel, k: usize, p: usize)
    requires
        tree_wf(m),
        children_after(m),
        parents_match(m),
        k < m.nodes.len(),
        m.nodes[k as int].parent == Some(p),
        m.nodes[p as int].children.contains(k),
    ensures
        spec_delete(m, k).nodes[p as int] == (NodeModel {
            children: m.nodes[p as int].children.filter(other_than(k)),
            next: if m.nodes[p as int].next == Some(k) { None } else { m.nodes[p as int].next },
            ..m.nodes[p as int]
        }),
{
    let n = m.nodes.len();
    let j = choose|j: int| 0 <= j < m.nodes[p as int].children.len() && m.nodes[p as int].children[j] == k;
    assert(m.nodes[p as int].children[j] > p);
    let ch = m.nodes[k as int].children;
    assert forall|i: int| 0 <= i < ch.len() && k < #[trigger] ch[i] < n implies m.nodes[ch[i] as int].parent == Some(k) by {
        assert(m.nodes[k as int].children[i] == ch[i]);
    }
    lemma_subtrees_keep(m, k, ch, n as nat);
}

/// The history of edits: a tree of commands, the node that stands for the present text, and
/// the stacks of nodes to undo and to redo.
#[derive(Debug)]
pub struct UndoTree {
    nodes: Vec<UndoTreeNode>,
    root: usize,
    current_node: usize,
    to_undo: Vec<usize>,
    to_redo: Vec<usize>,
}

impl View for UndoTree {
    type V = TreeModel;

    closed spec fn view(&self) -> TreeModel {
        TreeModel {
            nodes: self.nodes@.map_values(|n: UndoTreeNode| n@),
            root: self.root,
            current: self.current_node,
            to_undo: self.to_undo@,
            to_redo: self.to_redo@,
        }
    }
}

impl UndoTree {
    /// The history is well formed, and each node knows its own index.
    pub closed spec fn wf(&self) -> bool {
        &&& tree_wf(self@)
        &&& children_after(self@)
        &&& forall|k: int| 0 <= k < self.nodes.len() ==> #[trigger] self.nodes@[k].self_pointer == Some(k as usize)
    }

    /// The model of a well-formed history is well formed: the laws stated over `tree_wf` hold
    /// of every history that the methods here build.
    pub proof fn lemma_model_wf(&self)
        requires
            self.wf(),
        ensures
            tree_wf(self@),
    {
    }

    /// A history whose root records `command`; the root is its own parent and belongs to the
    /// tree, so that the first command can be pushed under it.
    pub fn new(command: EditCommand) -> (r: UndoTree)
        ensures
            r.wf(),
            r@.nodes == seq![
                NodeModel {
                    parent: Some(0usize),
                    children: Seq::empty(),
                    command: command@,
                    tree: true,
                    last: None,
                    next: None,
                },
            ],
            r@.root == 0,
            r@.current == 0,
            r@.to_undo == Seq::<usize>::empty(),
            r@.to_redo == Seq::<usize>::empty(),
    {
        let mut root = UndoTreeNode::new(command);
        root.self_pointer = Some(0);
        root.parent = Some(0);
        root.tree_pointer = true;
        let mut nodes: Vec<UndoTreeNode> = Vec::new();
        nodes.push(root);
        let r = UndoTree { nodes, root: 0, current_node: 0, to_undo: vec![], to_redo: vec![] };
        assert(r@.nodes =~= seq![
            NodeModel {
                parent: Some(0usize),
                children: Seq::empty(),
                command: command@,
                tree: true,
                last: None,
                next: None,
            },
        ]);
        r
    }

    pub fn get_root(&self) -> (r: usize)
        ensures
            r == self@.root,
    {
        self.root
    }

    pub fn get_current_node(&self) -> (r: usize)
        ensures
            r == self@.current,
    {
        self.current_node
    }

    pub fn set_current_node(&mut self, node: usize)
        requires
            old(self).wf(),
            node < old(self)@.nodes.len(),
        ensures
            final(self).wf(),
            final(self)@ == (TreeModel { current: node, ..old(self)@ }),
    {
        self.current_node = node;
    }

    /// The command recorded at node `node`.
    pub fn get_command(&self, node: usize) -> (r: EditCommand)
        requires
            node < self@.nodes.len(),
        ensures
            r@ == self@.nodes[node as int].command,
    {
        self.nodes[node].get_command()
    }

    /// The parent of node `node`.
    pub fn get_parent(&self, node: usize) -> (r: Option<usize>)
        requires
            node < self@.nodes.len(),
        ensures
            r == self@.nodes[node as int].parent,
    {
        self.nodes[node].get_parent()
    }

    /// The children of node `node`.
    pub fn get_children(&self, node: usize) -> (r: Vec<usize>)
        requires
            node < self@.nodes.len(),
        ensures
            r@ == self@.nodes[node as int].children,
    {
        self.nodes[node].get_children()
    }

    /// Marks node `node` as belonging to this tree, so that children can be added under it.
    pub fn set_tree_pointer(&mut self, node: usize)
        requires
            old(self).wf(),
            node < old(self)@.nodes.len(),
        ensures
            final(self).wf(),
            final(self)@ == (TreeModel {
                nodes: old(self)@.nodes.update(
                    node as int,
                    NodeModel { tree: true, ..old(self)@.nodes[node as int] },
                ),
                ..old(self)@
            }),
    {
        let ghost old_nodes = self.nodes@;
        let mut n = self.take_node(node);
        n.tree_pointer = true;
        self.put_node(node, n);
        assert(self.nodes@ =~= old_nodes.update(node as int, n));
        assert(self@.nodes =~= old(self)@.nodes.update(
            node as int,
            NodeModel { tree: true, ..old(self)@.nodes[node as int] },
        ));
    }

    /// Takes node `k` out of the vector, leaving an empty node in its place.
    fn take_node(&mut self, k: usize) -> (r: UndoTreeNode)
        requires
            k < old(self).nodes.len(),
        ensures
            r == old(self).nodes@[k as int],
            final(self).nodes@.len() == old(self).nodes@.len(),
            forall|i: int| 0 <= i < old(self).nodes@.len() && i != k ==> final(self).nodes@[i] == old(self).nodes@[i],
            final(self).root == old(self).root,
            final(self).current_node == old(self).current_node,
            final(self).to_undo == old(self).to_undo,
            final(self).to_redo == old(self).to_redo,
    {
        let mut n = UndoTreeNode {
            parent: None,
            children: Vec::new(),
            command: EditCommand { action_delete: None, action_insert: None, line_number: 0 },
            self_pointer: None,
            tree_pointer: false,
            last_operation_pointer: None,
            next_operation_pointer: None,
        };
        self.nodes.set_and_swap(k, &mut n);
        n
    }

    /// Puts node `n` back at index `k`.
    fn put_node(&mut self, k: usize, n: UndoTreeNode)
        requires
            k < old(self).nodes.len(),
        ensures
            final(self).nodes@ == old(self).nodes@.update(k as int, n),
            final(self).root == old(self).root,
            final(self).current_node == old(self).current_node,
            final(self).to_undo == old(self).to_undo,
            final(self).to_redo == old(self).to_redo,
    {
        self.nodes.set(k, n);
    }

    /// Points node `node` at `parent` as its parent.
    pub fn node_set_parent(&mut self, node: usize, parent: usize)
        requires
            old(self).wf(),
            node < old(self)@.nodes.len(),
            parent < old(self)@.nodes.len(),
        ensures
            final(self).wf(),
            final(self)@ == (TreeModel {
                nodes: old(self)@.nodes.update(
                    node as int,
                    NodeModel { parent: Some(parent), ..old(self)@.nodes[node as int] },
                ),
                ..old(self)@
            }),
    {
        let ghost old_nodes = self.nodes@;
        let mut n = self.take_node(node);
        n.parent = Some(parent);
        self.put_node(node, n);
        assert(self.nodes@ =~= old_nodes.update(node as int, n));
        assert(self@.nodes =~= old(self)@.nodes.update(
            node as int,
            NodeModel { parent: Some(parent), ..old(self)@.nodes[node as int] },
        ));
        proof {
            assert(node_links_in(old(self)@.nodes[node as int], old(self)@.nodes.len() as int));
            lemma_wf_update(
                old(self)@,
                node as int,
                NodeModel { parent: Some(parent), ..old(self)@.nodes[node as int] },
            );
        }
    }

    /// Records the new node `new_node` under the current node; it becomes current and can be
    /// undone. Only a node that belongs to the tree takes children.
    pub fn push(&mut self, new_node: UndoTreeNode)
        requires
            old(self).wf(),
            old(self)@.nodes[old(self)@.current as int].tree,
            new_node.detached(),
            new_node@.children.len() == 0,
            new_node@.next is None,
        ensures
            final(self).wf(),
            final(self)@ == spec_push(old(self)@, new_node@.command),
    {
        let cur = self.current_node;
        let k = UndoTreeNode::insert(self, cur, new_node);
        self.current_node = k;
        self.to_undo.push(k);
        proof {
            let m = self@;
            assert forall|i: int| 0 <= i < m.to_undo.len() implies #[trigger] m.to_undo[i] < m.nodes.len() by {
                if i < m.to_undo.len() - 1 {
                    assert(m.to_undo[i] == old(self)@.to_undo[i]);
                }
            }
        }
    }

    /// Records `command` in a new node under the current node; it becomes current and can be
    /// undone.
    pub fn push_with_command(&mut self, command: EditCommand)
        requires
            old(self).wf(),
            old(self)@.nodes[old(self)@.current as int].tree,
        ensures
            final(self).wf(),
            final(self)@ == spec_push(old(self)@, command@),
    {
        let new_node = UndoTreeNode::new(command);
        self.push(new_node);
    }

    /// Undoes the last undoable node: answers its reversed command, makes the current node
    /// redoable and moves to its parent. An error when there is nothing to undo.
    pub fn undo(&mut self) -> (r: Result<EditCommand, ()>)
        requires
            old(self).wf(),
            old(self)@.to_undo.len() > 0 ==> reversible(
                old(self)@.nodes[old(self)@.to_undo.last() as int].command,
            ),
        ensures
            final(self).wf(),
            (result_view(r), final(self)@) == spec_undo(old(self)@),
    {
        match self.to_undo.pop() {
            Some(n) => {
                let command = self.nodes[n].command.process();
                let cur = self.current_node;
                proof {
                    assert(self@.nodes[cur as int] == self.nodes@[cur as int]@);
                    assert(node_links_in(old(self)@.nodes[cur as int], old(self)@.nodes.len() as int));
                }
                let parent = match self.nodes[cur].parent {
                    Some(p) => p,
                    None => cur,
                };
                self.to_redo.push(cur);
                self.current_node = parent;
                proof {
                    let m = self@;
                    assert(m.to_undo =~= old(self)@.to_undo.drop_last());
                    assert forall|i: int| 0 <= i < m.to_undo.len() implies #[trigger] m.to_undo[i] < m.nodes.len() by {
                        assert(m.to_undo[i] == old(self)@.to_undo[i]);
                    }
                    assert forall|i: int| 0 <= i < m.to_redo.len() implies #[trigger] m.to_redo[i] < m.nodes.len() by {
                        if i < m.to_redo.len() - 1 {
                            assert(m.to_redo[i] == old(self)@.to_redo[i]);
                        }
                    }
                }
                command
            },
            None => Err(()),
        }
    }

    /// Redoes the last redoable node: answers its command and moves to the first child of the
    /// current node, when there is one, which can then be undone. An error when there is
    /// nothing to redo.
    pub fn redo(&mut self) -> (r: Result<EditCommand, ()>)
        requires
            old(self).wf(),
        ensures
            final(self).wf(),
            (result_view(r), final(self)@) == spec_redo(old(self)@),
    {
        match self.to_redo.pop() {
            Some(n) => {
                proof {
                    let l = old(self)@.to_redo.len() - 1;
                    assert(old(self)@.to_redo[l] < old(self)@.nodes.len());
                }
                let command = self.nodes[n].get_command();
                let cur = self.current_node;
                if self.nodes[cur].children.len() > 0 {
                    let child = self.nodes[cur].children[0];
                    self.current_node = child;
                    self.to_undo.push(child);
                }
                proof {
                    let m = self@;
                    let cn = old(self)@.nodes[cur as int];
                    if cn.children.len() > 0 {
                        assert(cn.children[0] < m.nodes.len());
                    }
                    assert(m.to_redo =~= old(self)@.to_redo.drop_last());
                    assert forall|i: int| 0 <= i < m.to_redo.len() implies #[trigger] m.to_redo[i] < m.nodes.len() by {
                        assert(m.to_redo[i] == old(self)@.to_redo[i]);
                    }
                    assert forall|i: int| 0 <= i < m.to_undo.len() implies #[trigger] m.to_undo[i] < m.nodes.len() by {
                        if i < old(self)@.to_undo.len() {
                            assert(m.to_undo[i] == old(self)@.to_undo[i]);
                        }
                    }
                    let cn = old(self)@.nodes[cur as int];
                    if cn.children.len() > 0 {
                        assert(cn.children[0] < m.nodes.len());
                    }
                }
                Ok(command)
            },
            None => Err(()),
        }
    }

    /// Undoes along the chain of operations: answers the current node's reversed command and
    /// moves to the operation before it, which keeps the current node as the operation after
    /// it. An error when there is no operation before.
    pub fn undo_last_operation(&mut self) -> (r: Result<EditCommand, ()>)
        requires
            old(self).wf(),
            old(self)@.nodes[old(self)@.current as int].last is Some ==> reversible(
                old(self)@.nodes[old(self)@.current as int].command,
            ),
        ensures
            final(self).wf(),
            (result_view(r), final(self)@) == spec_undo_last(old(self)@),
    {
        let cur = self.current_node;
        match self.nodes[cur].last_operation_pointer {
            Some(node) => {
                let command = self.nodes[cur].get_command();
                let ghost old_nodes = self.nodes@;
                let mut pn = self.take_node(node);
                pn.next_operation_pointer = Some(cur);
                self.put_node(node, pn);
                assert(self.nodes@ =~= old_nodes.update(node as int, pn));
                self.current_node = node;
                proof {
                    let m = self@;
                    assert(m.nodes =~= old(self)@.nodes.update(
                        node as int,
                        NodeModel { next: Some(cur), ..old(self)@.nodes[node as int] },
                    ));
                    assert forall|k2: int| 0 <= k2 < m.nodes.len() implies {
                        let nd = #[trigger] m.nodes[k2];
                        &&& nd.parent matches Some(q) && q < m.nodes.len()
                        &&& forall|j: int| 0 <= j < nd.children.len() ==> #[trigger] nd.children[j] < m.nodes.len()
                        &&& nd.last matches Some(q) ==> q < m.nodes.len()
                        &&& nd.next matches Some(q) ==> q < m.nodes.len()
                    } by {
                        assert(old(self)@.nodes[k2] == old(self)@.nodes[k2]);
                    }
                }
                command.process()
            },
            None => Err(()),
        }
    }

    /// Redoes along the chain of operations: moves to the operation after the current node and
    /// answers its command. An error when there is no operation after.
    pub fn redo_next_operation(&mut self) -> (r: Result<EditCommand, ()>)
        requires
            old(self).wf(),
        ensures
            final(self).wf(),
            (result_view(r), final(self)@) == spec_redo_next(old(self)@),
    {
        let cur = self.current_node;
        match self.nodes[cur].next_operation_pointer {
            Some(node) => {
                proof {
                    assert(self@.nodes[cur as int] == self.nodes@[cur as int]@);
                    assert(node_links_in(old(self)@.nodes[cur as int], old(self)@.nodes.len() as int));
                    assert(node < self.nodes.len());
                    assert(self@.nodes[node as int] == self.nodes@[node as int]@);
                }
                let command = self.nodes[node].get_command();
                self.current_node = node;
                proof {
                    let m = self@;
                    assert(m.nodes == old(self)@.nodes);
                    assert(m.to_undo == old(self)@.to_undo);
                    assert(m.to_redo == old(self)@.to_redo);
                    assert(m.current < m.nodes.len());
                }
                Ok(command)
            },
            None => Err(()),
        }
    }
}

/// A result of the history, seen through the commands' views.
pub open spec fn result_view(r: Result<EditCommand, ()>) -> Result<CommandModel, ()> {
    match r {
        Ok(c) => Ok(c@),
        Err(e) => Err(e),
    }
}


/// Recording a command and undoing it answers the reversed command and goes back to where the
/// history stood, with the new node waiting to be redone.
pub proof fn law_undo_after_push(m: TreeModel, c: CommandModel)
    requires
        tree_wf(m),
        reversible(c),
        m.nodes.len() < usize::MAX,
    ensures
        ({
            let k = m.nodes.len() as usize;
            let (r, m2) = spec_undo(spec_push(m, c));
            &&& r == Ok::<CommandModel, ()>(reversed(c))
            &&& m2.current == m.current
            &&& m2.to_undo == m.to_undo
            &&& m2.to_redo == m.to_redo.push(k)
        }),
{
    let m1 = spec_push(m, c);
    assert(m1.to_undo.drop_last() =~= m.to_undo);
    assert(m1.nodes[m.nodes.len() as int].parent == Some(m.current));
}

/// Redoing what was just undone answers the recorded command again; when the node the command
/// was recorded under had no other children, the history stands again at the recorded node,
/// with the same nodes to undo and to redo as right after recording it.
pub proof fn law_redo_after_undo(m: TreeModel, c: CommandModel)
    requires
        tree_wf(m),
        reversible(c),
        m.nodes.len() < usize::MAX,
    ensures
        ({
            let k = m.nodes.len() as usize;
            let m1 = spec_push(m, c);
            let (_, m2) = spec_undo(m1);
            let (r, m3) = spec_redo(m2);
            &&& r == Ok::<CommandModel, ()>(c)
            &&& m.nodes[m.current as int].children.len() == 0 ==> {
                &&& m3.current == k
                &&& m3.to_undo == m1.to_undo
                &&& m3.to_redo == m.to_redo
            }
        }),
{
    let k = m.nodes.len() as usize;
    let m1 = spec_push(m, c);
    let (_, m2) = spec_undo(m1);
    assert(m1.to_undo.drop_last() =~= m.to_undo);
    assert(m1.nodes[m.nodes.len() as int].parent == Some(m.current));
    assert(m2.to_redo.drop_last() =~= m.to_redo);
    assert(m2.current == m.current);
    assert(m2.nodes[m.current as int].children =~= m.nodes[m.current as int].children.push(k));
}

/// Recording a command and undoing it along the chain of operations answers the reversed
/// command and goes back to the node it was recorded under; redoing along the chain then
/// answers the recorded command and stands at the recorded node again.
pub proof fn law_undo_last_after_push(m: TreeModel, c: CommandModel)
    requires
        tree_wf(m),
        reversible(c),
        m.nodes.len() < usize::MAX,
    ensures
        ({
            let k = m.nodes.len() as usize;
            let m1 = spec_push(m, c);
            let (r, m2) = spec_undo_last(m1);
            let (r3, m3) = spec_redo_next(m2);
            &&& r == Ok::<CommandModel, ()>(reversed(c))
            &&& m2.current == m.current
            &&& r3 == Ok::<CommandModel, ()>(c)
            &&& m3.current == k
        }),
{
}

impl UndoTreeNode {
    /// Adds the new node `node` under node `p`, as its last child and as the operation after
    /// it, and answers the new node's index. Only a node that belongs to the tree takes
    /// children.
    pub fn insert(tree: &mut UndoTree, p: usize, node: UndoTreeNode) -> (r: usize)
        requires
            old(tree).wf(),
            p < old(tree)@.nodes.len(),
            old(tree)@.nodes[p as int].tree,
            node.detached(),
            node@.children.len() == 0,
            node@.next is None,
        ensures
            final(tree).wf(),
            r == old(tree)@.nodes.len(),
            final(tree)@ == spec_insert(old(tree)@, p, node@.command),
    {
        let ghost old_model = tree@;
        let k = tree.nodes.len();
        let mut node = node;
        node.parent = Some(p);
        node.self_pointer = Some(k);
        node.tree_pointer = tree.nodes[p].tree_pointer;
        node.last_operation_pointer = Some(p);
        let ghost new_node = node;
        tree.nodes.push(node);
        let ghost pushed = tree.nodes@;
        let mut up = tree.take_node(p);
        up.children.push(k);
        up.next_operation_pointer = Some(k);
        tree.put_node(p, up);
        assert(tree.nodes@ =~= pushed.update(p as int, up));
        proof {
            let sp = spec_insert(old_model, p, new_node@.command).nodes;
            assert(tree@.nodes.len() == sp.len());
            assert(up@ == sp[p as int]) by {
                assert(up@.children =~= sp[p as int].children);
            }
            assert(new_node@ == sp[k as int]) by {
                assert(new_node@.children =~= sp[k as int].children);
            }
            assert forall|i: int| 0 <= i < sp.len() implies tree@.nodes[i] == sp[i] by {
                if i != p && i != k {
                    assert(tree@.nodes[i] == old_model.nodes[i]);
                }
            }
            assert(tree@.nodes =~= sp);
        }
        proof {
            let m = tree@;
            assert forall|k2: int| 0 <= k2 < m.nodes.len() implies {
                let nd = #[trigger] m.nodes[k2];
                &&& nd.parent matches Some(q) && q < m.nodes.len()
                &&& forall|j: int| 0 <= j < nd.children.len() ==> #[trigger] nd.children[j] < m.nodes.len()
                &&& nd.last matches Some(q) ==> q < m.nodes.len()
                &&& nd.next matches Some(q) ==> q < m.nodes.len()
            } by {
                if k2 < old_model.nodes.len() && k2 != p {
                    assert(m.nodes[k2] == old_model.nodes[k2]);
                }
            }
            assert forall|i: int| 0 <= i < m.to_undo.len() implies #[trigger] m.to_undo[i] < m.nodes.len() by {
                assert(m.to_undo[i] == old_model.to_undo[i]);
            }
            assert forall|i: int| 0 <= i < m.to_redo.len() implies #[trigger] m.to_redo[i] < m.nodes.len() by {
                assert(m.to_redo[i] == old_model.to_redo[i]);
            }
        }
        k
    }

    /// Adds a new node recording `command` under node `p`, as its last child and as the
    /// operation after it.
    pub fn insert_with_command(tree: &mut UndoTree, p: usize, command: EditCommand)
        requires
            old(tree).wf(),
            p < old(tree)@.nodes.len(),
            old(tree)@.nodes[p as int].tree,
        ensures
            final(tree).wf(),
            final(tree)@ == spec_insert(old(tree)@, p, command@),
    {
        let node = UndoTreeNode::new(command);
        UndoTreeNode::insert(tree, p, node);
    }

    /// Deletes node `k` with all its descendants (see `spec_delete`): the whole subtree leaves
    /// the children of `k`'s parent, whose other children keep their order, and the parent
    /// forgets `k` as the operation after it. The root, its own parent, cannot be deleted.
    pub fn delete(tree: &mut UndoTree, k: usize)
        requires
            old(tree).wf(),
            k < old(tree)@.nodes.len(),
            old(tree)@.nodes[k as int].parent != Some(k),
        ensures
            final(tree).wf(),
            final(tree)@ == spec_delete(old(tree)@, k),
    {
        let cs = tree.get_children(k);
        assert(cs@.subrange(0, cs@.len() as int) =~= cs@);
        UndoTreeNode::delete_subtrees(tree, k, &cs, 0);
        UndoTreeNode::unlink(tree, k);
    }

    /// Deletes the subtrees of the nodes `cs[i..]`, children of node `k` (see
    /// `delete_subtrees`).
    fn delete_subtrees(tree: &mut UndoTree, k: usize, cs: &Vec<usize>, i: usize)
        requires
            old(tree).wf(),
            k < old(tree)@.nodes.len(),
            i <= cs@.len(),
        ensures
            final(tree).wf(),
            final(tree)@.nodes.len() == old(tree)@.nodes.len(),
            final(tree)@ == delete_subtrees(
                old(tree)@,
                k,
                cs@.subrange(i as int, cs@.len() as int),
                old(tree)@.nodes.len(),
            ),
        decreases old(tree)@.nodes.len() - k, cs@.len() - i,
    {
        let ghost m = tree@;
        let ghost n = tree@.nodes.len();
        let ghost rest = cs@.subrange(i as int, cs@.len() as int);
        if i >= cs.len() {
            assert(rest.len() == 0);
            return;
        }
        assert(rest[0] == cs@[i as int]);
        assert(rest.drop_first() =~= cs@.subrange(i + 1, cs@.len() as int));
        let c = cs[i];
        let len = tree.nodes.len();
        assert(len == n);
        if k < c && c < len {
            let grand = tree.get_children(c);
            assert(grand@.subrange(0, grand@.len() as int) =~= grand@);
            UndoTreeNode::delete_subtrees(tree, c, &grand, 0);
            UndoTreeNode::unlink(tree, c);
        }
        UndoTreeNode::delete_subtrees(tree, k, cs, i + 1);
    }

    /// Takes node `k` out from under its parent (see `spec_unlink`).
    fn unlink(tree: &mut UndoTree, k: usize)
        requires
            old(tree).wf(),
            k < old(tree)@.nodes.len(),
        ensures
            final(tree).wf(),
            final(tree)@ == spec_unlink(old(tree)@, k),
    {
        let ghost old_model = tree@;
        assert(old_model.nodes[k as int].parent matches Some(q) && q < old_model.nodes.len());
        assert(tree.nodes@[k as int]@ == old_model.nodes[k as int]);
        let p = match tree.nodes[k].parent {
            Some(p) => p,
            None => k,
        };
        let mut pn = tree.take_node(p);
        let ghost old_children = pn.children@;
        let mut kept: Vec<usize> = Vec::new();
        let n = pn.children.len();
        for i in 0..n
            invariant
                n == pn.children.len(),
                pn.children@ == old_children,
                kept@ == old_children.take(i as int).filter(other_than(k)),
        {
            proof {
                reveal(Seq::filter);
                assert(old_children.take(i + 1).drop_last() =~= old_children.take(i as int));
            }
            if pn.children[i] != k {
                kept.push(pn.children[i]);
            }
        }
        assert(old_children.take(n as int) =~= old_children);
        let is_next = match pn.next_operation_pointer {
            Some(q) => q == k,
            None => false,
        };
        if is_next {
            pn.next_operation_pointer = None;
        }
        pn.children = kept;
        tree.put_node(p, pn);
        proof {
            let m = tree@;
            let sd = spec_unlink(old_model, k).nodes;
            assert(pn@ == sd[p as int]) by {
                assert(pn@.children =~= sd[p as int].children);
            }
            assert forall|i: int| 0 <= i < sd.len() implies m.nodes[i] == sd[i] by {
                if i != p {
                    assert(m.nodes[i] == old_model.nodes[i]);
                }
            }
            assert(m.nodes =~= sd);
            assert forall|k2: int, j: int|
                0 <= k2 < m.nodes.len() && 0 <= j < m.nodes[k2].children.len() implies #[trigger] m.nodes[k2].children[j] > k2 by {
                if k2 != p {
                    assert(m.nodes[k2] == old_model.nodes[k2]);
                } else {
                    old_children.lemma_filter_pred(other_than(k), j);
                    let x = m.nodes[k2].children[j];
                    assert(old_children.filter(other_than(k)).contains(x));
                    old_children.lemma_filter_contains_rev(other_than(k), x);
                }
            }
            assert forall|k2: int| 0 <= k2 < m.nodes.len() implies {
                let nd = #[trigger] m.nodes[k2];
                &&& nd.parent matches Some(q) && q < m.nodes.len()
                &&& forall|j: int| 0 <= j < nd.children.len() ==> #[trigger] nd.children[j] < m.nodes.len()
                &&& nd.last matches Some(q) ==> q < m.nodes.len()
                &&& nd.next matches Some(q) ==> q < m.nodes.len()
            } by {
                if k2 != p {
                    assert(m.nodes[k2] == old_model.nodes[k2]);
                } else {
                    assert forall|j: int| 0 <= j < m.nodes[k2].children.len() implies #[trigger] m.nodes[k2].children[j] < m.nodes.len() by {
                        old_children.lemma_filter_pred(other_than(k), j);
                        let x = m.nodes[k2].children[j];
                        assert(old_children.filter(other_than(k)).contains(x));
                        old_children.lemma_filter_contains_rev(other_than(k), x);
                    }
                }
            }
        }
    }
}

} // verus!
