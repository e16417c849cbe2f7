//! The syntax tree.

use vstd::prelude::*;

verus! {

/// A node of the syntax tree.
#[derive(Debug)]
pub enum Node {
    /// A literal word.
    String(String),
    /// A file descriptor, by number.
    FD(u32),
    /// A request to close a file descriptor.
    CloseFD(u32),
    /// A command: a program name and what follows it.
    Command(Command),
    /// A variable, looked up when the line is evaluated.
    Reference(String),
    /// An assignment `KEY = VALUE`.
    Insert(Insert),
    /// A redirection of one of a command's descriptors.
    Redirect(Redirect),
    /// The marker `&` at the end of a command.
    Background(bool),
    /// The statements of a line, in order.
    Tree(Tree),
    /// The stages of a pipeline, from left to right.
    Pipe(Pipe),
}

/// An assignment: both sides are `String` nodes.
#[derive(Debug)]
pub struct Insert {
    key: Option<Box<Node>>,
    val: Option<Box<Node>>,
}

/// The direction of a redirection.
#[derive(Debug, Clone, Copy, PartialEq, Eq, Structural)]
pub enum RedirectKind {
    /// `<`
    Input,
    /// `>`
    Output,
}

/// A redirection: the descriptor on the left of the angle, the file or
/// descriptor on its right.
#[derive(Debug)]
pub struct Redirect {
    kind: RedirectKind,
    left: Option<Box<Node>>,
    right: Option<Box<Node>>,
}

/// A command: the program's name and the items after it.
#[derive(Debug)]
pub struct Command {
    prefix: Option<Box<Node>>,
    suffix: Option<CommandSuffix>,
}

/// What follows a program's name, in the order written: arguments,
/// redirections and at most one background marker, which comes last.
#[derive(Debug)]
pub struct CommandSuffix {
    items: Vec<Node>,
}

/// A pipeline: its stages that have not been handed out yet.
#[derive(Debug)]
pub struct Pipe {
    stages: Vec<Node>,
    started: bool,
}

/// The statements of a line that have not been handed out yet.
#[derive(Debug)]
pub struct Tree {
    statements: Vec<Node>,
}

/// A node as a mathematical value.
pub enum Syntax {
    String(Seq<char>),
    FD(u32),
    CloseFD(u32),
    Command { prefix: Option<Box<Syntax>>, suffix: Option<Seq<Syntax>> },
    Reference(Seq<char>),
    Insert { key: Option<Box<Syntax>>, val: Option<Box<Syntax>> },
    Redirect { kind: RedirectKind, left: Option<Box<Syntax>>, right: Option<Box<Syntax>> },
    Background(bool),
    Tree(Seq<Syntax>),
    Pipe { stages: Seq<Syntax>, started: bool },
}

/// An optional node in a box.
pub open spec fn boxed(node: Option<Node>) -> Option<Box<Node>> {
    match node {
        Some(node) => Some(Box::new(node)),
        None => None,
    }
}

impl Syntax {
    /// Whether this is a word or a reference: what can name a program and
    /// what can be an argument.
    pub open spec fn is_word(self) -> bool {
        self is String || self is Reference
    }

    /// Whether this is a redirection with one descriptor on its left and
    /// one target on its right, a word or a descriptor.
    pub open spec fn is_redirection(self) -> bool {
        &&& self is Redirect
        &&& self->left is Some
        &&& *self->left->0 is FD
        &&& self->right is Some
        &&& (*self->right->0 is String || *self->right->0 is FD)
    }

    /// Whether this is a command as the parser builds it: a word or a
    /// reference names the program, and the suffix holds arguments and
    /// redirections in the order written, with the background marker, if
    /// there is one, at its end.
    pub open spec fn is_command(self) -> bool {
        &&& self is Command
        &&& self->prefix is Some
        &&& self->prefix->0.is_word()
        &&& self->suffix is Some
        &&& is_suffix(self->suffix->0)
    }

    /// Whether this is an assignment of a word to a word.
    pub open spec fn is_assignment(self) -> bool {
        &&& self is Insert
        &&& self->key is Some
        &&& *self->key->0 is String
        &&& self->val is Some
        &&& *self->val->0 is String
    }

    /// Whether this is a pipeline as the parser builds it: two stages or
    /// more, each a command, none handed out.
    pub open spec fn is_pipeline(self) -> bool {
        &&& self is Pipe
        &&& !self->started
        &&& self->stages.len() >= 2
        &&& forall|i: int| 0 <= i < self->stages.len() ==> (#[trigger] self->stages[i]).is_command()
    }

    /// Whether this is a statement as the parser builds it: a command, a
    /// pipeline, an assignment or a close request.
    pub open spec fn is_statement(self) -> bool {
        self.is_command() || self.is_pipeline() || self.is_assignment() || self is CloseFD
    }

    /// For a pipeline: whether a stage follows the current one, which is
    /// the stage handed out last, or the first stage while none has been
    /// handed out.
    pub open spec fn stage_follows(self) -> bool {
        if self->started {
            self->stages.len() >= 1
        } else {
            self->stages.len() >= 2
        }
    }
}

/// Whether `items` can be the suffix of a command: arguments and
/// redirections, and the background marker at the end only.
pub open spec fn is_suffix(items: Seq<Syntax>) -> bool {
    forall|i: int|
        0 <= i < items.len() ==> {
            ||| (#[trigger] items[i]).is_word()
            ||| items[i].is_redirection()
            ||| items[i] is Background && i == items.len() - 1
        }
}

/// The value of an optional boxed node.
pub open spec fn syntax_of_child(child: Option<Box<Node>>) -> Option<Box<Syntax>>
    decreases child,
{
    match child {
        Some(node) => Some(Box::new(node.syntax())),
        None => None,
    }
}

/// The values of the nodes of `nodes`, in order.
pub open spec fn syntax_of_nodes(nodes: Seq<Node>) -> Seq<Syntax>
    decreases nodes,
{
    Seq::new(
        nodes.len(),
        |i: int|
            if 0 <= i < nodes.len() {
                nodes[i].syntax()
            } else {
                Syntax::Background(false)
            },
    )
}

impl Node {
    /// This node as a mathematical value.
    pub open spec fn syntax(&self) -> Syntax
        decreases self,
    {
        match self {
            Node::String(text) => Syntax::String(text@),
            Node::FD(n) => Syntax::FD(*n),
            Node::CloseFD(n) => Syntax::CloseFD(*n),
            Node::Command(command) => command.syntax(),
            Node::Reference(name) => Syntax::Reference(name@),
            Node::Insert(insert) => insert.syntax(),
            Node::Redirect(redirect) => redirect.syntax(),
            Node::Background(b) => Syntax::Background(*b),
            Node::Tree(tree) => tree.syntax(),
            Node::Pipe(pipe) => pipe.syntax(),
        }
    }
}

impl Node {
    /// The value of a node is of the node's own kind.
    pub proof fn lemma_syntax_kind(&self)
        ensures
            match self {
                Node::String(_) => self@ is String,
                Node::FD(_) => self@ is FD,
                Node::CloseFD(_) => self@ is CloseFD,
                Node::Command(_) => self@ is Command,
                Node::Reference(_) => self@ is Reference,
                Node::Insert(_) => self@ is Insert,
                Node::Redirect(_) => self@ is Redirect,
                Node::Background(_) => self@ is Background,
                Node::Tree(_) => self@ is Tree,
                Node::Pipe(_) => self@ is Pipe,
            },
    {
    }
}

impl Insert {
    /// This assignment as a mathematical value: `Syntax::Insert`.
    pub closed spec fn syntax(&self) -> Syntax
        decreases self,
    {
        Syntax::Insert { key: syntax_of_child(self.key), val: syntax_of_child(self.val) }
    }
}

impl Redirect {
    /// This redirection as a mathematical value: `Syntax::Redirect`.
    pub closed spec fn syntax(&self) -> Syntax
        decreases self,
    {
        Syntax::Redirect {
            kind: self.kind,
            left: syntax_of_child(self.left),
            right: syntax_of_child(self.right),
        }
    }
}

impl CommandSuffix {
    /// The items that have not been handed out yet, in order.
    pub closed spec fn syntax(&self) -> Seq<Syntax>
        decreases self,
    {
        syntax_of_nodes(self.items@)
    }
}

impl Command {
    /// This command as a mathematical value: `Syntax::Command`.
    pub closed spec fn syntax(&self) -> Syntax
        decreases self,
    {
        Syntax::Command {
            prefix: syntax_of_child(self.prefix),
            suffix: match self.suffix {
                Some(suffix) => Some(suffix.syntax()),
                None => None,
            },
        }
    }
}

impl Pipe {
    /// This pipeline as a mathematical value: `Syntax::Pipe`.
    pub closed spec fn syntax(&self) -> Syntax
        decreases self,
    {
        Syntax::Pipe { stages: syntax_of_nodes(self.stages@), started: self.started }
    }
}

impl Tree {
    /// This list of statements as a mathematical value: `Syntax::Tree`.
    pub closed spec fn syntax(&self) -> Syntax
        decreases self,
    {
        Syntax::Tree(syntax_of_nodes(self.statements@))
    }
}

/// Taking the first of some nodes away leaves the values of the others.
proof fn lemma_syntax_of_rest(nodes: Seq<Node>)
    requires
        nodes.len() > 0,
    ensures
        syntax_of_nodes(nodes.remove(0)) == syntax_of_nodes(nodes).drop_first(),
{
    assert(syntax_of_nodes(nodes.remove(0)) =~= syntax_of_nodes(nodes).drop_first());
}

/// One more node at the end adds its value at the end.
proof fn lemma_syntax_of_more(nodes: Seq<Node>, node: Node)
    ensures
        syntax_of_nodes(nodes.push(node)) == syntax_of_nodes(nodes).push(node.syntax()),
{
    assert(syntax_of_nodes(nodes.push(node)) =~= syntax_of_nodes(nodes).push(node.syntax()));
}

impl Insert {
    /// An assignment with neither side set.
    pub(crate) fn new() -> (insert: Self)
        ensures
            insert@ == (Syntax::Insert { key: None, val: None }),
    {
        Self { key: None, val: None }
    }

    /// Sets the left side.
    pub(crate) fn insert_key(&mut self, key: Node)
        ensures
            final(self)@ == (Syntax::Insert { key: Some(Box::new(key@)), val: old(self)@->val }),
    {
        self.key = Some(Box::new(key))
    }

    /// Sets the right side.
    pub(crate) fn insert_val(&mut self, val: Node)
        ensures
            final(self)@ == (Syntax::Insert { key: old(self)@->key, val: Some(Box::new(val@)) }),
    {
        self.val = Some(Box::new(val))
    }

    /// Hands out the left side and leaves none behind.
    pub fn take_key(&mut self) -> (key: Option<Node>)
        ensures
            old(self)@ is Insert,
            syntax_of_child(boxed(key)) == old(self)@->key,
            final(self)@ == (Syntax::Insert { key: None, val: old(self)@->val }),
    {
        match self.key.take() {
            Some(key) => Some(*key),
            None => None,
        }
    }

    /// Hands out the right side and leaves none behind.
    pub fn take_val(&mut self) -> (val: Option<Node>)
        ensures
            old(self)@ is Insert,
            syntax_of_child(boxed(val)) == old(self)@->val,
            final(self)@ == (Syntax::Insert { key: old(self)@->key, val: None }),
    {
        match self.val.take() {
            Some(val) => Some(*val),
            None => None,
        }
    }
}

impl Redirect {
    /// A redirection of the given direction with neither side set.
    pub(crate) fn new(kind: RedirectKind) -> (redirect: Self)
        ensures
            redirect@ == (Syntax::Redirect { kind, left: None, right: None }),
    {
        Self { kind, left: None, right: None }
    }

    /// The direction.
    pub fn kind(&self) -> (kind: &RedirectKind)
        ensures
            self@ is Redirect,
            *kind == self@->kind,
    {
        &self.kind
    }

    /// Hands out the descriptor on the left and leaves none behind.
    pub fn take_left(&mut self) -> (left: Option<Box<Node>>)
        ensures
            old(self)@ is Redirect,
            syntax_of_child(left) == old(self)@->left,
            final(self)@ == (Syntax::Redirect {
                kind: old(self)@->kind,
                left: None,
                right: old(self)@->right,
            }),
    {
        self.left.take()
    }

    /// Hands out the target on the right and leaves none behind.
    pub fn take_right(&mut self) -> (right: Option<Box<Node>>)
        ensures
            old(self)@ is Redirect,
            syntax_of_child(right) == old(self)@->right,
            final(self)@ == (Syntax::Redirect {
                kind: old(self)@->kind,
                left: old(self)@->left,
                right: None,
            }),
    {
        self.right.take()
    }

    /// Sets the descriptor on the left.
    pub(crate) fn insert_left(&mut self, node: Node)
        ensures
            final(self)@ == (Syntax::Redirect {
                kind: old(self)@->kind,
                left: Some(Box::new(node@)),
                right: old(self)@->right,
            }),
    {
        self.left = Some(Box::new(node))
    }

    /// Sets the target on the right.
    pub(crate) fn insert_right(&mut self, node: Node)
        ensures
            final(self)@ == (Syntax::Redirect {
                kind: old(self)@->kind,
                left: old(self)@->left,
                right: Some(Box::new(node@)),
            }),
    {
        self.right = Some(Box::new(node))
    }
}

impl Command {
    /// A command with neither a name nor a suffix.
    pub(crate) fn new() -> (command: Self)
        ensures
            command@ == (Syntax::Command { prefix: None, suffix: None }),
    {
        Self { prefix: None, suffix: None }
    }

    /// Hands out a copy of the program's name; the command keeps its own.
    pub fn take_prefix(&mut self) -> (prefix: Option<Node>)
        ensures
            old(self)@ is Command,
            syntax_of_child(boxed(prefix)) == old(self)@->prefix,
            final(self)@ == old(self)@,
    {
        match &self.prefix {
            Some(node) => Some((**node).duplicate()),
            None => None,
        }
    }

    /// Hands out the suffix and leaves none behind.
    pub fn take_suffix(&mut self) -> (suffix: Option<CommandSuffix>)
        ensures
            old(self)@ is Command,
            match suffix {
                Some(items) => old(self)@->suffix == Some(items@),
                None => old(self)@->suffix is None,
            },
            final(self)@ == (Syntax::Command { prefix: old(self)@->prefix, suffix: None }),
    {
        self.suffix.take()
    }

    /// Sets the program's name.
    pub(crate) fn insert_prefix(&mut self, prefix: Node)
        ensures
            final(self)@ == (Syntax::Command {
                prefix: Some(Box::new(prefix@)),
                suffix: old(self)@->suffix,
            }),
    {
        self.prefix = Some(Box::new(prefix))
    }

    /// Sets the suffix.
    pub(crate) fn insert_suffix(&mut self, suffix: CommandSuffix)
        ensures
            final(self)@ == (Syntax::Command { prefix: old(self)@->prefix, suffix: Some(suffix@) }),
    {
        self.suffix = Some(suffix)
    }
}

impl CommandSuffix {
    /// A suffix without items.
    pub(crate) fn new() -> (suffix: Self)
        ensures
            suffix@ == Seq::<Syntax>::empty(),
    {
        let suffix = Self { items: Vec::new() };
        assert(suffix@ =~= Seq::<Syntax>::empty());
        suffix
    }

    /// Adds `node` behind the items that are there.
    pub(crate) fn insert(&mut self, node: Node)
        ensures
            final(self)@ == old(self)@.push(node@),
    {
        proof {
            lemma_syntax_of_more(self.items@, node);
        }
        self.items.push(node)
    }

    /// Hands out the first item that is left, if there is one.
    pub fn take(&mut self) -> (node: Option<Node>)
        ensures
            match node {
                Some(first) => old(self)@.len() > 0 && first@ == old(self)@[0] && final(self)@
                    == old(self)@.drop_first(),
                None => old(self)@.len() == 0 && final(self)@ == old(self)@,
            },
    {
        if self.items.len() == 0 {
            None
        } else {
            proof {
                lemma_syntax_of_rest(self.items@);
            }
            Some(self.items.remove(0))
        }
    }
}

impl Pipe {
    /// A pipeline without stages, of which none has been handed out.
    pub(crate) fn new() -> (pipe: Self)
        ensures
            pipe@ == (Syntax::Pipe { stages: Seq::empty(), started: false }),
    {
        let pipe = Self { stages: Vec::new(), started: false };
        assert(syntax_of_nodes(pipe.stages@) =~= Seq::<Syntax>::empty());
        pipe
    }

    /// Adds `node` behind the stages that are there.
    pub(crate) fn insert(&mut self, node: Node)
        ensures
            final(self)@ == (Syntax::Pipe {
                stages: old(self)@->stages.push(node@),
                started: old(self)@->started,
            }),
    {
        proof {
            lemma_syntax_of_more(self.stages@, node);
        }
        self.stages.push(node)
    }

    /// Hands out the first stage that is left, if there is one, and from
    /// then on counts the pipeline as started.
    pub fn take(&mut self) -> (node: Option<Node>)
        ensures
            old(self)@ is Pipe,
            match node {
                Some(first) => old(self)@->stages.len() > 0 && first@ == old(self)@->stages[0]
                    && final(self)@ == (Syntax::Pipe {
                    stages: old(self)@->stages.drop_first(),
                    started: true,
                }),
                None => old(self)@->stages.len() == 0 && final(self)@ == old(self)@,
            },
    {
        if self.stages.len() == 0 {
            None
        } else {
            proof {
                lemma_syntax_of_rest(self.stages@);
            }
            self.started = true;
            Some(self.stages.remove(0))
        }
    }

    /// The number of stages that are left.
    pub fn len(&self) -> (len: usize)
        ensures
            self@ is Pipe,
            len == self@->stages.len(),
    {
        self.stages.len()
    }

    /// Whether a stage follows the current one: the one handed out last,
    /// or the first one while none has been handed out.
    pub fn is_pipe(&self) -> (more: bool)
        ensures
            self@ is Pipe,
            more == self@.stage_follows(),
    {
        if self.started {
            self.stages.len() >= 1
        } else {
            self.stages.len() >= 2
        }
    }
}

impl Tree {
    /// The value of a tree is a tree.
    pub proof fn lemma_syntax_is_tree(&self)
        ensures
            self@ is Tree,
    {
    }

    /// A line without statements.
    pub(crate) fn new() -> (tree: Self)
        ensures
            tree@ == Syntax::Tree(Seq::empty()),
    {
        let tree = Self { statements: Vec::new() };
        assert(syntax_of_nodes(tree.statements@) =~= Seq::<Syntax>::empty());
        tree
    }

    /// Adds `node` behind the statements that are there.
    pub(crate) fn insert(&mut self, node: Node)
        ensures
            final(self)@ == Syntax::Tree(old(self)@->Tree_0.push(node@)),
    {
        proof {
            lemma_syntax_of_more(self.statements@, node);
        }
        self.statements.push(node)
    }

    /// Hands out the first statement that is left, if there is one.
    pub fn take(&mut self) -> (node: Option<Box<Node>>)
        ensures
            old(self)@ is Tree,
            match node {
                Some(first) => old(self)@->Tree_0.len() > 0 && first@ == old(self)@->Tree_0[0]
                    && final(self)@ == Syntax::Tree(old(self)@->Tree_0.drop_first()),
                None => old(self)@->Tree_0.len() == 0 && final(self)@ == old(self)@,
            },
    {
        if self.statements.len() == 0 {
            None
        } else {
            proof {
                lemma_syntax_of_rest(self.statements@);
            }
            Some(Box::new(self.statements.remove(0)))
        }
    }
}

/// A copy of an optional boxed node.
fn duplicate_child(child: &Option<Box<Node>>) -> (copy: Option<Box<Node>>)
    ensures
        syntax_of_child(copy) == syntax_of_child(*child),
    decreases child,
{
    match child {
        Some(node) => Some(Box::new((**node).duplicate())),
        None => None,
    }
}

/// Copies of some nodes, in order.
fn duplicate_nodes(nodes: &Vec<Node>) -> (copies: Vec<Node>)
    ensures
        syntax_of_nodes(copies@) == syntax_of_nodes(nodes@),
    decreases nodes,
{
    let mut copies: Vec<Node> = Vec::new();
    let mut i: usize = 0;
    while i < nodes.len()
        invariant
            i <= nodes@.len(),
            copies@.len() == i,
            forall|j: int| 0 <= j < i ==> (#[trigger] copies@[j]).syntax() == nodes@[j].syntax(),
        decreases nodes@.len() - i,
    {
        proof {
            vstd::std_specs::vec::axiom_vec_index_decreases(*nodes, i as int);
        }
        copies.push(nodes[i].duplicate());
        i += 1;
    }
    assert(syntax_of_nodes(copies@) =~= syntax_of_nodes(nodes@));
    copies
}

impl Node {
    /// A copy of this node and of all that it holds.
    pub fn duplicate(&self) -> (copy: Node)
        ensures
            copy@ == self@,
        decreases self,
    {
        match self {
            Node::String(text) => Node::String(text.clone()),
            Node::FD(n) => Node::FD(*n),
            Node::CloseFD(n) => Node::CloseFD(*n),
            Node::Command(command) => Node::Command(command.duplicate()),
            Node::Reference(name) => Node::Reference(name.clone()),
            Node::Insert(insert) => Node::Insert(insert.duplicate()),
            Node::Redirect(redirect) => Node::Redirect(redirect.duplicate()),
            Node::Background(b) => Node::Background(*b),
            Node::Tree(tree) => Node::Tree(tree.duplicate()),
            Node::Pipe(pipe) => Node::Pipe(pipe.duplicate()),
        }
    }
}

impl Insert {
    /// A copy of this assignment and of all that it holds.
    pub fn duplicate(&self) -> (copy: Insert)
        ensures
            copy@ == self@,
        decreases self,
    {
        Insert { key: duplicate_child(&self.key), val: duplicate_child(&self.val) }
    }
}

impl Redirect {
    /// A copy of this redirection and of all that it holds.
    pub fn duplicate(&self) -> (copy: Redirect)
        ensures
            copy@ == self@,
        decreases self,
    {
        Redirect {
            kind: self.kind,
            left: duplicate_child(&self.left),
            right: duplicate_child(&self.right),
        }
    }
}

impl CommandSuffix {
    /// A copy of this suffix and of all that it holds.
    pub fn duplicate(&self) -> (copy: CommandSuffix)
        ensures
            copy@ == self@,
        decreases self,
    {
        CommandSuffix { items: duplicate_nodes(&self.items) }
    }
}

impl Command {
    /// A copy of this command and of all that it holds.
    pub fn duplicate(&self) -> (copy: Command)
        ensures
            copy@ == self@,
        decreases self,
    {
        Command {
            prefix: duplicate_child(&self.prefix),
            suffix: match &self.suffix {
                Some(suffix) => Some(suffix.duplicate()),
                None => None,
            },
        }
    }
}

impl Pipe {
    /// A copy of this pipeline and of all that it holds.
    pub fn duplicate(&self) -> (copy: Pipe)
        ensures
            copy@ == self@,
        decreases self,
    {
        Pipe { stages: duplicate_nodes(&self.stages), started: self.started }
    }
}

impl Tree {
    /// A copy of this tree and of all that it holds.
    pub fn duplicate(&self) -> (copy: Tree)
        ensures
            copy@ == self@,
        decreases self,
    {
        Tree { statements: duplicate_nodes(&self.statements) }
    }
}

impl Clone for Node {
    fn clone(&self) -> (copy: Self)
        ensures
            copy@ == self@,
    {
        self.duplicate()
    }
}

impl Clone for Insert {
    fn clone(&self) -> (copy: Self)
        ensures
            copy@ == self@,
    {
        self.duplicate()
    }
}

impl Clone for Redirect {
    fn clone(&self) -> (copy: Self)
        ensures
            copy@ == self@,
    {
        self.duplicate()
    }
}

impl Clone for CommandSuffix {
    fn clone(&self) -> (copy: Self)
        ensures
            copy@ == self@,
    {
        self.duplicate()
    }
}

impl Clone for Command {
    fn clone(&self) -> (copy: Self)
        ensures
            copy@ == self@,
    {
        self.duplicate()
    }
}

impl Clone for Pipe {
    fn clone(&self) -> (copy: Self)
        ensures
            copy@ == self@,
    {
        self.duplicate()
    }
}

impl Clone for Tree {
    fn clone(&self) -> (copy: Self)
        ensures
            copy@ == self@,
    {
        self.duplicate()
    }
}

impl View for Node {
    type V = Syntax;

    open spec fn view(&self) -> Syntax {
        self.syntax()
    }
}

impl View for Insert {
    type V = Syntax;

    open spec fn view(&self) -> Syntax {
        self.syntax()
    }
}

impl View for Redirect {
    type V = Syntax;

    open spec fn view(&self) -> Syntax {
        self.syntax()
    }
}

impl View for CommandSuffix {
    type V = Seq<Syntax>;

    open spec fn view(&self) -> Seq<Syntax> {
        self.syntax()
    }
}

impl View for Command {
    type V = Syntax;

    open spec fn view(&self) -> Syntax {
        self.syntax()
    }
}

impl View for Pipe {
    type V = Syntax;

    open spec fn view(&self) -> Syntax {
        self.syntax()
    }
}

impl View for Tree {
    type V = Syntax;

    open spec fn view(&self) -> Syntax {
        self.syntax()
    }
}

} // verus!
