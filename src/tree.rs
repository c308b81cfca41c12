//! Snapshots of directory trees.
//!
//! A `TreeBuilder` walks a directory tree and assembles its snapshot. It
//! decides what comes next; the caller does the outside work it asks for
//! (`step`): lists a directory (`listed`) or reads a file (`read`). A
//! failed listing is the caller's to report, and ends the walk with no
//! snapshot. Every node the builder hands out is well formed, at every
//! depth, and carries the label of the snapshot's root.

use vstd::prelude::*;
use crate::path::{label_of, root_label};

verus! {

/// Whether a node stands for a file or a folder.
#[derive(Clone, Copy, Debug, PartialEq, Eq, Structural)]
pub enum NodeKind {
    File,
    Folder,
}

impl NodeKind {
    /// The kind's name: `file` or `folder`.
    pub fn name(&self) -> (r: String)
        ensures
            r@ == match self {
                NodeKind::File => "file"@,
                NodeKind::Folder => "folder"@,
            },
    {
        match self {
            NodeKind::File => String::from_str("file"),
            NodeKind::Folder => String::from_str("folder"),
        }
    }
}

/// One entry of a snapshot.
#[derive(Debug)]
pub struct FileNode {
    /// The entry's full path.
    pub id: String,
    /// The entry's base name.
    pub name: String,
    pub kind: NodeKind,
    /// The file's text; empty where it could not be read as text.
    pub content: Option<String>,
    /// The folder's entries, in the order the system listed them.
    pub children: Option<Vec<FileNode>>,
    /// The base name of the snapshot's root.
    pub folder_name: String,
}

/// `n` is well formed and labelled `label`, and so is every node below it:
/// a file has content and no children, a folder children and no content.
pub open spec fn node_ok(n: FileNode, label: Seq<char>) -> bool
    decreases n,
{
    &&& n.folder_name@ == label
    &&& match n.kind {
        NodeKind::File => n.content is Some && n.children is None,
        NodeKind::Folder => n.content is None && match n.children {
            Some(cs) => forall|i: int| 0 <= i < cs@.len() ==> node_ok(#[trigger] cs@[i], label),
            None => false,
        },
    }
}

/// All of `ns` are well formed and labelled `label`.
pub open spec fn nodes_ok(ns: Seq<FileNode>, label: Seq<char>) -> bool {
    forall|i: int| 0 <= i < ns.len() ==> node_ok(#[trigger] ns[i], label)
}

/// `n` is the file `id` named `name` with text `content`.
pub open spec fn is_file_node(
    n: FileNode,
    id: Seq<char>,
    name: Seq<char>,
    content: Seq<char>,
    label: Seq<char>,
) -> bool {
    &&& n.id@ == id
    &&& n.name@ == name
    &&& n.kind == NodeKind::File
    &&& n.content is Some && n.content->0@ == content
    &&& n.children is None
    &&& n.folder_name@ == label
}

/// `n` is the folder `id` named `name` holding `children`.
pub open spec fn is_folder_node(
    n: FileNode,
    id: Seq<char>,
    name: Seq<char>,
    children: Seq<FileNode>,
    label: Seq<char>,
) -> bool {
    &&& n.id@ == id
    &&& n.name@ == name
    &&& n.kind == NodeKind::Folder
    &&& n.content is None
    &&& n.children is Some && n.children->0@ == children
    &&& n.folder_name@ == label
}

/// A file's text as read, empty where it could not be read as text.
pub open spec fn text_or_empty(o: Option<String>) -> Seq<char> {
    match o {
        Some(s) => s@,
        None => Seq::empty(),
    }
}

/// One entry of a directory listing.
pub struct Entry {
    /// The entry's full path.
    pub id: String,
    /// The entry's base name.
    pub name: String,
    /// Whether the entry is a directory.
    pub is_dir: bool,
}

pub struct EntryModel {
    pub id: Seq<char>,
    pub name: Seq<char>,
    pub is_dir: bool,
}

impl View for Entry {
    type V = EntryModel;

    open spec fn view(&self) -> EntryModel {
        EntryModel { id: self.id@, name: self.name@, is_dir: self.is_dir }
    }
}

/// What the walk needs next from the caller.
#[derive(Debug, PartialEq, Eq)]
pub enum WalkAction {
    /// List the directory at this path and hand the entries, in the order
    /// the system gives them, to `TreeBuilder::listed`.
    List(String),
    /// Read the file at this path as text and hand the text, or `None`
    /// where it could not be read as text, to `TreeBuilder::read`.
    Read(String),
    /// Nothing to do outside; ask again.
    Continue,
    /// The walk is over: `TreeBuilder::finish` gives the snapshot.
    Done,
}

pub enum ActionModel {
    List(Seq<char>),
    Read(Seq<char>),
    Continue,
    Done,
}

impl View for WalkAction {
    type V = ActionModel;

    open spec fn view(&self) -> ActionModel {
        match self {
            WalkAction::List(p) => ActionModel::List(p@),
            WalkAction::Read(p) => ActionModel::Read(p@),
            WalkAction::Continue => ActionModel::Continue,
            WalkAction::Done => ActionModel::Done,
        }
    }
}

/// Work left in a walk.
pub enum TaskModel {
    /// List a directory, whose entries then come next.
    List(Seq<char>),
    /// Take in an entry of a listing.
    Visit(EntryModel),
    /// Leave the innermost open folder.
    Close,
}

/// What the walk waits for from the caller.
pub enum WaitModel {
    Nothing,
    Listing,
    Reading { id: Seq<char>, name: Seq<char> },
}

/// A folder that is being filled.
pub struct OpenFolder {
    pub id: Seq<char>,
    pub name: Seq<char>,
    pub nodes: Seq<FileNode>,
}

/// The state of a walk.
pub struct WalkModel {
    /// The label of every node.
    pub label: Seq<char>,
    /// Whether the root is a directory, so that there is anything to walk.
    pub walking: bool,
    /// The folders entered and not yet left, innermost last.
    pub open: Seq<OpenFolder>,
    /// The nodes directly under the root.
    pub top: Seq<FileNode>,
    /// The work left, the next task last.
    pub tasks: Seq<TaskModel>,
    pub waiting: WaitModel,
}

/// The nodes that the next entry joins.
pub open spec fn current(m: WalkModel) -> Seq<FileNode> {
    if m.open.len() == 0 {
        m.top
    } else {
        m.open.last().nodes
    }
}

/// `m` with the nodes that the next entry joins replaced by `ns`.
pub open spec fn with_current(m: WalkModel, ns: Seq<FileNode>) -> WalkModel {
    if m.open.len() == 0 {
        WalkModel { top: ns, ..m }
    } else {
        WalkModel {
            open: m.open.update(m.open.len() - 1, OpenFolder { nodes: ns, ..m.open.last() }),
            ..m
        }
    }
}

/// `m` with the innermost open folder left, before its node is added.
pub open spec fn without_last(m: WalkModel) -> WalkModel {
    WalkModel { open: m.open.drop_last(), ..m }
}

/// `m` with its next task taken.
pub open spec fn taken(m: WalkModel) -> WalkModel {
    WalkModel { tasks: m.tasks.drop_last(), ..m }
}

/// `after` is `before` with the file `id` added after the nodes that the
/// next entry joins.
pub open spec fn filed(
    before: WalkModel,
    after: WalkModel,
    id: Seq<char>,
    name: Seq<char>,
    content: Seq<char>,
) -> bool {
    &&& after == with_current(before, current(after))
    &&& current(after).len() > 0
    &&& current(after).drop_last() == current(before)
    &&& is_file_node(current(after).last(), id, name, content, before.label)
}

/// `after` is `before` with its innermost open folder left and added, as a
/// folder node holding what was gathered in it, after the nodes around it.
pub open spec fn closed(before: WalkModel, after: WalkModel) -> bool {
    let below = without_last(before);
    let f = before.open.last();
    &&& after == with_current(below, current(after))
    &&& current(after).len() > 0
    &&& current(after).drop_last() == current(below)
    &&& is_folder_node(current(after).last(), f.id, f.name, f.nodes, before.label)
}

/// The tasks for a listing: one visit per entry, the first entry to be
/// taken first.
pub open spec fn visits(es: Seq<Entry>) -> Seq<TaskModel> {
    Seq::new(es.len(), |i: int| TaskModel::Visit(es[es.len() - 1 - i]@))
}

/// How many `Close` tasks `ts` holds.
pub open spec fn close_count(ts: Seq<TaskModel>) -> nat
    decreases ts.len(),
{
    if ts.len() == 0 {
        0
    } else {
        close_count(ts.drop_last()) + if ts.last() is Close {
            1nat
        } else {
            0nat
        }
    }
}

proof fn lemma_close_count_push(ts: Seq<TaskModel>, t: TaskModel)
    ensures
        close_count(ts.push(t)) == close_count(ts) + if t is Close {
            1nat
        } else {
            0nat
        },
{
    assert(ts.push(t).drop_last() =~= ts);
}

struct Level {
    id: String,
    name: String,
    nodes: Vec<FileNode>,
}

enum Task {
    List(String),
    Visit(Entry),
    Close,
}

enum Waiting {
    Nothing,
    Listing,
    Reading(String, String),
}

spec fn task_view(t: Task) -> TaskModel {
    match t {
        Task::List(p) => TaskModel::List(p@),
        Task::Visit(e) => TaskModel::Visit(e@),
        Task::Close => TaskModel::Close,
    }
}

spec fn waiting_view(w: Waiting) -> WaitModel {
    match w {
        Waiting::Nothing => WaitModel::Nothing,
        Waiting::Listing => WaitModel::Listing,
        Waiting::Reading(id, name) => WaitModel::Reading { id: id@, name: name@ },
    }
}

/// Walks one directory tree and assembles its snapshot.
///
/// The walk is depth first: a folder's entries are taken in the order of
/// its listing, each subfolder's whole tree before the next entry.
pub struct TreeBuilder {
    label: String,
    walking: bool,
    open: Vec<Level>,
    top: Vec<FileNode>,
    tasks: Vec<Task>,
    waiting: Waiting,
}

impl View for TreeBuilder {
    type V = WalkModel;

    closed spec fn view(&self) -> WalkModel {
        WalkModel {
            label: self.label@,
            walking: self.walking,
            open: self.open@.map_values(
                |l: Level| OpenFolder { id: l.id@, name: l.name@, nodes: l.nodes@ },
            ),
            top: self.top@,
            tasks: self.tasks@.map_values(|t: Task| task_view(t)),
            waiting: waiting_view(self.waiting),
        }
    }
}

impl TreeBuilder {
    /// The walk's invariant: every node gathered so far is well formed and
    /// carries the label; each open folder has its `Close` task waiting;
    /// and nothing is gathered or left to do where the root is no
    /// directory.
    pub open spec fn wf(&self) -> bool {
        &&& nodes_ok(self@.top, self@.label)
        &&& forall|k: int|
            0 <= k < self@.open.len() ==> nodes_ok(#[trigger] self@.open[k].nodes, self@.label)
        &&& close_count(self@.tasks) == self@.open.len()
        &&& !self@.walking ==> {
            &&& self@.top.len() == 0
            &&& self@.open.len() == 0
            &&& self@.tasks.len() == 0
            &&& self@.waiting is Nothing
        }
    }

    /// The walk of the tree at `root`; `root_is_dir` tells whether `root`
    /// is a directory. Where it is, the first thing to do is to list it;
    /// where it is not, there is nothing to do and the snapshot is empty.
    pub fn new(root: &str, root_is_dir: bool) -> (r: TreeBuilder)
        ensures
            r.wf(),
            r@ == (WalkModel {
                label: label_of(root@),
                walking: root_is_dir,
                open: Seq::empty(),
                top: Seq::empty(),
                tasks: if root_is_dir {
                    seq![TaskModel::List(root@)]
                } else {
                    Seq::empty()
                },
                waiting: WaitModel::Nothing,
            }),
    {
        let mut tasks: Vec<Task> = Vec::new();
        if root_is_dir {
            tasks.push(Task::List(String::from_str(root)));
        }
        let r = TreeBuilder {
            label: root_label(root),
            walking: root_is_dir,
            open: Vec::new(),
            top: Vec::new(),
            tasks,
            waiting: Waiting::Nothing,
        };
        proof {
            assert(r@.open =~= Seq::<OpenFolder>::empty());
            if root_is_dir {
                assert(r@.tasks =~= Seq::<TaskModel>::empty().push(TaskModel::List(root@)));
                lemma_close_count_push(Seq::<TaskModel>::empty(), TaskModel::List(root@));
                assert(r@.tasks =~= seq![TaskModel::List(root@)]);
            } else {
                assert(r@.tasks =~= Seq::<TaskModel>::empty());
            }
        }
        r
    }

    /// Whether the root is a directory to walk.
    pub fn walks(&self) -> (r: bool)
        ensures
            r == self@.walking,
    {
        self.walking
    }

    /// How many folders are entered and not yet left.
    pub fn depth(&self) -> (r: usize)
        ensures
            r == self@.open.len(),
    {
        self.open.len()
    }

    /// Takes the next task. A folder entry is entered and its listing asked
    /// for; a file entry's text is asked for; a folder whose entries are all
    /// taken is left.
    pub fn step(&mut self) -> (r: WalkAction)
        requires
            old(self).wf(),
            old(self)@.waiting is Nothing,
        ensures
            final(self).wf(),
            old(self)@.tasks.len() == 0 ==> r@ == ActionModel::Done && final(self)@ == old(self)@
                && final(self)@.open.len() == 0,
            old(self)@.tasks.len() > 0 ==> match old(self)@.tasks.last() {
                TaskModel::List(p) => r@ == ActionModel::List(p) && final(self)@ == (WalkModel {
                    waiting: WaitModel::Listing,
                    ..taken(old(self)@)
                }),
                TaskModel::Visit(e) => if e.is_dir {
                    &&& r@ == ActionModel::Continue
                    &&& final(self)@ == (WalkModel {
                        open: old(self)@.open.push(
                            OpenFolder { id: e.id, name: e.name, nodes: Seq::empty() },
                        ),
                        tasks: taken(old(self)@).tasks.push(TaskModel::Close).push(
                            TaskModel::List(e.id),
                        ),
                        ..old(self)@
                    })
                } else {
                    &&& r@ == ActionModel::Read(e.id)
                    &&& final(self)@ == (WalkModel {
                        waiting: WaitModel::Reading { id: e.id, name: e.name },
                        ..taken(old(self)@)
                    })
                },
                TaskModel::Close => r@ == ActionModel::Continue && old(self)@.open.len() > 0
                    && closed(taken(old(self)@), final(self)@),
            },
    {
        let ghost m = self@;
        let task = match self.tasks.pop() {
            Some(t) => t,
            None => {
                return WalkAction::Done;
            },
        };
        proof {
            assert(self@.tasks =~= m.tasks.drop_last());
            assert(m.tasks =~= self@.tasks.push(task_view(task)));
            lemma_close_count_push(self@.tasks, task_view(task));
        }
        match task {
            Task::List(p) => {
                self.waiting = Waiting::Listing;
                proof {
                    assert(self@ == (WalkModel { waiting: WaitModel::Listing, ..taken(m) }));
                }
                WalkAction::List(p)
            },
            Task::Visit(e) => {
                if e.is_dir {
                    let path = e.id.clone();
                    self.open_folder(e.id, e.name);
                    let ghost before = self.tasks@;
                    self.tasks.push(Task::Close);
                    self.tasks.push(Task::List(path));
                    proof {
                        assert(self.tasks@ == before.push(Task::Close).push(Task::List(path)));
                        assert(self@.tasks =~= taken(m).tasks.push(TaskModel::Close).push(
                            TaskModel::List(path@),
                        ));
                        lemma_close_count_push(taken(m).tasks, TaskModel::Close);
                        lemma_close_count_push(
                            taken(m).tasks.push(TaskModel::Close),
                            TaskModel::List(path@),
                        );
                    }
                    WalkAction::Continue
                } else {
                    let path = e.id.clone();
                    self.waiting = Waiting::Reading(e.id, e.name);
                    WalkAction::Read(path)
                }
            },
            Task::Close => {
                self.close_folder();
                WalkAction::Continue
            },
        }
    }

    /// Takes in the listing of the directory asked for: its entries are
    /// taken next, in the order given.
    pub fn listed(&mut self, entries: Vec<Entry>)
        requires
            old(self).wf(),
            old(self)@.waiting is Listing,
        ensures
            final(self).wf(),
            final(self)@ == (WalkModel {
                tasks: old(self)@.tasks + visits(entries@),
                waiting: WaitModel::Nothing,
                ..old(self)@
            }),
    {
        let ghost m = self@;
        let ghost all = entries@;
        let n = entries.len();
        let mut rest = entries;
        self.waiting = Waiting::Nothing;
        assert(visits(all).take(0) =~= Seq::<TaskModel>::empty());
        assert(m.tasks + Seq::<TaskModel>::empty() =~= m.tasks);
        while rest.len() > 0
            invariant
                n == all.len(),
                rest@ == all.take(rest@.len() as int),
                rest@.len() <= n,
                self@ == (WalkModel {
                    tasks: m.tasks + visits(all).take(n - rest@.len()),
                    waiting: WaitModel::Nothing,
                    ..m
                }),
                close_count(self@.tasks) == close_count(m.tasks),
            decreases rest@.len(),
        {
            let ghost k = n - rest@.len();
            let e = rest.pop().unwrap();
            proof {
                assert(rest@ =~= all.take(rest@.len() as int));
                assert(e == all[n - 1 - k]);
            }
            let ghost before = self.tasks@;
            let ghost bm = self@.tasks;
            self.tasks.push(Task::Visit(e));
            proof {
                assert(self.tasks@ == before.push(Task::Visit(e)));
                assert(self@.tasks =~= bm.push(TaskModel::Visit(e@)));
                assert(visits(all)[k] == TaskModel::Visit(e@));
                assert(visits(all).take(k + 1) =~= visits(all).take(k).push(TaskModel::Visit(e@)));
                assert(bm.push(TaskModel::Visit(e@)) =~= m.tasks + visits(all).take(k + 1));
                lemma_close_count_push(bm, TaskModel::Visit(e@));
                assert(self@ == (WalkModel {
                    tasks: m.tasks + visits(all).take(k + 1),
                    waiting: WaitModel::Nothing,
                    ..m
                }));
            }
        }
        assert(visits(all).take(n as int) =~= visits(all));
        assert(self@ == (WalkModel { tasks: m.tasks + visits(all), waiting: WaitModel::Nothing, ..m }));
    }

    /// Takes in the text of the file asked for, or `None` where it could
    /// not be read as text: the file is added with its text, or with empty
    /// text.
    pub fn read(&mut self, content: Option<String>)
        requires
            old(self).wf(),
            old(self)@.waiting is Reading,
        ensures
            final(self).wf(),
            filed(
                WalkModel { waiting: WaitModel::Nothing, ..old(self)@ },
                final(self)@,
                old(self)@.waiting->id,
                old(self)@.waiting->name,
                text_or_empty(content),
            ),
    {
        let (id, name) = match &self.waiting {
            Waiting::Reading(id, name) => (id.clone(), name.clone()),
            _ => {
                return;
            },
        };
        self.waiting = Waiting::Nothing;
        self.add_file(id, name, content);
    }

    fn add_file(&mut self, id: String, name: String, content: Option<String>)
        requires
            old(self).wf(),
            old(self)@.walking,
        ensures
            final(self).wf(),
            filed(old(self)@, final(self)@, id@, name@, text_or_empty(content)),
    {
        let text = match content {
            Some(t) => t,
            None => String::new(),
        };
        let node = FileNode {
            id,
            name,
            kind: NodeKind::File,
            content: Some(text),
            children: None,
            folder_name: self.label.clone(),
        };
        self.push_node(node);
        assert(current(self@).drop_last() =~= current(old(self)@));
    }

    fn open_folder(&mut self, id: String, name: String)
        requires
            old(self).wf(),
            old(self)@.walking,
        ensures
            final(self)@ == (WalkModel {
                open: old(self)@.open.push(OpenFolder { id: id@, name: name@, nodes: Seq::empty() }),
                ..old(self)@
            }),
            nodes_ok(final(self)@.top, final(self)@.label),
            forall|k: int|
                0 <= k < final(self)@.open.len() ==> nodes_ok(
                    #[trigger] final(self)@.open[k].nodes,
                    final(self)@.label,
                ),
    {
        let level = Level { id, name, nodes: Vec::new() };
        let ghost before = self.open@;
        self.open.push(level);
        proof {
            assert(self.open@ == before.push(level));
            assert(self@.open =~= old(self)@.open.push(
                OpenFolder { id: level.id@, name: level.name@, nodes: Seq::empty() },
            ));
            assert forall|k: int| 0 <= k < self@.open.len() implies nodes_ok(
                #[trigger] self@.open[k].nodes,
                self@.label,
            ) by {
                if k < old(self)@.open.len() {
                    assert(self@.open[k] == old(self)@.open[k]);
                }
            }
        }
    }

    fn close_folder(&mut self)
        requires
            old(self)@.walking,
            old(self)@.open.len() > 0,
            close_count(old(self)@.tasks) + 1 == old(self)@.open.len(),
            nodes_ok(old(self)@.top, old(self)@.label),
            forall|k: int|
                0 <= k < old(self)@.open.len() ==> nodes_ok(
                    #[trigger] old(self)@.open[k].nodes,
                    old(self)@.label,
                ),
        ensures
            final(self).wf(),
            closed(old(self)@, final(self)@),
    {
        let ghost last = old(self)@.open.last();
        let ghost k = old(self)@.open.len() - 1;
        let level = match self.open.pop() {
            Some(l) => l,
            None => {
                return;
            },
        };
        proof {
            assert(self@.open =~= old(self)@.open.drop_last());
            assert(old(self)@.open[k] == last);
            assert(nodes_ok(last.nodes, self@.label));
        }
        let node = FileNode {
            id: level.id,
            name: level.name,
            kind: NodeKind::Folder,
            content: None,
            children: Some(level.nodes),
            folder_name: self.label.clone(),
        };
        assert(node_ok(node, self@.label));
        assert(self@ == without_last(old(self)@));
        let ghost mid = self@;
        self.push_node(node);
        assert(current(self@).drop_last() =~= current(mid));
    }

    fn push_node(&mut self, node: FileNode)
        requires
            old(self).wf(),
            old(self)@.walking,
            node_ok(node, old(self)@.label),
        ensures
            final(self).wf(),
            final(self)@ == with_current(old(self)@, current(final(self)@)),
            current(final(self)@) == current(old(self)@).push(node),
    {
        let n = self.open.len();
        if n == 0 {
            self.top.push(node);
            assert(self@ =~= with_current(old(self)@, current(self@)));
        } else {
            let mut level = match self.open.pop() {
                Some(l) => l,
                None => {
                    return;
                },
            };
            level.nodes.push(node);
            self.open.push(level);
            proof {
                assert(self@.open =~= old(self)@.open.update(
                    n - 1,
                    OpenFolder { nodes: old(self)@.open.last().nodes.push(node), ..old(self)@.open.last() },
                ));
                assert(self@ =~= with_current(old(self)@, current(self@)));
                assert forall|k: int| 0 <= k < self@.open.len() implies nodes_ok(
                    #[trigger] self@.open[k].nodes,
                    self@.label,
                ) by {
                    if k < n - 1 {
                        assert(self@.open[k] == old(self)@.open[k]);
                    }
                }
            }
        }
    }

    /// The snapshot: the root's entries in the order they were taken in,
    /// each well formed at every depth and labelled with the root's name.
    pub fn finish(self) -> (r: Vec<FileNode>)
        requires
            self.wf(),
            self@.open.len() == 0,
        ensures
            r@ == self@.top,
            nodes_ok(r@, self@.label),
            !self@.walking ==> r@.len() == 0,
    {
        self.top
    }
}

/// Where the root is no directory, a snapshot holds nothing: there is no
/// task, so the first step ends the walk, and what it gives out is empty.
pub proof fn lemma_non_directory_root_is_empty(b: TreeBuilder)
    requires
        b.wf(),
        !b@.walking,
    ensures
        b@.tasks.len() == 0,
        b@.top.len() == 0,
        b@.open.len() == 0,
{
}

} // verus!
