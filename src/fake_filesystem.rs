//! An in-memory, read-only Linux-like directory tree with a movable working
//! directory. Nothing here touches real storage.
use vstd::prelude::*;

use crate::text::{chars_of, copy_strings, strings_view};

verus! {

#[derive(Debug, Clone, Copy, PartialEq, Eq, Structural)]
pub enum FileType {
    Directory,
    File,
    Symlink,
}

/// One node of the tree as a directory listing shows it.
#[derive(Debug, Clone)]
pub struct FileEntry {
    pub name: String,
    pub file_type: FileType,
    pub permissions: String,
    pub size: u64,
    pub content: Option<String>,
    pub children: Vec<String>,
}

/// A node of the tree: its canonical path (one segment per directory level)
/// and what a listing shows of it.
struct Node {
    segments: Vec<String>,
    entry: FileEntry,
}

/// The fake tree and the session's working directory.
pub struct FakeFilesystem {
    nodes: Vec<Node>,
    current: Vec<String>,
}

/// A canonical path: the segment names below the root, outermost first.
pub type Segments = Seq<Seq<char>>;

/// The two entries show the same text in every field.
pub open spec fn same_entry(a: FileEntry, b: FileEntry) -> bool {
    &&& a.name@ == b.name@
    &&& a.file_type == b.file_type
    &&& a.permissions@ == b.permissions@
    &&& a.size == b.size
    &&& a.content.is_some() == b.content.is_some()
    &&& a.content.is_some() ==> a.content.unwrap()@ == b.content.unwrap()@
    &&& strings_view(a.children@) == strings_view(b.children@)
}

/// The home directory of the emulated account.
pub open spec fn home_path() -> Segments {
    seq!["home"@, "admin"@]
}

/// Applies one path segment to `segs`: empty and `.` stay, `..` goes up
/// (never above the root), anything else goes down.
pub open spec fn step(segs: Segments, part: Seq<char>) -> Segments {
    if part.len() == 0 || part == "."@ {
        segs
    } else if part == ".."@ {
        if segs.len() > 0 {
            segs.drop_last()
        } else {
            segs
        }
    } else {
        segs.push(part)
    }
}

/// Walks the characters of `rest` from `segs`, `cur` being the segment read
/// so far.
pub open spec fn walk(segs: Segments, cur: Seq<char>, rest: Seq<char>) -> Segments
    decreases rest.len(),
{
    if rest.len() == 0 {
        step(segs, cur)
    } else if rest[0] == '/' {
        walk(step(segs, cur), Seq::empty(), rest.drop_first())
    } else {
        walk(segs, cur.push(rest[0]), rest.drop_first())
    }
}

/// The path `p` names when the working directory is `cwd`: absolute paths
/// start at the root, `~` and `~/...` at the home directory, anything else
/// at `cwd`.
pub open spec fn resolve(cwd: Segments, p: Seq<char>) -> Segments {
    if p.len() > 0 && p[0] == '/' {
        walk(Seq::empty(), Seq::empty(), p)
    } else if p.len() > 0 && p[0] == '~' && (p.len() == 1 || p[1] == '/') {
        walk(home_path(), Seq::empty(), p.drop_first())
    } else {
        walk(cwd, Seq::empty(), p)
    }
}

/// `/a/b/c` for the segments `a`, `b`, `c`; empty for the root.
pub open spec fn render_below(segs: Segments) -> Seq<char>
    decreases segs.len(),
{
    if segs.len() == 0 {
        Seq::empty()
    } else {
        render_below(segs.drop_last()) + "/"@ + segs.last()
    }
}

/// The absolute path string of `segs`.
pub open spec fn render(segs: Segments) -> Seq<char> {
    if segs.len() == 0 {
        "/"@
    } else {
        render_below(segs)
    }
}

/// A segment that a resolved path may hold.
pub open spec fn canonical_segment(part: Seq<char>) -> bool {
    &&& part.len() > 0
    &&& part != "."@
    &&& part != ".."@
    &&& !part.contains('/')
}

pub open spec fn canonical(segs: Segments) -> bool {
    forall|i: int| 0 <= i < segs.len() ==> canonical_segment(#[trigger] segs[i])
}

/// The index of the last of `paths` equal to `p`.
pub open spec fn find_in(paths: Seq<Segments>, p: Segments) -> Option<int>
    decreases paths.len(),
{
    if paths.len() == 0 {
        None
    } else if paths.last() == p {
        Some(paths.len() - 1)
    } else {
        find_in(paths.drop_last(), p)
    }
}

/// `q` lies directly inside `t`.
pub open spec fn is_child(q: Segments, t: Segments) -> bool {
    q.len() == t.len() + 1 && q.subrange(0, t.len() as int) == t
}

/// The entries of `entries` whose path in `paths` lies directly inside `t`.
pub open spec fn children_of(paths: Seq<Segments>, entries: Seq<FileEntry>, t: Segments) -> Seq<
    FileEntry,
>
    decreases paths.len(),
{
    if paths.len() == 0 || entries.len() == 0 {
        Seq::empty()
    } else if is_child(paths.last(), t) {
        children_of(paths.drop_last(), entries.drop_last(), t).push(entries.last())
    } else {
        children_of(paths.drop_last(), entries.drop_last(), t)
    }
}

/// The "other" read bit of a permission string such as `-rw-r--r--`.
pub open spec fn other_may_read(perms: Seq<char>) -> bool {
    perms.len() >= 10 && perms[7] == 'r'
}

/// What reading an entry yields: its content, or nothing.
pub open spec fn content_of(e: FileEntry) -> Seq<char> {
    match e.content {
        Some(c) => c@,
        None => Seq::empty(),
    }
}

/// What a listing shows of a node, as text values: name, type,
/// permissions, size and content.
pub type EntryView = (Seq<char>, FileType, Seq<char>, u64, Option<Seq<char>>);

pub open spec fn entry_view(e: FileEntry) -> EntryView {
    (
        e.name@,
        e.file_type,
        e.permissions@,
        e.size,
        match e.content {
            Some(c) => Some(c@),
            None => None,
        },
    )
}

/// A node to seed: absolute path, type, permissions, size and content.
pub type Seed = (Seq<char>, FileType, Seq<char>, u64, Option<Seq<char>>);

/// A tree as the paths of its nodes and what each shows, in the order the
/// nodes were added.
pub type TreeView = (Seq<Segments>, Seq<EntryView>);

/// `p` names a directory of `t`.
pub open spec fn dir_in(t: TreeView, p: Segments) -> bool {
    match find_in(t.0, p) {
        Some(i) => t.1[i].1 == FileType::Directory,
        None => false,
    }
}

/// `t` after seeding `s`: the node is added when its path is free and its
/// parent is a directory, and skipped otherwise.
pub open spec fn seeded(t: TreeView, s: Seed) -> TreeView {
    let q = walk(Seq::empty(), Seq::empty(), s.0);
    if q.len() > 0 && find_in(t.0, q) is None && dir_in(t, q.drop_last()) {
        (t.0.push(q), t.1.push((q.last(), s.1, s.2, s.3, s.4)))
    } else {
        t
    }
}

/// `t` after seeding every node of `seeds` in order.
pub open spec fn grow(t: TreeView, seeds: Seq<Seed>) -> TreeView
    decreases seeds.len(),
{
    if seeds.len() == 0 {
        t
    } else {
        seeded(grow(t, seeds.drop_last()), seeds.last())
    }
}

/// The tree holding the root directory alone.
pub open spec fn root_tree() -> TreeView {
    (seq![Seq::empty()], seq![(Seq::empty(), FileType::Directory, "drwxr-xr-x"@, 4096u64, None)])
}

/// The directories and files an attacker expects on a small Ubuntu server.
pub open spec fn seed_table() -> Seq<Seed> {
    seq![
        ("/home"@, FileType::Directory, "drwxr-xr-x"@, 4096u64, None),
        ("/home/admin"@, FileType::Directory, "drwxr-xr-x"@, 4096u64, None),
        ("/etc"@, FileType::Directory, "drwxr-xr-x"@, 4096u64, None),
        ("/var"@, FileType::Directory, "drwxr-xr-x"@, 4096u64, None),
        ("/tmp"@, FileType::Directory, "drwxrwxrwt"@, 4096u64, None),
        ("/usr"@, FileType::Directory, "drwxr-xr-x"@, 4096u64, None),
        ("/bin"@, FileType::Directory, "drwxr-xr-x"@, 4096u64, None),
        ("/opt"@, FileType::Directory, "drwxr-xr-x"@, 4096u64, None),
        ("/home/admin/.bashrc"@, FileType::File, "-rw-r--r--"@, 220u64, Some(BASHRC@)),
        ("/home/admin/.bash_history"@, FileType::File, "-rw-------"@, 450u64, Some(BASH_HISTORY@)),
        ("/home/admin/.ssh"@, FileType::File, "drwx------"@, 0u64, None),
        ("/etc/passwd"@, FileType::File, "-rw-r--r--"@, 1024u64, Some(PASSWD@)),
        ("/etc/shadow"@, FileType::File, "-rw-------"@, 512u64, None),
        ("/etc/hosts"@, FileType::File, "-rw-r--r--"@, 156u64, Some(HOSTS@)),
        ("/var/log"@, FileType::Directory, "drwxr-xr-x"@, 4096u64, None),
        ("/var/log/syslog"@, FileType::File, "-rw-r-----"@, 4096u64, Some(SYSLOG@)),
    ]
}

pub const BASHRC: &'static str = "# .bashrc\nexport PS1='\\u@\\h:\\w\\$ '\n";
pub const BASH_HISTORY: &'static str = "ls\npwd\nwhoami\n";
pub const PASSWD: &'static str = "root:x:0:0:root:/root:/bin/bash\nadmin:x:1000:1000::/home/admin:/bin/bash\n";
pub const HOSTS: &'static str = "127.0.0.1 localhost\n";
pub const SYSLOG: &'static str = "Dec  1 10:00:01 server systemd[1]: Started session.\n";

/// A row of the seed table as the code holds it.
pub type SeedRow = (&'static str, FileType, &'static str, u64, Option<&'static str>);

pub open spec fn seed_of(r: SeedRow) -> Seed {
    (
        r.0@,
        r.1,
        r.2@,
        r.3,
        match r.4 {
            Some(c) => Some(c@),
            None => None,
        },
    )
}

fn seed_rows() -> (r: Vec<SeedRow>)
    ensures
        r@.map_values(|x: SeedRow| seed_of(x)) == seed_table(),
{
    let r: Vec<SeedRow> = vec![
        ("/home", FileType::Directory, "drwxr-xr-x", 4096, None),
        ("/home/admin", FileType::Directory, "drwxr-xr-x", 4096, None),
        ("/etc", FileType::Directory, "drwxr-xr-x", 4096, None),
        ("/var", FileType::Directory, "drwxr-xr-x", 4096, None),
        ("/tmp", FileType::Directory, "drwxrwxrwt", 4096, None),
        ("/usr", FileType::Directory, "drwxr-xr-x", 4096, None),
        ("/bin", FileType::Directory, "drwxr-xr-x", 4096, None),
        ("/opt", FileType::Directory, "drwxr-xr-x", 4096, None),
        ("/home/admin/.bashrc", FileType::File, "-rw-r--r--", 220, Some(BASHRC)),
        ("/home/admin/.bash_history", FileType::File, "-rw-------", 450, Some(BASH_HISTORY)),
        ("/home/admin/.ssh", FileType::File, "drwx------", 0, None),
        ("/etc/passwd", FileType::File, "-rw-r--r--", 1024, Some(PASSWD)),
        ("/etc/shadow", FileType::File, "-rw-------", 512, None),
        ("/etc/hosts", FileType::File, "-rw-r--r--", 156, Some(HOSTS)),
        ("/var/log", FileType::Directory, "drwxr-xr-x", 4096, None),
        ("/var/log/syslog", FileType::File, "-rw-r-----", 4096, Some(SYSLOG)),
    ];
    assert(r@.map_values(|x: SeedRow| seed_of(x)) =~= seed_table());
    r
}

fn copy_entry(e: &FileEntry) -> (r: FileEntry)
    ensures
        same_entry(r, *e),
{
    let content = match &e.content {
        Some(c) => Some(c.clone()),
        None => None,
    };
    let children = copy_strings(&e.children);
    FileEntry {
        name: e.name.clone(),
        file_type: e.file_type,
        permissions: e.permissions.clone(),
        size: e.size,
        content,
        children,
    }
}

/// Whether two segment lists name the same path.
fn same_path(a: &Vec<String>, b: &Vec<String>) -> (r: bool)
    ensures
        r == (strings_view(a@) == strings_view(b@)),
{
    if a.len() != b.len() {
        assert(strings_view(a@).len() != strings_view(b@).len());
        return false;
    }
    let mut i: usize = 0;
    while i < a.len()
        invariant
            a.len() == b.len(),
            i <= a.len(),
            forall|k: int| 0 <= k < i ==> a@[k]@ == b@[k]@,
        decreases a.len() - i,
    {
        if a[i] != b[i] {
            assert(strings_view(a@)[i as int] != strings_view(b@)[i as int]);
            return false;
        }
        i = i + 1;
    }
    assert(strings_view(a@) =~= strings_view(b@));
    true
}

/// Applies one segment to `segs` in place.
fn apply_segment(segs: &mut Vec<String>, part: String)
    ensures
        strings_view(final(segs)@) == step(strings_view(old(segs)@), part@),
{
    let ghost before = strings_view(segs@);
    if part.unicode_len() == 0 || part == ".".to_owned() {
    } else if part == "..".to_owned() {
        if segs.len() > 0 {
            segs.pop();
            assert(strings_view(segs@) =~= before.drop_last());
        }
    } else {
        segs.push(part);
        assert(strings_view(segs@) =~= before.push(part@));
    }
}

/// Walks `p[start..]` from `base`.
fn walk_from(base: Vec<String>, p: &str, cs: &Vec<char>, start: usize) -> (r: Vec<String>)
    requires
        cs@ == p@,
        start <= cs.len(),
    ensures
        strings_view(r@) == walk(strings_view(base@), Seq::empty(), p@.subrange(
            start as int,
            p@.len() as int,
        )),
{
    let n = cs.len();
    let mut segs = base;
    let mut seg_start: usize = start;
    let mut i: usize = start;
    let ghost target = walk(strings_view(segs@), Seq::empty(), p@.subrange(start as int, n as int));
    assert(p@.subrange(start as int, start as int) =~= Seq::<char>::empty());
    while i < n
        invariant
            n == cs.len(),
            cs@ == p@,
            start <= seg_start <= i <= n,
            walk(strings_view(segs@), p@.subrange(seg_start as int, i as int), p@.subrange(
                i as int,
                n as int,
            )) == target,
        decreases n - i,
    {
        assert(p@.subrange(i as int, n as int).drop_first() =~= p@.subrange(i + 1, n as int));
        if cs[i] == '/' {
            let part = p.substring_char(seg_start, i).to_owned();
            apply_segment(&mut segs, part);
            seg_start = i + 1;
            assert(p@.subrange(seg_start as int, seg_start as int) =~= Seq::<char>::empty());
        } else {
            assert(p@.subrange(seg_start as int, i + 1) =~= p@.subrange(
                seg_start as int,
                i as int,
            ).push(cs@[i as int]));
        }
        i = i + 1;
    }
    let part = p.substring_char(seg_start, n).to_owned();
    apply_segment(&mut segs, part);
    segs
}

/// The text of `segs` as an absolute path.
fn render_path(segs: &Vec<String>) -> (r: String)
    ensures
        r@ == render(strings_view(segs@)),
{
    if segs.len() == 0 {
        return "/".to_owned();
    }
    let ghost v = strings_view(segs@);
    let mut r = String::new();
    let mut i: usize = 0;
    assert(v.subrange(0, 0) =~= Seq::<Seq<char>>::empty());
    while i < segs.len()
        invariant
            i <= segs.len(),
            v == strings_view(segs@),
            r@ == render_below(v.subrange(0, i as int)),
        decreases segs.len() - i,
    {
        assert(v.subrange(0, i + 1).drop_last() =~= v.subrange(0, i as int));
        r = r.concat("/");
        r = r.concat(segs[i].as_str());
        i = i + 1;
    }
    assert(v.subrange(0, i as int) =~= v);
    r
}

impl FakeFilesystem {
    /// The canonical path of every node, in the order the nodes were added.
    pub closed spec fn paths(&self) -> Seq<Segments> {
        self.nodes@.map_values(|n: Node| strings_view(n.segments@))
    }

    /// What each node shows, in the same order as `paths`.
    pub closed spec fn entries(&self) -> Seq<FileEntry> {
        self.nodes@.map_values(|n: Node| n.entry)
    }

    /// The working directory.
    pub closed spec fn cwd(&self) -> Segments {
        strings_view(self.current@)
    }

    /// The paths and entry views of all nodes.
    pub open spec fn tree(&self) -> TreeView {
        (self.paths(), self.entries().map_values(|e: FileEntry| entry_view(e)))
    }

    proof fn lemma_dir_in_tree(&self, p: Segments)
        requires
            self.paths().len() == self.entries().len(),
        ensures
            self.is_dir(p) == dir_in(self.tree(), p),
    {
        lemma_find_in(self.paths(), p);
    }

    /// The entry stored at the path `p`, if any.
    pub open spec fn entry_at(&self, p: Segments) -> Option<FileEntry> {
        match find_in(self.paths(), p) {
            Some(i) => Some(self.entries()[i]),
            None => None,
        }
    }

    /// `p` names a directory of the tree.
    pub open spec fn is_dir(&self, p: Segments) -> bool {
        self.entry_at(p) matches Some(e) && e.file_type == FileType::Directory
    }

    /// Paths are unique and canonical, the root is a directory, every other
    /// node lies inside a directory, and the working directory is one.
    pub open spec fn wf(&self) -> bool {
        &&& self.paths().len() == self.entries().len()
        &&& forall|i: int, j: int|
            0 <= i < j < self.paths().len() ==> self.paths()[i] != self.paths()[j]
        &&& forall|i: int| 0 <= i < self.paths().len() ==> canonical(#[trigger] self.paths()[i])
        &&& self.is_dir(Seq::empty())
        &&& forall|i: int|
            0 <= i < self.paths().len() && self.paths()[i].len() > 0 ==> self.is_dir(
                #[trigger] self.paths()[i].drop_last(),
            )
        &&& canonical(self.cwd())
        &&& self.is_dir(self.cwd())
    }

    /// The directory a listing of `path` (the working directory when
    /// absent) looks into.
    pub open spec fn list_target(&self, path: Option<Seq<char>>) -> Segments {
        match path {
            Some(p) => resolve(self.cwd(), p),
            None => self.cwd(),
        }
    }

    /// What listing `t` yields: the entries directly inside it, or an error
    /// when `t` names no node and nothing lies inside it.
    pub open spec fn list_outcome(&self, t: Segments) -> Result<Seq<FileEntry>, Seq<char>> {
        let kids = children_of(self.paths(), self.entries(), t);
        if kids.len() == 0 && self.entry_at(t) is None {
            Err("ls: cannot access '"@ + render(t) + "': No such file or directory"@)
        } else {
            Ok(kids)
        }
    }

    /// What reading `path` yields, for a user without root rights.
    pub open spec fn read_outcome(&self, path: Seq<char>) -> Result<Seq<char>, Seq<char>> {
        match self.entry_at(resolve(self.cwd(), path)) {
            None => Err("cat: "@ + path + ": No such file or directory"@),
            Some(e) => match e.file_type {
                FileType::Directory => Err("cat: "@ + path + ": Is a directory"@),
                FileType::File => if other_may_read(e.permissions@) {
                    Ok(content_of(e))
                } else {
                    Err("cat: "@ + path + ": Permission denied"@)
                },
                FileType::Symlink => Ok(content_of(e)),
            },
        }
    }

    /// Where changing to `path` leads: the new working directory, or the
    /// error shown.
    pub open spec fn cd_outcome(&self, path: Seq<char>) -> Result<Segments, Seq<char>> {
        let p = resolve(self.cwd(), path);
        match self.entry_at(p) {
            None => Err("cd: "@ + path + ": No such file or directory"@),
            Some(e) => if e.file_type == FileType::Directory {
                Ok(p)
            } else {
                Err("cd: "@ + path + ": Not a directory"@)
            },
        }
    }

    /// The seeded tree, with `/home/admin` as working directory.
    pub fn new() -> (r: Self)
        ensures
            r.wf(),
            r.tree() == grow(root_tree(), seed_table()),
            r.cwd() == if dir_in(r.tree(), home_path()) {
                home_path()
            } else {
                Seq::<Seq<char>>::empty()
            },
    {
        let root = FileEntry {
            name: String::new(),
            file_type: FileType::Directory,
            permissions: "drwxr-xr-x".to_owned(),
            size: 4096,
            content: None,
            children: Vec::new(),
        };
        let mut fs = FakeFilesystem {
            nodes: vec![Node { segments: Vec::new(), entry: root }],
            current: Vec::new(),
        };
        proof {
            let paths = fs.paths();
            assert(paths[0] =~= Seq::<Seq<char>>::empty());
            assert(find_in(paths, Seq::empty()) == Some(0int)) by {
                assert(paths.last() == paths[0]);
            }
            assert(fs.cwd() =~= Seq::<Seq<char>>::empty());
        }
        assert(fs.tree().1 =~= root_tree().1);
        assert(fs.tree() == root_tree());
        fs.initialize_structure();
        let home = vec!["home".to_owned(), "admin".to_owned()];
        assert(strings_view(home@) =~= home_path());
        proof {
            fs.lemma_dir_in_tree(home_path());
            lemma_home_canonical();
        }
        match fs.find(&home) {
            Some(j) => {
                assert(fs.entries()[j as int] == fs.nodes@[j as int].entry);
                if fs.nodes[j].entry.file_type == FileType::Directory {
                    fs.current = home;
                }
            },
            None => {},
        }
        fs
    }

    /// The index of the node at `p`.
    fn find(&self, p: &Vec<String>) -> (r: Option<usize>)
        ensures
            r matches Some(i) ==> find_in(self.paths(), strings_view(p@)) == Some(i as int) && i
                < self.nodes@.len() && self.paths()[i as int] == strings_view(p@),
            r is None ==> find_in(self.paths(), strings_view(p@)) is None,
    {
        proof {
            lemma_find_in(self.paths(), strings_view(p@));
        }
        let ghost paths = self.paths();
        let ghost t = strings_view(p@);
        let mut i: usize = self.nodes.len();
        assert(paths.subrange(0, i as int) =~= paths);
        while i > 0
            invariant
                i <= self.nodes.len(),
                paths == self.paths(),
                t == strings_view(p@),
                find_in(paths, t) == find_in(paths.subrange(0, i as int), t),
            decreases i,
        {
            let ghost pre = paths.subrange(0, i as int);
            assert(pre.drop_last() =~= paths.subrange(0, i - 1));
            assert(pre.last() == paths[i - 1]);
            assert(paths[i - 1] == strings_view(self.nodes@[i - 1].segments@));
            assert(pre.len() == i);
            if same_path(&self.nodes[i - 1].segments, p) {
                return Some(i - 1);
            }
            i = i - 1;
        }
        None
    }

    /// Adds a node at the absolute path `path` when the path is free and its
    /// parent is a directory; otherwise leaves the tree as it is.
    fn add_entry(
        &mut self,
        path: &str,
        file_type: FileType,
        permissions: &str,
        size: u64,
        content: Option<String>,
    ) -> (added: bool)
        requires
            old(self).wf(),
        ensures
            final(self).wf(),
            final(self).cwd() == old(self).cwd(),
            final(self).tree() == seeded(
                old(self).tree(),
                (
                    path@,
                    file_type,
                    permissions@,
                    size,
                    match content {
                        Some(c) => Some(c@),
                        None => None,
                    },
                ),
            ),
    {
        let cs = chars_of(path);
        assert(path@.subrange(0, path@.len() as int) =~= path@);
        let base: Vec<String> = Vec::new();
        assert(strings_view(base@) =~= Seq::<Seq<char>>::empty());
        let segs = walk_from(base, path, &cs, 0);
        proof {
            assert(!Seq::<char>::empty().contains('/'));
            assert(canonical(Seq::<Seq<char>>::empty()));
            lemma_walk_canonical(Seq::empty(), Seq::empty(), path@);
        }
        if segs.len() == 0 {
            return false;
        }
        if self.find(&segs).is_some() {
            return false;
        }
        let mut parent = copy_strings(&segs);
        parent.pop();
        assert(strings_view(parent@) =~= strings_view(segs@).drop_last());
        proof {
            self.lemma_dir_in_tree(strings_view(parent@));
        }
        match self.find(&parent) {
            Some(j) => {
                assert(self.entries()[j as int] == self.nodes@[j as int].entry);
                if self.nodes[j].entry.file_type != FileType::Directory {
                    return false;
                }
                proof {
                    lemma_find_in(self.paths(), strings_view(parent@));
                }
            },
            None => {
                return false;
            },
        }
        let name = segs[segs.len() - 1].clone();
        let entry = FileEntry {
            name,
            file_type,
            permissions: permissions.to_owned(),
            size,
            content,
            children: Vec::new(),
        };
        let ghost q = strings_view(segs@);
        let ghost old_paths = self.paths();
        let ghost old_entries = self.entries();
        let ghost old_self = *self;
        proof {
            lemma_find_in(old_paths, q);
        }
        self.nodes.push(Node { segments: segs, entry });
        proof {
            assert(self.paths() =~= old_paths.push(q));
            assert(self.entries() =~= old_entries.push(entry));
            assert(entry.name@ == q.last());
            assert(self.tree().1 =~= old_self.tree().1.push(entry_view(entry)));
            assert forall|p: Segments| old_self.is_dir(p) implies #[trigger] self.is_dir(p) by {
                lemma_find_in(old_paths, p);
                assert(p != q);
                assert(old_paths.push(q).drop_last() =~= old_paths);
                assert(find_in(self.paths(), p) == find_in(old_paths, p));
            }
            assert forall|i: int, j: int|
                0 <= i < j < self.paths().len() implies self.paths()[i] != self.paths()[j] by {
                if j == old_paths.len() {
                    assert(self.paths()[i] == old_paths[i]);
                }
            }
            assert forall|i: int| 0 <= i < self.paths().len() implies canonical(
                #[trigger] self.paths()[i],
            ) by {
                if i < old_paths.len() {
                    assert(self.paths()[i] == old_paths[i]);
                }
            }
            assert forall|i: int|
                0 <= i < self.paths().len() && self.paths()[i].len() > 0 implies self.is_dir(
                #[trigger] self.paths()[i].drop_last(),
            ) by {
                if i < old_paths.len() {
                    assert(self.paths()[i] == old_paths[i]);
                    assert(old_self.is_dir(old_paths[i].drop_last()));
                } else {
                    assert(self.paths()[i] == q);
                    assert(old_self.is_dir(q.drop_last()));
                }
            }
            assert(old_self.is_dir(Seq::empty()));
            assert(old_self.is_dir(old_self.cwd()));
        }
        true
    }

    /// Seeds the directories and files of the seed table, in order.
    fn initialize_structure(&mut self)
        requires
            old(self).wf(),
        ensures
            final(self).wf(),
            final(self).cwd() == old(self).cwd(),
            final(self).tree() == grow(old(self).tree(), seed_table()),
    {
        let rows = seed_rows();
        let ghost t0 = self.tree();
        let ghost c0 = self.cwd();
        let mut i: usize = 0;
        assert(seed_table().subrange(0, 0) =~= Seq::<Seed>::empty());
        while i < rows.len()
            invariant
                i <= rows.len(),
                rows@.map_values(|x: SeedRow| seed_of(x)) == seed_table(),
                self.wf(),
                self.cwd() == c0,
                self.tree() == grow(t0, seed_table().subrange(0, i as int)),
            decreases rows.len() - i,
        {
            let (path, file_type, permissions, size, content) = rows[i];
            let owned = match content {
                Some(c) => Some(c.to_owned()),
                None => None,
            };
            assert(seed_table()[i as int] == seed_of(rows@[i as int]));
            assert(seed_table().subrange(0, i + 1).drop_last() =~= seed_table().subrange(
                0,
                i as int,
            ));
            let _ = self.add_entry(path, file_type, permissions, size, owned);
            i = i + 1;
        }
        assert(seed_table().subrange(0, i as int) =~= seed_table());
    }

    /// Lists the entries directly inside `path` (the working directory when
    /// absent); fails when the path names no node and nothing lies inside it.
    pub fn list_dir(&self, path: Option<&str>) -> (r: Result<Vec<FileEntry>, String>)
        requires
            self.wf(),
        ensures
            match self.list_outcome(
                self.list_target(
                    match path {
                        Some(p) => Some(p@),
                        None => None,
                    },
                ),
            ) {
                Ok(kids) => r matches Ok(v) && v@.len() == kids.len() && forall|i: int|
                    0 <= i < kids.len() ==> same_entry(#[trigger] v@[i], kids[i]),
                Err(m) => r matches Err(e) && e@ == m,
            },
    {
        let target = match path {
            Some(p) => self.resolve_path(p),
            None => copy_strings(&self.current),
        };
        let ghost t = strings_view(target@);
        let ghost paths = self.paths();
        let ghost entries = self.entries();
        let mut out: Vec<FileEntry> = Vec::new();
        let mut i: usize = 0;
        let tn = target.len();
        assert(paths.subrange(0, 0) =~= Seq::<Segments>::empty());
        while i < self.nodes.len()
            invariant
                i <= self.nodes.len(),
                paths == self.paths(),
                entries == self.entries(),
                paths.len() == entries.len(),
                t == strings_view(target@),
                tn == target.len(),
                ({
                    let kids = children_of(paths.subrange(0, i as int), entries.subrange(0, i as int), t);
                    out@.len() == kids.len() && forall|k: int|
                        0 <= k < kids.len() ==> same_entry(#[trigger] out@[k], kids[k])
                }),
            decreases self.nodes.len() - i,
        {
            assert(paths.subrange(0, i + 1).drop_last() =~= paths.subrange(0, i as int));
            assert(entries.subrange(0, i + 1).drop_last() =~= entries.subrange(0, i as int));
            let node = &self.nodes[i];
            let mut child = false;
            if node.segments.len() > tn && node.segments.len() - 1 == tn {
                let mut k: usize = 0;
                child = true;
                while k < tn
                    invariant
                        k <= tn,
                        tn == target.len(),
                        node.segments.len() == tn + 1,
                        child == forall|m: int| 0 <= m < k ==> node.segments@[m]@ == target@[m]@,
                    decreases tn - k,
                {
                    if node.segments[k] != target[k] {
                        child = false;
                    }
                    k = k + 1;
                }
                proof {
                    let q = strings_view(node.segments@);
                    if child {
                        assert(q.subrange(0, tn as int) =~= t);
                    } else {
                        let m = choose|m: int| 0 <= m < tn && node.segments@[m]@ != target@[m]@;
                        assert(q.subrange(0, tn as int)[m] != t[m]);
                    }
                }
            }
            assert(paths[i as int] == strings_view(node.segments@));
            assert(child == is_child(paths[i as int], t));
            if child {
                let e = copy_entry(&node.entry);
                out.push(e);
            }
            i = i + 1;
        }
        assert(paths.subrange(0, i as int) =~= paths);
        assert(entries.subrange(0, i as int) =~= entries);
        if out.len() == 0 && self.find(&target).is_none() {
            let m = "ls: cannot access '".to_owned().concat(render_path(&target).as_str()).concat(
                "': No such file or directory",
            );
            return Err(m);
        }
        Ok(out)
    }

    /// The content of the file at `path`, as a user without root rights
    /// sees it.
    pub fn read_file(&self, path: &str) -> (r: Result<String, String>)
        requires
            self.wf(),
        ensures
            match self.read_outcome(path@) {
                Ok(c) => r matches Ok(v) && v@ == c,
                Err(m) => r matches Err(e) && e@ == m,
            },
    {
        let full = self.resolve_path(path);
        match self.find(&full) {
            None => Err("cat: ".to_owned().concat(path).concat(": No such file or directory")),
            Some(i) => {
                let e = &self.nodes[i].entry;
                assert(self.entries()[i as int] == *e);
                match e.file_type {
                    FileType::File => {
                        let perms = chars_of(e.permissions.as_str());
                        if perms.len() >= 10 && perms[7] == 'r' {
                            Ok(Self::content_text(e))
                        } else {
                            Err("cat: ".to_owned().concat(path).concat(": Permission denied"))
                        }
                    },
                    FileType::Directory => Err(
                        "cat: ".to_owned().concat(path).concat(": Is a directory"),
                    ),
                    FileType::Symlink => Ok(Self::content_text(e)),
                }
            },
        }
    }

    fn content_text(e: &FileEntry) -> (r: String)
        ensures
            r@ == content_of(*e),
    {
        match &e.content {
            Some(c) => c.clone(),
            None => String::new(),
        }
    }

    /// Moves the working directory to `path` when it names a directory.
    pub fn change_dir(&mut self, path: &str) -> (r: Result<(), String>)
        requires
            old(self).wf(),
        ensures
            final(self).wf(),
            final(self).paths() == old(self).paths(),
            final(self).entries() == old(self).entries(),
            match old(self).cd_outcome(path@) {
                Ok(p) => r is Ok && final(self).cwd() == p,
                Err(m) => r matches Err(e) && e@ == m && final(self).cwd() == old(self).cwd(),
            },
    {
        let target = self.resolve_path(path);
        match self.find(&target) {
            None => Err("cd: ".to_owned().concat(path).concat(": No such file or directory")),
            Some(i) => {
                if self.nodes[i].entry.file_type == FileType::Directory {
                    proof {
                        lemma_resolve_canonical(self.cwd(), path@);
                    }
                    self.current = target;
                    Ok(())
                } else {
                    Err("cd: ".to_owned().concat(path).concat(": Not a directory"))
                }
            },
        }
    }

    /// The working directory as an absolute path.
    pub fn current_dir(&self) -> (r: String)
        ensures
            r@ == render(self.cwd()),
    {
        render_path(&self.current)
    }

    /// The canonical path that `path` names from the working directory.
    fn resolve_path(&self, path: &str) -> (r: Vec<String>)
        ensures
            strings_view(r@) == resolve(self.cwd(), path@),
    {
        let cs = chars_of(path);
        if cs.len() > 0 && cs[0] == '/' {
            assert(path@.subrange(0, path@.len() as int) =~= path@);
            let base: Vec<String> = Vec::new();
            assert(strings_view(base@) =~= Seq::<Seq<char>>::empty());
            walk_from(base, path, &cs, 0)
        } else if cs.len() > 0 && cs[0] == '~' && (cs.len() == 1 || cs[1] == '/') {
            assert(path@.subrange(1, path@.len() as int) =~= path@.drop_first());
            let home = vec!["home".to_owned(), "admin".to_owned()];
            assert(strings_view(home@) =~= home_path());
            walk_from(home, path, &cs, 1)
        } else {
            assert(path@.subrange(0, path@.len() as int) =~= path@);
            walk_from(copy_strings(&self.current), path, &cs, 0)
        }
    }

    /// Whether `path` names a node of the tree.
    pub fn path_exists(&self, path: &str) -> (r: bool)
        ensures
            r == self.entry_at(resolve(self.cwd(), path@)) is Some,
    {
        let full = self.resolve_path(path);
        self.find(&full).is_some()
    }
}

proof fn lemma_find_in(paths: Seq<Segments>, p: Segments)
    ensures
        match find_in(paths, p) {
            Some(i) => 0 <= i < paths.len() && paths[i] == p,
            None => forall|i: int| 0 <= i < paths.len() ==> paths[i] != p,
        },
    decreases paths.len(),
{
    if paths.len() > 0 && paths.last() != p {
        let pre = paths.drop_last();
        lemma_find_in(pre, p);
        match find_in(pre, p) {
            Some(i) => {
                assert(pre[i] == paths[i]);
            },
            None => {
                assert forall|i: int| 0 <= i < paths.len() implies paths[i] != p by {
                    if i < pre.len() {
                        assert(pre[i] == paths[i]);
                    }
                }
            },
        }
    }
}

/// Walking from a canonical path yields a canonical path.
proof fn lemma_walk_canonical(segs: Segments, cur: Seq<char>, rest: Seq<char>)
    requires
        canonical(segs),
        !cur.contains('/'),
    ensures
        canonical(walk(segs, cur, rest)),
    decreases rest.len(),
{
    assert(canonical(step(segs, cur))) by {
        if !(cur.len() == 0 || cur == "."@) && cur != ".."@ {
            assert(step(segs, cur) == segs.push(cur));
            assert forall|i: int| 0 <= i < segs.push(cur).len() implies canonical_segment(
                #[trigger] segs.push(cur)[i],
            ) by {
                if i < segs.len() {
                    assert(segs.push(cur)[i] == segs[i]);
                }
            }
        } else if cur == ".."@ && segs.len() > 0 {
            assert forall|i: int| 0 <= i < segs.drop_last().len() implies canonical_segment(
                #[trigger] segs.drop_last()[i],
            ) by {
                assert(segs.drop_last()[i] == segs[i]);
            }
        }
    }
    if rest.len() > 0 {
        if rest[0] == '/' {
            assert(!Seq::<char>::empty().contains('/'));
            lemma_walk_canonical(step(segs, cur), Seq::empty(), rest.drop_first());
        } else {
            assert(!cur.push(rest[0]).contains('/')) by {
                if cur.push(rest[0]).contains('/') {
                    let k = choose|k: int|
                        0 <= k < cur.push(rest[0]).len() && cur.push(rest[0])[k] == '/';
                    if k < cur.len() {
                        assert(cur[k] == '/');
                    }
                }
            }
            lemma_walk_canonical(segs, cur.push(rest[0]), rest.drop_first());
        }
    }
}

proof fn lemma_home_canonical()
    ensures
        canonical(home_path()),
{
    reveal_strlit("home");
    reveal_strlit("admin");
    reveal_strlit(".");
    reveal_strlit("..");
    assert("home"@ =~= seq!['h', 'o', 'm', 'e']);
    assert("admin"@ =~= seq!['a', 'd', 'm', 'i', 'n']);
    assert("."@ =~= seq!['.']);
    assert(".."@ =~= seq!['.', '.']);
    assert(canonical_segment(home_path()[0]));
    assert(canonical_segment(home_path()[1]));
}

/// Every resolved path is canonical when the working directory is.
pub proof fn lemma_resolve_canonical(cwd: Segments, p: Seq<char>)
    requires
        canonical(cwd),
    ensures
        canonical(resolve(cwd, p)),
{
    assert(!Seq::<char>::empty().contains('/'));
    assert(canonical(Seq::<Seq<char>>::empty()));
    lemma_home_canonical();
    if p.len() > 0 && p[0] == '/' {
        lemma_walk_canonical(Seq::empty(), Seq::empty(), p);
    } else if p.len() > 0 && p[0] == '~' && (p.len() == 1 || p[1] == '/') {
        lemma_walk_canonical(home_path(), Seq::empty(), p.drop_first());
    } else {
        lemma_walk_canonical(cwd, Seq::empty(), p);
    }
}

/// Changing directory always lands on a canonical absolute path: whatever
/// `p` is, the directory that `change_dir(p)` moves to, `resolve(cwd, p)`,
/// holds only proper segment names (no empty, `.`, `..` or `/` inside), so
/// `current_dir()` shows it in canonical form; and `..` from the root stays
/// at the root.
pub proof fn lemma_change_dir_canonical(cwd: Segments, p: Seq<char>)
    requires
        canonical(cwd),
    ensures
        canonical(resolve(cwd, p)),
        resolve(Seq::empty(), ".."@) == Seq::<Seq<char>>::empty(),
{
    lemma_resolve_canonical(cwd, p);
    reveal_strlit("..");
    reveal_strlit(".");
    let dd = ".."@;
    assert(dd =~= seq!['.', '.']);
    assert(dd.drop_first() =~= seq!['.']);
    assert(dd.drop_first().drop_first() =~= Seq::<char>::empty());
    assert(Seq::<char>::empty().push('.') =~= seq!['.']);
    assert(seq!['.'].push('.') =~= dd);
    assert(walk(Seq::empty(), seq!['.', '.'], Seq::empty()) == Seq::<Seq<char>>::empty());
    assert(walk(Seq::empty(), seq!['.'], dd.drop_first()) == Seq::<Seq<char>>::empty());
    assert(walk(Seq::empty(), Seq::empty(), dd) == Seq::<Seq<char>>::empty());
}

/// The walker's state after reading `rest`, before its last segment is
/// applied.
pub open spec fn walk_state(segs: Segments, cur: Seq<char>, rest: Seq<char>) -> (Segments, Seq<char>)
    decreases rest.len(),
{
    if rest.len() == 0 {
        (segs, cur)
    } else if rest[0] == '/' {
        walk_state(step(segs, cur), Seq::empty(), rest.drop_first())
    } else {
        walk_state(segs, cur.push(rest[0]), rest.drop_first())
    }
}

proof fn lemma_walk_is_state(segs: Segments, cur: Seq<char>, rest: Seq<char>)
    ensures
        walk(segs, cur, rest) == step(walk_state(segs, cur, rest).0, walk_state(segs, cur, rest).1),
    decreases rest.len(),
{
    if rest.len() > 0 {
        if rest[0] == '/' {
            lemma_walk_is_state(step(segs, cur), Seq::empty(), rest.drop_first());
        } else {
            lemma_walk_is_state(segs, cur.push(rest[0]), rest.drop_first());
        }
    }
}

proof fn lemma_walk_state_concat(segs: Segments, cur: Seq<char>, a: Seq<char>, b: Seq<char>)
    ensures
        walk_state(segs, cur, a + b) == walk_state(
            walk_state(segs, cur, a).0,
            walk_state(segs, cur, a).1,
            b,
        ),
    decreases a.len(),
{
    if a.len() == 0 {
        assert(a + b =~= b);
    } else {
        assert((a + b)[0] == a[0]);
        assert((a + b).drop_first() =~= a.drop_first() + b);
        if a[0] == '/' {
            lemma_walk_state_concat(step(segs, cur), Seq::empty(), a.drop_first(), b);
        } else {
            lemma_walk_state_concat(segs, cur.push(a[0]), a.drop_first(), b);
        }
    }
}

proof fn lemma_walk_state_plain(segs: Segments, cur: Seq<char>, x: Seq<char>)
    requires
        !x.contains('/'),
    ensures
        walk_state(segs, cur, x) == (segs, cur + x),
    decreases x.len(),
{
    if x.len() == 0 {
        assert(cur + x =~= cur);
    } else {
        assert(x[0] != '/') by {
            if x[0] == '/' {
                assert(x.contains('/'));
            }
        }
        assert(!x.drop_first().contains('/')) by {
            if x.drop_first().contains('/') {
                let k = choose|k: int| 0 <= k < x.drop_first().len() && x.drop_first()[k] == '/';
                assert(x[k + 1] == '/');
            }
        }
        lemma_walk_state_plain(segs, cur.push(x[0]), x.drop_first());
        assert(cur.push(x[0]) + x.drop_first() =~= cur + x);
    }
}

proof fn lemma_walk_state_render(base: Segments, q: Segments)
    requires
        canonical(q),
        q.len() > 0,
    ensures
        walk_state(base, Seq::empty(), render_below(q)) == (base + q.drop_last(), q.last()),
        render_below(q).len() > 0 && render_below(q)[0] == '/',
    decreases q.len(),
{
    reveal_strlit("/");
    assert("/"@ =~= seq!['/']);
    let pre = q.drop_last();
    let x = q.last();
    assert(canonical_segment(q[q.len() - 1]));
    let tail = "/"@ + x;
    assert(render_below(q) == render_below(pre) + "/"@ + x);
    assert(render_below(pre) + "/"@ + x =~= render_below(pre) + tail);
    assert(tail[0] == '/');
    assert(tail.drop_first() =~= x);
    lemma_walk_state_concat(base, Seq::empty(), render_below(pre), tail);
    if pre.len() == 0 {
        assert(render_below(pre) + tail =~= tail);
        assert(walk_state(base, Seq::empty(), render_below(pre)) == (base, Seq::<char>::empty()));
        lemma_walk_state_plain(step(base, Seq::empty()), Seq::empty(), x);
        assert(Seq::<char>::empty() + x =~= x);
        assert(base + pre =~= base);
    } else {
        assert forall|i: int| 0 <= i < pre.len() implies canonical_segment(#[trigger] pre[i]) by {
            assert(pre[i] == q[i]);
        }
        lemma_walk_state_render(base, pre);
        let mid = walk_state(base, Seq::empty(), render_below(pre));
        assert(canonical_segment(pre[pre.len() - 1]));
        assert(step(mid.0, mid.1) == mid.0.push(mid.1));
        assert((base + pre.drop_last()).push(pre.last()) =~= base + pre);
        lemma_walk_state_plain(base + pre, Seq::empty(), x);
        assert(Seq::<char>::empty() + x =~= x);
        assert((render_below(pre) + tail)[0] == render_below(pre)[0]);
    }
}

/// Rendering a canonical path and resolving the text again, from any
/// working directory, gives the same path back: what `current_dir()` shows
/// after `change_dir(p)` is the canonical absolute form of `p`.
pub proof fn lemma_render_resolves(q: Segments, cwd: Segments)
    requires
        canonical(q),
    ensures
        resolve(cwd, render(q)) == q,
{
    reveal_strlit("/");
    assert("/"@ =~= seq!['/']);
    if q.len() == 0 {
        assert("/"@.drop_first() =~= Seq::<char>::empty());
        assert(walk(Seq::empty(), Seq::empty(), "/"@) == walk(
            step(Seq::empty(), Seq::empty()),
            Seq::empty(),
            Seq::<char>::empty(),
        ));
        assert(q =~= Seq::<Seq<char>>::empty());
    } else {
        lemma_walk_state_render(Seq::empty(), q);
        lemma_walk_is_state(Seq::empty(), Seq::empty(), render_below(q));
        assert(Seq::<Seq<char>>::empty() + q.drop_last() =~= q.drop_last());
        assert(canonical_segment(q[q.len() - 1]));
        assert(q.drop_last().push(q.last()) =~= q);
    }
}

} // verus!
