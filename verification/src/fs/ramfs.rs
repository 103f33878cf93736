//! RAM filesystem: an in-memory tree of inodes and directory entries.
use vstd::prelude::*;
use vstd::std_specs::btree::*;
use std::collections::BTreeMap;

use super::{InodeType, FsError, FsResult, Stat, DirEntry, DirEntryView};
use super::path::{self, normalize_spec, components_spec, path_stack, join_input, is_dot, is_dotdot, no_slash,
    lemma_components_of_normal, lemma_join_stack};

verus! {

broadcast use vstd::std_specs::btree::group_btree_axioms;

/// Maximum file size (1MB)
pub const MAX_FILE_SIZE: usize = 1024 * 1024;

/// An inode representing a file or directory
#[derive(Debug)]
pub struct Inode {
    /// Unique inode ID
    pub id: u64,
    /// Type of inode (file, directory, symlink)
    pub inode_type: InodeType,
    /// Name of this entry
    pub name: String,
    /// Size in bytes (for files)
    pub size: usize,
    /// Unix-style permissions (e.g., 0o755)
    pub permissions: u16,
    /// Owner user ID
    pub uid: u32,
    /// Owner group ID
    pub gid: u32,
    /// File data (for files)
    pub data: Vec<u8>,
    /// Child inode IDs (for directories)
    pub children: Vec<u64>,
    /// Parent inode ID (None for root)
    pub parent: Option<u64>,
}

/// Mathematical value of an inode.
#[verifier::ext_equal]
pub struct InodeView {
    pub id: u64,
    pub inode_type: InodeType,
    pub name: Seq<char>,
    pub size: usize,
    pub permissions: u16,
    pub uid: u32,
    pub gid: u32,
    pub data: Seq<u8>,
    pub children: Seq<u64>,
    pub parent: Option<u64>,
}

impl View for Inode {
    type V = InodeView;

    open spec fn view(&self) -> InodeView {
        InodeView {
            id: self.id,
            inode_type: self.inode_type,
            name: self.name@,
            size: self.size,
            permissions: self.permissions,
            uid: self.uid,
            gid: self.gid,
            data: self.data@,
            children: self.children@,
            parent: self.parent,
        }
    }
}

impl InodeView {
    pub open spec fn stat(self) -> Stat {
        Stat {
            inode: self.id,
            inode_type: self.inode_type,
            size: self.size,
            permissions: self.permissions,
            uid: self.uid,
            gid: self.gid,
        }
    }

    pub open spec fn entry(self) -> DirEntryView {
        DirEntryView { name: self.name, inode: self.id, inode_type: self.inode_type, size: self.size }
    }
}

/// A fresh inode of the given type, name, owner and parent.
pub open spec fn fresh_inode(id: u64, inode_type: InodeType, name: Seq<char>, parent: Option<u64>, uid: u32, gid: u32) -> InodeView {
    InodeView {
        id,
        inode_type,
        name,
        size: 0,
        permissions: if inode_type == InodeType::Directory { 0o755 } else { 0o644 },
        uid,
        gid,
        data: Seq::empty(),
        children: Seq::empty(),
        parent,
    }
}

impl Inode {
    /// Create a new file inode with specified owner
    pub fn new_file(id: u64, name: String, parent: u64, uid: u32, gid: u32) -> (r: Inode)
        ensures
            r@ == fresh_inode(id, InodeType::File, name@, Some(parent), uid, gid),
    {
        Inode {
            id,
            inode_type: InodeType::File,
            name,
            size: 0,
            permissions: 0o644,
            uid,
            gid,
            data: Vec::new(),
            children: Vec::new(),
            parent: Some(parent),
        }
    }

    /// Create a new directory inode with specified owner
    pub fn new_directory(id: u64, name: String, parent: Option<u64>, uid: u32, gid: u32) -> (r: Inode)
        ensures
            r@ == fresh_inode(id, InodeType::Directory, name@, parent, uid, gid),
    {
        Inode {
            id,
            inode_type: InodeType::Directory,
            name,
            size: 0,
            permissions: 0o755,
            uid,
            gid,
            data: Vec::new(),
            children: Vec::new(),
            parent,
        }
    }

    /// Create a new file inode with specific owner
    pub fn new_file_with_owner(id: u64, name: String, parent: u64, uid: u32, gid: u32) -> (r: Inode)
        ensures
            r@ == fresh_inode(id, InodeType::File, name@, Some(parent), uid, gid),
    {
        Inode::new_file(id, name, parent, uid, gid)
    }

    /// Get metadata as Stat
    pub fn stat(&self) -> (s: Stat)
        ensures
            s == self@.stat(),
    {
        Stat {
            inode: self.id,
            inode_type: self.inode_type,
            size: self.size,
            permissions: self.permissions,
            uid: self.uid,
            gid: self.gid,
        }
    }
}

pub type FsMap = Map<u64, InodeView>;

/// The first child in `children` that exists and is called `name`.
pub open spec fn find_child(m: FsMap, children: Seq<u64>, name: Seq<char>) -> Option<u64>
    decreases children.len(),
{
    if children.len() == 0 {
        None
    } else if m.contains_key(children[0]) && m[children[0]].name == name {
        Some(children[0])
    } else {
        find_child(m, children.drop_first(), name)
    }
}

/// Resolve the components `comps` starting from directory `cur`.
pub open spec fn walk(m: FsMap, cur: u64, comps: Seq<Seq<char>>) -> FsResult<u64>
    decreases comps.len(),
{
    if comps.len() == 0 {
        Ok(cur)
    } else if !m.contains_key(cur) {
        Err(FsError::NotFound)
    } else if m[cur].inode_type != InodeType::Directory {
        Err(FsError::NotADirectory)
    } else {
        match find_child(m, m[cur].children, comps[0]) {
            Some(c) => walk(m, c, comps.drop_first()),
            None => Err(FsError::NotFound),
        }
    }
}

/// The inode that `path` names, starting at `root`.
pub open spec fn lookup_spec(m: FsMap, root: u64, path: Seq<char>) -> FsResult<u64> {
    let n = normalize_spec(path);
    if n == seq!['/'] {
        Ok(root)
    } else {
        walk(m, root, components_spec(n))
    }
}

/// Changing an inode's contents, and not its name, type or children, leaves every
/// name lookup as it was.
pub proof fn lemma_lookup_keeps(m: FsMap, root: u64, path: Seq<char>, id: u64, v: InodeView)
    requires
        m.contains_key(id),
        v.name == m[id].name,
        v.inode_type == m[id].inode_type,
        v.children == m[id].children,
    ensures
        lookup_spec(m.insert(id, v), root, path) == lookup_spec(m, root, path),
{
    let n = normalize_spec(path);
    if n != seq!['/'] {
        lemma_walk_keeps(m, root, components_spec(n), id, v);
    }
}

proof fn lemma_find_child_keeps(m: FsMap, children: Seq<u64>, name: Seq<char>, id: u64, v: InodeView)
    requires
        m.contains_key(id),
        v.name == m[id].name,
    ensures
        find_child(m.insert(id, v), children, name) == find_child(m, children, name),
    decreases children.len(),
{
    if children.len() > 0 {
        lemma_find_child_keeps(m, children.drop_first(), name, id, v);
    }
}

proof fn lemma_walk_keeps(m: FsMap, cur: u64, comps: Seq<Seq<char>>, id: u64, v: InodeView)
    requires
        m.contains_key(id),
        v.name == m[id].name,
        v.inode_type == m[id].inode_type,
        v.children == m[id].children,
    ensures
        walk(m.insert(id, v), cur, comps) == walk(m, cur, comps),
    decreases comps.len(),
{
    if comps.len() > 0 && m.contains_key(cur) {
        let m2 = m.insert(id, v);
        assert(m2[cur].children == m[cur].children && m2[cur].inode_type == m[cur].inode_type);
        lemma_find_child_keeps(m, m[cur].children, comps[0], id, v);
        match find_child(m, m[cur].children, comps[0]) {
            Some(c) => {
                lemma_walk_keeps(m, c, comps.drop_first(), id, v);
            },
            None => {},
        }
    }
}

/// What `find_child` finds is a listed, existing inode of that name; it finds
/// nothing only when no listed, existing inode has the name.
pub proof fn lemma_find_child_facts(m: FsMap, ch: Seq<u64>, name: Seq<char>)
    ensures
        find_child(m, ch, name) matches Some(v) ==> ch.contains(v) && m.contains_key(v) && m[v].name == name,
        find_child(m, ch, name) is None ==> forall|c: u64| #[trigger] ch.contains(c) ==> !(m.contains_key(c) && m[c].name == name),
    decreases ch.len(),
{
    if ch.len() > 0 {
        let d = ch.drop_first();
        lemma_find_child_facts(m, d, name);
        assert(ch.contains(ch[0]));
        if let Some(v) = find_child(m, d, name) {
            let i = choose|i: int| 0 <= i < d.len() && d[i] == v;
            assert(ch[i + 1] == v);
        }
        assert forall|c: u64| #[trigger] ch.contains(c) && find_child(m, ch, name) is None implies !(m.contains_key(c) && m[c].name == name) by {
            let i = choose|i: int| 0 <= i < ch.len() && ch[i] == c;
            if i > 0 {
                assert(d[i - 1] == c);
                assert(d.contains(c));
            }
        }
    }
}

/// With one listed, existing inode of a name, that is what `find_child` finds.
pub proof fn lemma_find_child_unique(m: FsMap, ch: Seq<u64>, name: Seq<char>, v: u64)
    requires
        ch.contains(v),
        m.contains_key(v),
        m[v].name == name,
        forall|w: u64| #[trigger] ch.contains(w) && m.contains_key(w) && m[w].name == name ==> w == v,
    ensures
        find_child(m, ch, name) == Some(v),
{
    lemma_find_child_facts(m, ch, name);
}

/// A lookup walks the components normalization keeps, from `root`.
pub proof fn lemma_lookup_as_walk(m: FsMap, root: u64, p: Seq<char>)
    ensures
        lookup_spec(m, root, p) == walk(m, root, path_stack(p)),
{
    lemma_components_of_normal(p);
    if normalize_spec(p) == seq!['/'] {
        assert(path_stack(p) =~= Seq::<Seq<char>>::empty());
    }
}

/// Looking a name up in `a + b` finds it in `a` if it is there, else in `b`.
proof fn lemma_find_child_append(m: FsMap, a: Seq<u64>, b: Seq<u64>, name: Seq<char>)
    ensures
        find_child(m, a + b, name) == (match find_child(m, a, name) {
            Some(c) => Some(c),
            None => find_child(m, b, name),
        }),
    decreases a.len(),
{
    if a.len() == 0 {
        assert(a + b =~= b);
    } else {
        assert((a + b)[0] == a[0]);
        assert((a + b).drop_first() =~= a.drop_first() + b);
        lemma_find_child_append(m, a.drop_first(), b, name);
    }
}

/// A name lookup among children that exist in `old` gives the same in `new` when
/// `new` keeps those inodes and their names.
proof fn lemma_find_child_same(old: FsMap, new: FsMap, ch: Seq<u64>, name: Seq<char>)
    requires
        forall|c: u64| #[trigger] ch.contains(c) ==> old.contains_key(c) && new.contains_key(c) && new[c].name == old[c].name,
    ensures
        find_child(new, ch, name) == find_child(old, ch, name),
    decreases ch.len(),
{
    if ch.len() > 0 {
        assert(ch.contains(ch[0]));
        let d = ch.drop_first();
        assert forall|c: u64| #[trigger] d.contains(c) implies old.contains_key(c) && new.contains_key(c) && new[c].name == old[c].name by {
            let i = choose|i: int| 0 <= i < d.len() && d[i] == c;
            assert(ch[i + 1] == c);
            assert(ch.contains(c));
        }
        lemma_find_child_same(old, new, d, name);
    }
}

/// Walking `comps` and then `n` is walking `comps.push(n)`.
proof fn lemma_walk_push(m: FsMap, cur: u64, comps: Seq<Seq<char>>, n: Seq<char>)
    ensures
        walk(m, cur, comps.push(n)) == (match walk(m, cur, comps) {
            Ok(p) => walk(m, p, seq![n]),
            Err(e) => Err(e),
        }),
    decreases comps.len(),
{
    if comps.len() == 0 {
        assert(comps.push(n) =~= seq![n]);
    } else {
        assert(comps.push(n)[0] == comps[0]);
        assert(comps.push(n).drop_first() =~= comps.drop_first().push(n));
        if m.contains_key(cur) && m[cur].inode_type == InodeType::Directory {
            match find_child(m, m[cur].children, comps[0]) {
                Some(c) => {
                    lemma_walk_push(m, c, comps.drop_first(), n);
                },
                None => {},
            }
        }
    }
}

/// A successful walk in `old` succeeds alike in `new` when `new` keeps every inode
/// of `old` with its name and type and only adds children after the old ones, and
/// every child listed in `old` exists there.
proof fn lemma_walk_grow(old: FsMap, new: FsMap, cur: u64, comps: Seq<Seq<char>>)
    requires
        walk(old, cur, comps) is Ok,
        forall|k: u64| #[trigger] old.contains_key(k) ==> {
            &&& new.contains_key(k)
            &&& new[k].name == old[k].name
            &&& new[k].inode_type == old[k].inode_type
            &&& new[k].children.len() >= old[k].children.len()
            &&& new[k].children.subrange(0, old[k].children.len() as int) == old[k].children
        },
        forall|k: u64, c: u64| #![trigger old[k].children.contains(c)] old.contains_key(k) && old[k].children.contains(c) ==> old.contains_key(c),
    ensures
        walk(new, cur, comps) == walk(old, cur, comps),
    decreases comps.len(),
{
    if comps.len() > 0 {
        let och = old[cur].children;
        let nch = new[cur].children;
        assert(nch =~= och + nch.skip(och.len() as int));
        assert forall|c: u64| #[trigger] och.contains(c) implies old.contains_key(c) && new.contains_key(c) && new[c].name == old[c].name by {
            assert(old[cur].children.contains(c));
        }
        lemma_find_child_same(old, new, och, comps[0]);
        lemma_find_child_append(new, och, nch.skip(och.len() as int), comps[0]);
        let x = find_child(old, och, comps[0]).unwrap();
        lemma_walk_grow(old, new, x, comps.drop_first());
    }
}

/// `s` with every occurrence of `id` removed.
pub open spec fn without_id(s: Seq<u64>, id: u64) -> Seq<u64>
    decreases s.len(),
{
    if s.len() == 0 {
        Seq::empty()
    } else {
        let r = without_id(s.drop_last(), id);
        if s.last() == id { r } else { r.push(s.last()) }
    }
}

/// Data after writing `data` at `offset`: zero-extended to fit, then overwritten.
pub open spec fn written_data(old: Seq<u8>, offset: int, data: Seq<u8>) -> Seq<u8> {
    let end = offset + data.len();
    let ext = if end > old.len() { old + Seq::new((end - old.len()) as nat, |i: int| 0u8) } else { old };
    ext.subrange(0, offset) + data + ext.subrange(end, ext.len() as int)
}

/// Data after resizing to `size` (zero-extended or cut).
pub open spec fn resized_data(old: Seq<u8>, size: int) -> Seq<u8> {
    if size <= old.len() {
        old.subrange(0, size)
    } else {
        old + Seq::new((size - old.len()) as nat, |i: int| 0u8)
    }
}

/// How many bytes a read at `offset` into a buffer of `buf_len` bytes returns.
pub open spec fn read_len(size: int, offset: int, buf_len: int) -> int {
    if offset >= size {
        0
    } else if size - offset < buf_len {
        size - offset
    } else {
        buf_len
    }
}

/// Directory entries of the existing children, in `children` order.
pub open spec fn child_entries(m: FsMap, children: Seq<u64>) -> Seq<DirEntryView>
    decreases children.len(),
{
    if children.len() == 0 {
        Seq::empty()
    } else {
        let r = child_entries(m, children.drop_last());
        if m.contains_key(children.last()) {
            r.push(m[children.last()].entry())
        } else {
            r
        }
    }
}

/// The directory entries of all of `children`, in order.
pub open spec fn child_listing(m: FsMap, children: Seq<u64>) -> Seq<DirEntryView> {
    children.map_values(|c: u64| m[c].entry())
}

/// When every child exists, the entries of the existing children are those of all of them.
pub proof fn lemma_child_entries_all(m: FsMap, children: Seq<u64>)
    requires
        forall|c: u64| #[trigger] children.contains(c) ==> m.contains_key(c),
    ensures
        child_entries(m, children) == child_listing(m, children),
    decreases children.len(),
{
    if children.len() > 0 {
        let d = children.drop_last();
        assert forall|c: u64| #[trigger] d.contains(c) implies m.contains_key(c) by {
            let i = choose|i: int| 0 <= i < d.len() && d[i] == c;
            assert(children[i] == c);
            assert(children.contains(c));
        }
        lemma_child_entries_all(m, d);
        assert(children[children.len() - 1] == children.last());
        assert(children.contains(children.last()));
        assert forall|i: int| 0 <= i < d.len() implies #[trigger] child_listing(m, children)[i] == child_listing(m, d)[i] by {
            assert(d[i] == children[i]);
        }
        assert(child_listing(m, children) =~= child_listing(m, d).push(m[children.last()].entry()));
    }
}

/// Lexicographic order on names (code point by code point).
pub open spec fn name_le(a: Seq<char>, b: Seq<char>) -> bool
    decreases a.len(),
{
    if a.len() == 0 {
        true
    } else if b.len() == 0 {
        false
    } else if a[0] != b[0] {
        a[0] < b[0]
    } else {
        name_le(a.drop_first(), b.drop_first())
    }
}

pub open spec fn sorted_by_name(s: Seq<DirEntryView>) -> bool {
    forall|i: int| 0 <= i < s.len() - 1 ==> #[trigger] name_le(s[i].name, s[i + 1].name)
}

pub proof fn lemma_name_le_total(a: Seq<char>, b: Seq<char>)
    ensures
        name_le(a, b) || name_le(b, a),
    decreases a.len(),
{
    if a.len() > 0 && b.len() > 0 && a[0] == b[0] {
        lemma_name_le_total(a.drop_first(), b.drop_first());
    }
}

/// Names ordered both ways are equal.
pub proof fn lemma_name_le_antisymmetric(a: Seq<char>, b: Seq<char>)
    requires
        name_le(a, b),
        name_le(b, a),
    ensures
        a == b,
    decreases a.len(),
{
    if a.len() > 0 && b.len() > 0 {
        lemma_name_le_antisymmetric(a.drop_first(), b.drop_first());
        assert(a =~= seq![a[0]] + a.drop_first());
        assert(b =~= seq![b[0]] + b.drop_first());
    } else {
        assert(a =~= b);
    }
}

/// The order on names is transitive.
pub proof fn lemma_name_le_transitive(a: Seq<char>, b: Seq<char>, c: Seq<char>)
    requires
        name_le(a, b),
        name_le(b, c),
    ensures
        name_le(a, c),
    decreases a.len(),
{
    if a.len() > 0 && b.len() > 0 && c.len() > 0 && a[0] == b[0] && b[0] == c[0] {
        lemma_name_le_transitive(a.drop_first(), b.drop_first(), c.drop_first());
    }
}

/// RAM-based filesystem
pub struct RamFs {
    /// All inodes indexed by ID
    inodes: BTreeMap<u64, Inode>,
    /// Next available inode ID
    next_inode_id: u64,
    /// Root inode ID
    root_inode: u64,
}

impl View for RamFs {
    type V = FsMap;

    closed spec fn view(&self) -> FsMap {
        self.inodes@.map_values(|i: Inode| i@)
    }
}

impl RamFs {
    pub closed spec fn root_id(&self) -> u64 {
        self.root_inode
    }

    pub closed spec fn next_id(&self) -> u64 {
        self.next_inode_id
    }

    /// The structural invariant of the filesystem.
    pub closed spec fn wf(&self) -> bool {
        &&& self@.contains_key(self.root_inode)
        &&& self@[self.root_inode].inode_type == InodeType::Directory
        &&& self@[self.root_inode].parent is None
        &&& forall|k: u64| #[trigger] self@.contains_key(k) ==> {
            &&& k < self.next_inode_id
            &&& self@[k].id == k
            &&& self@[k].data.len() == self@[k].size
            &&& self@[k].size <= MAX_FILE_SIZE
        }
        &&& forall|k: u64, c: u64|
            #![trigger self@[k].children.contains(c)]
            self@.contains_key(k) && self@[k].children.contains(c) ==> self@.contains_key(c) && self@[c].parent == Some(k)
        &&& forall|k: u64, a: u64, b: u64|
            #![trigger self@[k].children.contains(a), self@[k].children.contains(b)]
            self@.contains_key(k) && self@[k].children.contains(a) && self@[k].children.contains(b)
                && self@[a].name == self@[b].name ==> a == b
    }

    /// What the invariant guarantees of each inode.
    pub proof fn lemma_inode_facts(&self, k: u64)
        requires
            self.wf(),
        ensures
            self@.contains_key(self.root_id()),
            self@.contains_key(k) ==> {
                &&& k < self.next_id()
                &&& self@[k].id == k
                &&& self@[k].data.len() == self@[k].size
                &&& self@[k].size <= MAX_FILE_SIZE
            },
    {
    }

    proof fn lemma_view(&self, k: u64)
        ensures
            self.inodes@.contains_key(k) <==> self@.contains_key(k),
            self.inodes@.contains_key(k) ==> self@[k] == self.inodes@[k]@,
    {
    }

    /// Create a new RamFS with a root directory
    pub fn new() -> (fs: RamFs)
        ensures
            fs.wf(),
            fs.root_id() == 1,
            fs.next_id() == 2,
            fs@ == map![1u64 => fresh_inode(1, InodeType::Directory, seq!['/'], None, 0, 0)],
    {
        let mut inodes: BTreeMap<u64, Inode> = BTreeMap::new();
        let mut name = String::new();
        crate::text::push_char(&mut name, '/');
        let root = Inode::new_directory(1, name, None, 0, 0);
        inodes.insert(1, root);
        let fs = RamFs { inodes, next_inode_id: 2, root_inode: 1 };
        assert(fs@ =~= map![1u64 => fresh_inode(1, InodeType::Directory, seq!['/'], None, 0, 0)]);
        fs
    }

    /// Get the root inode ID
    pub fn root(&self) -> (r: u64)
        ensures
            r == self.root_id(),
    {
        self.root_inode
    }

    /// Find the child of `children` named `name`.
    fn find_child_exec(&self, children: &Vec<u64>, name: &String) -> (r: Option<u64>)
        ensures
            r == find_child(self@, children@, name@),
    {
        let mut i: usize = 0;
        assert(children@.subrange(0, children@.len() as int) =~= children@);
        while i < children.len()
            invariant
                i <= children.len(),
                find_child(self@, children@, name@) == find_child(self@, children@.subrange(i as int, children@.len() as int), name@),
            decreases children.len() - i,
        {
            let cid = children[i];
            let ghost rest = children@.subrange(i as int, children@.len() as int);
            assert(rest.drop_first() =~= children@.subrange(i + 1, children@.len() as int));
            proof {
                self.lemma_view(cid);
            }
            match self.inodes.get(&cid) {
                Some(child) => {
                    if child.name == *name {
                        return Some(cid);
                    }
                },
                None => {},
            }
            i = i + 1;
        }
        None
    }

    /// Look up an inode by path, returning its ID
    pub fn lookup(&self, path: &str) -> (r: FsResult<u64>)
        ensures
            r == lookup_spec(self@, self.root_id(), path@),
    {
        let normalized = path::normalize_path(path);
        let comps = path::components(normalized.as_str());
        if normalized.unicode_len() == 1 && normalized.as_str().get_char(0) == '/' {
            assert(normalized@ =~= seq!['/']);
            return Ok(self.root_inode);
        }
        let ghost cs = components_spec(normalized@);
        let mut current = self.root_inode;
        let mut i: usize = 0;
        assert(cs.subrange(0, cs.len() as int) =~= cs);
        assert(lookup_spec(self@, self.root_id(), path@) == walk(self@, self.root_id(), cs));
        while i < comps.len()
            invariant
                i <= comps.len(),
                lookup_spec(self@, self.root_id(), path@) == walk(self@, self.root_id(), cs),
                comps@.map_values(|x: &str| x@) == cs,
                walk(self@, self.root_id(), cs) == walk(self@, current, cs.subrange(i as int, cs.len() as int)),
            decreases comps.len() - i,
        {
            let ghost rest = cs.subrange(i as int, cs.len() as int);
            assert(rest.drop_first() =~= cs.subrange(i + 1, cs.len() as int));
            assert(rest[0] == comps@[i as int]@);
            proof {
                self.lemma_view(current);
            }
            let inode = match self.inodes.get(&current) {
                Some(n) => n,
                None => {
                    return Err(FsError::NotFound);
                },
            };
            if inode.inode_type != InodeType::Directory {
                return Err(FsError::NotADirectory);
            }
            let comp = comps[i].to_owned();
            match self.find_child_exec(&inode.children, &comp) {
                Some(c) => {
                    current = c;
                },
                None => {
                    return Err(FsError::NotFound);
                },
            }
            i = i + 1;
        }
        assert(cs.subrange(comps.len() as int, cs.len() as int) =~= Seq::<Seq<char>>::empty());
        Ok(current)
    }

    /// The inode `id`, to change in place. The filesystem then holds what was written
    /// through it; it stays well formed when the edit keeps the inode's structure.
    pub fn get_mut(&mut self, id: u64) -> (r: FsResult<&mut Inode>)
        requires
            old(self).wf(),
        ensures
            final(self).root_id() == old(self).root_id(),
            final(self).next_id() == old(self).next_id(),
            !old(self)@.contains_key(id) ==> (r matches Err(e) && e == FsError::NotFound) && final(self)@ == old(self)@ && final(self).wf(),
            old(self)@.contains_key(id) ==> r is Ok && (*r->Ok_0)@ == old(self)@[id]
                && final(self)@ == old(self)@.insert(id, (*final(r->Ok_0))@)
                && (edit_keeps_structure(old(self)@[id], (*final(r->Ok_0))@) ==> final(self).wf()),
    {
        proof {
            self.lemma_view(id);
        }
        match inode_mut(&mut self.inodes, id) {
            Some(i) => Ok(i),
            None => Err(FsError::NotFound),
        }
    }

    /// Get an inode by ID
    pub fn get(&self, id: u64) -> (r: FsResult<&Inode>)
        ensures
            match r {
                Ok(i) => self@.contains_key(id) && i@ == self@[id],
                Err(e) => !self@.contains_key(id) && e == FsError::NotFound,
            },
    {
        proof {
            self.lemma_view(id);
        }
        match self.inodes.get(&id) {
            Some(i) => Ok(i),
            None => Err(FsError::NotFound),
        }
    }
}


/// `BTreeMap::get_mut`: the inode stored under `k`, to change in place; the map then
/// holds under `k` what was written through it, and is otherwise unchanged.
#[verifier::external_body]
fn inode_mut(m: &mut BTreeMap<u64, Inode>, k: u64) -> (r: Option<&mut Inode>)
    ensures
        !old(m)@.contains_key(k) ==> r is None && final(m)@ == old(m)@,
        old(m)@.contains_key(k) ==> r is Some && *r->0 == old(m)@[k] && final(m)@ == old(m)@.insert(k, *final(r->0)),
{
    m.get_mut(&k)
}

/// An edit of an inode that leaves its id, name, type, parent and children as they were,
/// and its data as long as its size, within the size limit.
pub open spec fn edit_keeps_structure(a: InodeView, b: InodeView) -> bool {
    &&& b.id == a.id
    &&& b.name == a.name
    &&& b.inode_type == a.inode_type
    &&& b.parent == a.parent
    &&& b.children == a.children
    &&& b.data.len() == b.size
    &&& b.size <= MAX_FILE_SIZE
}

/// Outcome of creating an entry `name` of type `t` in the directory `dir_path`.
pub open spec fn create_spec(
    old: FsMap,
    root: u64,
    next: u64,
    dir_path: Seq<char>,
    name: Seq<char>,
    t: InodeType,
    uid: u32,
    gid: u32,
    r: FsResult<u64>,
    new: FsMap,
) -> bool {
    if name.len() == 0 || name.contains('/') {
        r == Err::<u64, FsError>(FsError::InvalidPath) && new == old
    } else {
        match lookup_spec(old, root, dir_path) {
            Err(e) => r == Err::<u64, FsError>(e) && new == old,
            Ok(pid) => if !old.contains_key(pid) {
                r == Err::<u64, FsError>(FsError::NotFound) && new == old
            } else if old[pid].inode_type != InodeType::Directory {
                r == Err::<u64, FsError>(FsError::NotADirectory) && new == old
            } else if find_child(old, old[pid].children, name) is Some {
                r == Err::<u64, FsError>(FsError::AlreadyExists) && new == old
            } else if next == u64::MAX {
                r == Err::<u64, FsError>(FsError::NoSpace) && new == old
            } else {
                r == Ok::<u64, FsError>(next) && new == old.insert(next, fresh_inode(next, t, name, Some(pid), uid, gid)).insert(
                    pid,
                    InodeView { children: old[pid].children.push(next), ..old[pid] },
                )
            },
        }
    }
}

/// A name created under `dir_path` is then found at the joined path: looking up
/// `dir_path` joined with `name` names the new inode, which was not there before
/// and is `name`'s fresh inode under the directory `dir_path` names.
pub proof fn law_create_then_lookup(fs: RamFs, dir_path: Seq<char>, name: Seq<char>, t: InodeType, uid: u32, gid: u32,
    r: FsResult<u64>, new: FsMap)
    requires
        fs.wf(),
        create_spec(fs@, fs.root_id(), fs.next_id(), dir_path, name, t, uid, gid, r, new),
        r is Ok,
        !is_dot(name),
        !is_dotdot(name),
    ensures
        !fs@.contains_key(r->Ok_0),
        lookup_spec(fs@, fs.root_id(), dir_path) matches Ok(pid) && new[r->Ok_0] == fresh_inode(r->Ok_0, t, name,
            Some(pid), uid, gid),
        lookup_spec(new, fs.root_id(), join_input(dir_path, name)) == Ok::<u64, FsError>(r->Ok_0),
{
    let old = fs@;
    let root = fs.root_id();
    let id = r->Ok_0;
    let pid = lookup_spec(old, root, dir_path)->Ok_0;
    assert(!old.contains_key(id)) by {
        if old.contains_key(id) {
            assert(id < fs.next_id());
        }
    }
    let och = old[pid].children;
    let nch = och.push(id);
    // the walk to the directory is unchanged
    lemma_lookup_as_walk(old, root, dir_path);
    assert forall|k: u64| #[trigger] old.contains_key(k) implies {
        &&& new.contains_key(k)
        &&& new[k].name == old[k].name
        &&& new[k].inode_type == old[k].inode_type
        &&& new[k].children.len() >= old[k].children.len()
        &&& new[k].children.subrange(0, old[k].children.len() as int) == old[k].children
    } by {
        if k == pid {
            assert(nch.subrange(0, och.len() as int) =~= och);
        } else {
            assert(new[k] == old[k]);
            assert(old[k].children.subrange(0, old[k].children.len() as int) =~= old[k].children);
        }
    }
    lemma_walk_grow(old, new, root, path_stack(dir_path));
    // the name, joined on, is the last component
    assert(name.len() > 0 && no_slash(name));
    lemma_join_stack(dir_path, name);
    lemma_lookup_as_walk(new, root, join_input(dir_path, name));
    lemma_walk_push(new, root, path_stack(dir_path), name);
    // and found as the new child
    assert forall|c: u64| #[trigger] och.contains(c) implies old.contains_key(c) && new.contains_key(c) && new[c].name == old[c].name by {
        assert(old[pid].children.contains(c));
    }
    lemma_find_child_same(old, new, och, name);
    assert(new[pid].children =~= och + seq![id]);
    lemma_find_child_append(new, och, seq![id], name);
    assert(seq![id].drop_first() =~= Seq::<u64>::empty());
    assert(seq![name].drop_first() =~= Seq::<Seq<char>>::empty());
    assert(walk(new, root, path_stack(dir_path)) == Ok::<u64, FsError>(pid));
    assert(find_child(old, och, name) is None);
    assert(new.contains_key(id) && new[id].name == name);
    assert(find_child(new, seq![id], name) == Some(id));
    assert(find_child(new, new[pid].children, name) == Some(id));
    assert(new.contains_key(pid) && new[pid].inode_type == InodeType::Directory);
    assert(walk(new, id, Seq::<Seq<char>>::empty()) == Ok::<u64, FsError>(id));
    assert(walk(new, pid, seq![name]) == Ok::<u64, FsError>(id));
}

/// What `without_id` keeps was in the list, and is not `id`.
proof fn lemma_without_id_contains(s: Seq<u64>, id: u64, c: u64)
    ensures
        without_id(s, id).contains(c) ==> s.contains(c) && c != id,
    decreases s.len(),
{
    if s.len() > 0 && without_id(s, id).contains(c) {
        let d = s.drop_last();
        let r = without_id(d, id);
        let w = without_id(s, id);
        lemma_without_id_contains(d, id, c);
        let j = choose|j: int| 0 <= j < w.len() && w[j] == c;
        if j < r.len() {
            assert(r[j] == c);
            let i = choose|i: int| 0 <= i < d.len() && d[i] == c;
            assert(s[i] == c);
        } else {
            assert(c == s.last());
        }
    }
}

/// What is in the list and is not `id` is kept by `without_id`.
proof fn lemma_without_id_keeps(s: Seq<u64>, id: u64, c: u64)
    requires
        s.contains(c),
        c != id,
    ensures
        without_id(s, id).contains(c),
    decreases s.len(),
{
    let d = s.drop_last();
    let r = without_id(d, id);
    if s.last() == c {
        assert(without_id(s, id) == r.push(c));
        assert(r.push(c)[r.len() as int] == c);
    } else {
        let i = choose|i: int| 0 <= i < s.len() && s[i] == c;
        assert(d[i] == c);
        lemma_without_id_keeps(d, id, c);
        let j = choose|j: int| 0 <= j < r.len() && r[j] == c;
        if s.last() == id {
            assert(without_id(s, id) == r);
        } else {
            assert(without_id(s, id)[j] == c);
        }
    }
}

/// The map after inode `id` (a file, or an empty directory, with parent `q`)
/// leaves: it is gone from `q`'s children and from the map.
pub open spec fn after_removal(old: FsMap, id: u64, q: u64) -> FsMap {
    old.insert(q, InodeView { children: without_id(old[q].children, id), ..old[q] }).remove(id)
}

/// A walk in `old` that ends elsewhere than at the removed inode ends at the same
/// place once it is removed: it never passed through it.
proof fn lemma_walk_after_removal(fs: RamFs, id: u64, q: u64, cur: u64, comps: Seq<Seq<char>>)
    requires
        fs.wf(),
        fs@.contains_key(id),
        fs@[id].parent == Some(q),
        fs@.contains_key(q),
        !(fs@[id].inode_type == InodeType::Directory && fs@[id].children.len() > 0),
        cur != id,
        walk(fs@, cur, comps) is Ok,
        walk(fs@, cur, comps)->Ok_0 != id,
    ensures
        walk(after_removal(fs@, id, q), cur, comps) == walk(fs@, cur, comps),
    decreases comps.len(),
{
    let old = fs@;
    let new = after_removal(old, id, q);
    if comps.len() > 0 {
        let och = old[cur].children;
        lemma_find_child_facts(old, och, comps[0]);
        let v = find_child(old, och, comps[0])->Some_0;
        let rest = comps.drop_first();
        assert(walk(old, cur, comps) == walk(old, v, rest));
        assert(v != id) by {
            if v == id {
                if rest.len() > 0 {
                    lemma_find_child_facts(old, old[id].children, rest[0]);
                    if old[id].inode_type == InodeType::Directory {
                        assert(old[id].children.len() > 0) by {
                            let w = find_child(old, old[id].children, rest[0])->Some_0;
                            assert(old[id].children.contains(w));
                        }
                    }
                }
            }
        }
        let nch = new[cur].children;
        assert(forall|w: u64| #[trigger] nch.contains(w) ==> och.contains(w) && w != id) by {
            assert forall|w: u64| #[trigger] nch.contains(w) implies och.contains(w) && w != id by {
                if cur == q {
                    lemma_without_id_contains(och, id, w);
                } else {
                    assert(och.contains(w));
                    if w == id {
                        assert(old[cur].children.contains(id));
                    }
                }
            }
        }
        if cur == q {
            lemma_without_id_keeps(och, id, v);
        }
        assert(nch.contains(v));
        assert(old[cur].children.contains(v));
        assert forall|w: u64| #[trigger] nch.contains(w) && new.contains_key(w) && new[w].name == comps[0] implies w == v by {
            assert(och.contains(w));
            assert(old[cur].children.contains(w));
        }
        lemma_find_child_unique(new, nch, comps[0], v);
        lemma_walk_after_removal(fs, id, q, v, rest);
    }
}

/// A removed entry is no longer found: once `remove` of `path` succeeds, the inode
/// that `path` named is gone and looking `path` up finds nothing.
pub proof fn law_remove_then_lookup(fs: RamFs, path: Seq<char>, r: FsResult<()>, new: FsMap)
    requires
        fs.wf(),
        remove_spec(fs@, fs.root_id(), path, r, new),
        r is Ok,
    ensures
        lookup_spec(fs@, fs.root_id(), path) matches Ok(id) && fs@.contains_key(id) && !new.contains_key(id),
        lookup_spec(new, fs.root_id(), path) == Err::<u64, FsError>(FsError::NotFound),
{
    let old = fs@;
    let root = fs.root_id();
    path::law_normalize_idempotent(path);
    assert(lookup_spec(old, root, normalize_spec(path)) == lookup_spec(old, root, path));
    assert(lookup_spec(new, root, normalize_spec(path)) == lookup_spec(new, root, path));
    let id = lookup_spec(old, root, path)->Ok_0;
    let q = old[id].parent->Some_0;
    lemma_lookup_as_walk(old, root, path);
    lemma_lookup_as_walk(new, root, path);
    let st = path_stack(path);
    assert(id != root);
    assert(st.len() > 0) by {
        if st.len() == 0 {
            assert(walk(old, root, st) == Ok::<u64, FsError>(root));
        }
    }
    let prefix = st.drop_last();
    let last = st.last();
    assert(prefix.push(last) =~= st);
    lemma_walk_push(old, root, prefix, last);
    lemma_walk_push(new, root, prefix, last);
    assert(walk(old, root, st) == Ok::<u64, FsError>(id));
    let u = walk(old, root, prefix)->Ok_0;
    assert(walk(old, u, seq![last]) == Ok::<u64, FsError>(id));
    // the last step found `id` among `u`'s children, so `u` is its parent
    lemma_find_child_facts(old, old[u].children, last);
    assert(seq![last].drop_first() =~= Seq::<Seq<char>>::empty());
    assert(seq![last][0] == last);
    assert(find_child(old, old[u].children, last) == Some(id)) by {
        reveal_with_fuel(walk, 2);
    }
    assert(old[u].children.contains(id));
    assert(u == q);
    assert(u != id) by {
        if u == id {
            assert(old[id].children.contains(id));
        }
    }
    assert(new == after_removal(old, id, q));
    lemma_walk_after_removal(fs, id, q, root, prefix);
    // and no other child of `q` bears the name
    let nch = new[q].children;
    assert forall|w: u64| #[trigger] nch.contains(w) implies !(new.contains_key(w) && new[w].name == last) by {
        lemma_without_id_contains(old[q].children, id, w);
        assert(old[q].children.contains(w));
        if new.contains_key(w) && new[w].name == last {
            assert(old[w].name == old[id].name);
        }
    }
    lemma_find_child_facts(new, nch, last);
    assert(find_child(new, nch, last) is None) by {
        if let Some(v) = find_child(new, nch, last) {
            assert(nch.contains(v));
        }
    }
}

/// Outcome of removing the entry that `path` names.
pub open spec fn remove_spec(old: FsMap, root: u64, path: Seq<char>, r: FsResult<()>, new: FsMap) -> bool {
    if normalize_spec(path) == seq!['/'] {
        r == Err::<(), FsError>(FsError::PermissionDenied) && new == old
    } else {
        match lookup_spec(old, root, normalize_spec(path)) {
            Err(e) => r == Err::<(), FsError>(e) && new == old,
            Ok(id) => if !old.contains_key(id) {
                r == Err::<(), FsError>(FsError::NotFound) && new == old
            } else if old[id].inode_type == InodeType::Directory && old[id].children.len() > 0 {
                r == Err::<(), FsError>(FsError::NotEmpty) && new == old
            } else {
                match old[id].parent {
                    None => r == Err::<(), FsError>(FsError::PermissionDenied) && new == old,
                    Some(pid) => r == Ok::<(), FsError>(()) && new == (if old.contains_key(pid) {
                        old.insert(pid, InodeView { children: without_id(old[pid].children, id), ..old[pid] })
                    } else {
                        old
                    }).remove(id),
                }
            },
        }
    }
}

fn contains_slash(s: &String) -> (b: bool)
    ensures
        b == s@.contains('/'),
{
    let n = s.unicode_len();
    let mut i: usize = 0;
    while i < n
        invariant
            i <= n,
            n == s@.len(),
            forall|j: int| 0 <= j < i ==> s@[j] != '/',
        decreases n - i,
    {
        if s.as_str().get_char(i) == '/' {
            return true;
        }
        i = i + 1;
    }
    false
}

fn vec_without_id(v: &Vec<u64>, id: u64) -> (r: Vec<u64>)
    ensures
        r@ == without_id(v@, id),
{
    let mut r: Vec<u64> = Vec::new();
    let mut i: usize = 0;
    while i < v.len()
        invariant
            i <= v.len(),
            r@ == without_id(v@.subrange(0, i as int), id),
        decreases v.len() - i,
    {
        assert(v@.subrange(0, i + 1).drop_last() =~= v@.subrange(0, i as int));
        if v[i] != id {
            r.push(v[i]);
        }
        i = i + 1;
    }
    assert(v@.subrange(0, v.len() as int) =~= v@);
    r
}

impl RamFs {
    proof fn lemma_lookup_in_map(&self, path: Seq<char>)
        requires
            self.wf(),
        ensures
            lookup_spec(self@, self.root_id(), path) matches Ok(id) ==> (self@.contains_key(id) || id == self.root_id()),
    {
        let n = normalize_spec(path);
        if n != seq!['/'] {
            lemma_walk_in_map(self@, self.root_id(), components_spec(n));
        }
    }

    /// Create an inode of the specified type with specified owner
    fn create_inode(&mut self, dir_path: &str, name: &str, inode_type: InodeType, uid: u32, gid: u32) -> (r: FsResult<u64>)
        requires
            old(self).wf(),
            inode_type != InodeType::Symlink,
        ensures
            final(self).wf(),
            final(self).root_id() == old(self).root_id(),
            create_spec(old(self)@, old(self).root_id(), old(self).next_id(), dir_path@, name@, inode_type, uid, gid, r, final(self)@),
            r is Ok ==> final(self).next_id() == old(self).next_id() + 1,
            r is Err ==> final(self).next_id() == old(self).next_id(),
    {
        let name_s = name.to_owned();
        if name_s.unicode_len() == 0 || contains_slash(&name_s) {
            return Err(FsError::InvalidPath);
        }
        let parent_id = match self.lookup(dir_path) {
            Ok(p) => p,
            Err(e) => {
                return Err(e);
            },
        };
        proof {
            self.lemma_view(parent_id);
        }
        let ghost old_map = old(self)@;
        let is_dir;
        let found;
        match self.inodes.get(&parent_id) {
            Some(p) => {
                is_dir = p.inode_type == InodeType::Directory;
                if is_dir {
                    found = self.find_child_exec(&p.children, &name_s).is_some();
                } else {
                    found = false;
                }
            },
            None => {
                return Err(FsError::NotFound);
            },
        }
        if !is_dir {
            return Err(FsError::NotADirectory);
        }
        if found {
            return Err(FsError::AlreadyExists);
        }
        if self.next_inode_id == u64::MAX {
            return Err(FsError::NoSpace);
        }
        let mut parent = self.inodes.remove(&parent_id).unwrap();
        let new_id = self.next_inode_id;
        self.next_inode_id = self.next_inode_id + 1;
        let new_inode = match inode_type {
            InodeType::Directory => Inode::new_directory(new_id, name_s, Some(parent_id), uid, gid),
            _ => Inode::new_file(new_id, name_s, parent_id, uid, gid),
        };
        self.inodes.insert(new_id, new_inode);
        parent.children.push(new_id);
        self.inodes.insert(parent_id, parent);
        proof {
            assert(!old_map.contains_key(new_id));
            assert(self@ =~= old_map.insert(new_id, fresh_inode(new_id, inode_type, name@, Some(parent_id), uid, gid)).insert(
                parent_id,
                InodeView { children: old_map[parent_id].children.push(new_id), ..old_map[parent_id] },
            ));
            assert forall|k: u64, c: u64|
                #![trigger self@[k].children.contains(c)]
                self@.contains_key(k) && self@[k].children.contains(c) implies self@.contains_key(c) && self@[c].parent == Some(k) by {
                if k == parent_id {
                    if c != new_id {
                        let j = choose|j: int| 0 <= j < self@[k].children.len() && self@[k].children[j] == c;
                        assert(old_map[k].children[j] == c);
                        assert(old_map[k].children.contains(c));
                    }
                } else if k != new_id {
                    assert(old_map[k].children.contains(c));
                }
            }
            lemma_find_child_facts(old_map, old_map[parent_id].children, name@);
            assert forall|k: u64, a: u64, b: u64|
                #![trigger self@[k].children.contains(a), self@[k].children.contains(b)]
                self@.contains_key(k) && self@[k].children.contains(a) && self@[k].children.contains(b)
                    && self@[a].name == self@[b].name implies a == b by {
                if k == parent_id {
                    let och = old_map[k].children;
                    if a != new_id {
                        let j = choose|j: int| 0 <= j < self@[k].children.len() && self@[k].children[j] == a;
                        assert(och[j] == a);
                        assert(och.contains(a));
                    }
                    if b != new_id {
                        let j = choose|j: int| 0 <= j < self@[k].children.len() && self@[k].children[j] == b;
                        assert(och[j] == b);
                        assert(och.contains(b));
                    }
                    if a != new_id && b != new_id {
                        assert(old_map[k].children.contains(a) && old_map[k].children.contains(b));
                    }
                } else if k != new_id {
                    assert(old_map[k].children.contains(a) && old_map[k].children.contains(b));
                }
            }
        }
        Ok(new_id)
    }

    /// Create a file with specified owner
    pub fn create_file(&mut self, dir_path: &str, name: &str, uid: u32, gid: u32) -> (r: FsResult<u64>)
        requires
            old(self).wf(),
        ensures
            final(self).wf(),
            final(self).root_id() == old(self).root_id(),
            create_spec(old(self)@, old(self).root_id(), old(self).next_id(), dir_path@, name@, InodeType::File, uid, gid, r, final(self)@),
            r is Ok ==> final(self).next_id() == old(self).next_id() + 1,
            r is Err ==> final(self).next_id() == old(self).next_id(),
    {
        self.create_inode(dir_path, name, InodeType::File, uid, gid)
    }

    /// Create a directory with specified owner
    pub fn create_dir(&mut self, dir_path: &str, name: &str, uid: u32, gid: u32) -> (r: FsResult<u64>)
        requires
            old(self).wf(),
        ensures
            final(self).wf(),
            final(self).root_id() == old(self).root_id(),
            create_spec(old(self)@, old(self).root_id(), old(self).next_id(), dir_path@, name@, InodeType::Directory, uid, gid, r, final(self)@),
            r is Ok ==> final(self).next_id() == old(self).next_id() + 1,
            r is Err ==> final(self).next_id() == old(self).next_id(),
    {
        self.create_inode(dir_path, name, InodeType::Directory, uid, gid)
    }
}

proof fn lemma_find_child_in_map(m: FsMap, children: Seq<u64>, name: Seq<char>)
    ensures
        find_child(m, children, name) matches Some(c) ==> m.contains_key(c),
    decreases children.len(),
{
    if children.len() > 0 {
        lemma_find_child_in_map(m, children.drop_first(), name);
    }
}

proof fn lemma_walk_in_map(m: FsMap, cur: u64, comps: Seq<Seq<char>>)
    ensures
        walk(m, cur, comps) matches Ok(id) ==> (m.contains_key(id) || (id == cur && comps.len() == 0)),
    decreases comps.len(),
{
    if comps.len() > 0 && m.contains_key(cur) && m[cur].inode_type == InodeType::Directory {
        lemma_find_child_in_map(m, m[cur].children, comps[0]);
        match find_child(m, m[cur].children, comps[0]) {
            Some(c) => {
                lemma_walk_in_map(m, c, comps.drop_first());
            },
            None => {},
        }
    }
}

impl RamFs {
    /// Remove a file or empty directory
    pub fn remove(&mut self, path: &str) -> (r: FsResult<()>)
        requires
            old(self).wf(),
        ensures
            final(self).wf(),
            final(self).root_id() == old(self).root_id(),
            final(self).next_id() == old(self).next_id(),
            remove_spec(old(self)@, old(self).root_id(), path@, r, final(self)@),
    {
        let normalized = path::normalize_path(path);
        if normalized.unicode_len() == 1 && normalized.as_str().get_char(0) == '/' {
            assert(normalized@ =~= seq!['/']);
            return Err(FsError::PermissionDenied);
        }
        let inode_id = match self.lookup(normalized.as_str()) {
            Ok(i) => i,
            Err(e) => {
                return Err(e);
            },
        };
        proof {
            self.lemma_view(inode_id);
        }
        let parent_id = match self.inodes.get(&inode_id) {
            Some(inode) => {
                if inode.inode_type == InodeType::Directory && inode.children.len() > 0 {
                    return Err(FsError::NotEmpty);
                }
                match inode.parent {
                    Some(p) => p,
                    None => {
                        return Err(FsError::PermissionDenied);
                    },
                }
            },
            None => {
                return Err(FsError::NotFound);
            },
        };
        let ghost old_map = self@;
        proof {
            self.lemma_view(parent_id);
        }
        match self.inodes.remove(&parent_id) {
            Some(mut p) => {
                let kept = vec_without_id(&p.children, inode_id);
                p.children = kept;
                self.inodes.insert(parent_id, p);
            },
            None => {},
        }
        let ghost mid = if old_map.contains_key(parent_id) {
            old_map.insert(parent_id, InodeView { children: without_id(old_map[parent_id].children, inode_id), ..old_map[parent_id] })
        } else {
            old_map
        };
        assert(self@ =~= mid);
        self.inodes.remove(&inode_id);
        assert(self@ =~= mid.remove(inode_id));
        proof {
            assert forall|k: u64, c: u64|
                #![trigger self@[k].children.contains(c)]
                self@.contains_key(k) && self@[k].children.contains(c) implies self@.contains_key(c) && self@[c].parent == Some(k) by {
                if k == parent_id {
                    lemma_without_id_contains(old_map[k].children, inode_id, c);
                    assert(old_map[k].children.contains(c));
                } else {
                    assert(old_map[k].children.contains(c));
                    if c == inode_id {
                        assert(old_map[c].parent == Some(parent_id));
                    }
                }
            }
            assert forall|k: u64, a: u64, b: u64|
                #![trigger self@[k].children.contains(a), self@[k].children.contains(b)]
                self@.contains_key(k) && self@[k].children.contains(a) && self@[k].children.contains(b)
                    && self@[a].name == self@[b].name implies a == b by {
                if k == parent_id {
                    lemma_without_id_contains(old_map[k].children, inode_id, a);
                    lemma_without_id_contains(old_map[k].children, inode_id, b);
                } else {
                    assert(old_map[k].children.contains(a) && old_map[k].children.contains(b));
                }
                assert(old_map[k].children.contains(a) && old_map[k].children.contains(b));
            }
        }
        Ok(())
    }
}

/// The bytes a read returns, placed in front of the untouched rest of the buffer.
pub open spec fn read_into(data: Seq<u8>, size: int, offset: int, buf: Seq<u8>) -> Seq<u8> {
    let n = read_len(size, offset, buf.len() as int);
    if n <= 0 {
        buf
    } else {
        data.subrange(offset, offset + n) + buf.subrange(n, buf.len() as int)
    }
}

/// A read at the offset of a completed write, into a buffer the size of the written
/// bytes, returns exactly those bytes.
pub proof fn law_read_after_write(old_data: Seq<u8>, offset: int, data: Seq<u8>)
    requires
        0 <= offset,
    ensures
        ({
            let nd = written_data(old_data, offset, data);
            let end = offset + data.len();
            let nsize = if old_data.len() > end { old_data.len() as int } else { end };
            &&& nd.len() == nsize
            &&& read_len(nsize, offset, data.len() as int) == data.len()
            &&& read_into(nd, nsize, offset, data) == data
        }),
{
    let nd = written_data(old_data, offset, data);
    let end = offset + data.len();
    let nsize = if old_data.len() > end { old_data.len() as int } else { end };
    assert(nd.subrange(offset, end) =~= data);
    assert(read_into(nd, nsize, offset, data) =~= data);
}

/// Of the filesystem as a whole: once `write` has put `data` at `offset` into file
/// `id` (its contract gives `after` from `before` so), the file is as long as the
/// larger of its old size and the write's end, the bytes between the old end and
/// `offset` read as zeros, a read at `offset` into a buffer of `data`'s length
/// returns `data`, and a read at the end returns nothing.
pub proof fn law_write_then_read(before: RamFs, after: RamFs, id: u64, offset: int, data: Seq<u8>)
    requires
        before.wf(),
        0 <= offset,
        before@.contains_key(id),
        after@ == before@.insert(id, InodeView {
            data: written_data(before@[id].data, offset, data),
            size: (if before@[id].size > offset + data.len() { before@[id].size as int } else { offset + data.len() }) as usize,
            ..before@[id]
        }),
        offset + data.len() <= MAX_FILE_SIZE,
    ensures
        after@[id].size == (if before@[id].size > offset + data.len() { before@[id].size as int } else { offset + data.len() }),
        after@[id].data.len() == after@[id].size,
        forall|i: int| before@[id].size <= i < offset ==> after@[id].data[i] == 0,
        read_len(after@[id].size as int, offset, data.len() as int) == data.len(),
        read_into(after@[id].data, after@[id].size as int, offset, data) == data,
        forall|buf: Seq<u8>| #[trigger] read_len(after@[id].size as int, after@[id].size as int, buf.len() as int) <= 0,
{
    before.lemma_inode_facts(id);
    law_read_after_write(before@[id].data, offset, data);
    let od = before@[id].data;
    let end = offset + data.len();
    let ext = if end > od.len() { od + Seq::new((end - od.len()) as nat, |i: int| 0u8) } else { od };
    assert forall|i: int| before@[id].size <= i < offset implies after@[id].data[i] == 0 by {
        assert(after@[id].data[i] == ext.subrange(0, offset)[i]);
        assert(ext[i] == 0u8);
    }
}

impl RamFs {
    /// Remove a file (fails if directory)
    pub fn unlink(&mut self, path: &str) -> (r: FsResult<()>)
        requires
            old(self).wf(),
        ensures
            final(self).wf(),
            final(self).root_id() == old(self).root_id(),
            final(self).next_id() == old(self).next_id(),
            match lookup_spec(old(self)@, old(self).root_id(), path@) {
                Err(e) => r == Err::<(), FsError>(e) && final(self)@ == old(self)@,
                Ok(id) => if !old(self)@.contains_key(id) {
                    r == Err::<(), FsError>(FsError::NotFound) && final(self)@ == old(self)@
                } else if old(self)@[id].inode_type == InodeType::Directory {
                    r == Err::<(), FsError>(FsError::IsADirectory) && final(self)@ == old(self)@
                } else {
                    remove_spec(old(self)@, old(self).root_id(), path@, r, final(self)@)
                },
            },
    {
        let inode_id = match self.lookup(path) {
            Ok(i) => i,
            Err(e) => {
                return Err(e);
            },
        };
        let inode = match self.get(inode_id) {
            Ok(i) => i,
            Err(e) => {
                return Err(e);
            },
        };
        if inode.inode_type == InodeType::Directory {
            return Err(FsError::IsADirectory);
        }
        self.remove(path)
    }

    /// Remove an empty directory
    pub fn rmdir(&mut self, path: &str) -> (r: FsResult<()>)
        requires
            old(self).wf(),
        ensures
            final(self).wf(),
            final(self).root_id() == old(self).root_id(),
            final(self).next_id() == old(self).next_id(),
            match lookup_spec(old(self)@, old(self).root_id(), path@) {
                Err(e) => r == Err::<(), FsError>(e) && final(self)@ == old(self)@,
                Ok(id) => if !old(self)@.contains_key(id) {
                    r == Err::<(), FsError>(FsError::NotFound) && final(self)@ == old(self)@
                } else if old(self)@[id].inode_type != InodeType::Directory {
                    r == Err::<(), FsError>(FsError::NotADirectory) && final(self)@ == old(self)@
                } else if old(self)@[id].children.len() > 0 {
                    r == Err::<(), FsError>(FsError::NotEmpty) && final(self)@ == old(self)@
                } else {
                    remove_spec(old(self)@, old(self).root_id(), path@, r, final(self)@)
                },
            },
    {
        let inode_id = match self.lookup(path) {
            Ok(i) => i,
            Err(e) => {
                return Err(e);
            },
        };
        let inode = match self.get(inode_id) {
            Ok(i) => i,
            Err(e) => {
                return Err(e);
            },
        };
        if inode.inode_type != InodeType::Directory {
            return Err(FsError::NotADirectory);
        }
        if inode.children.len() > 0 {
            return Err(FsError::NotEmpty);
        }
        self.remove(path)
    }

    /// Read file contents starting at `offset` into `buf`; returns the number of bytes read.
    pub fn read(&self, inode_id: u64, offset: usize, buf: &mut [u8]) -> (r: FsResult<usize>)
        requires
            self.wf(),
        ensures
            !self@.contains_key(inode_id) ==> r == Err::<usize, FsError>(FsError::NotFound) && final(buf)@ == old(buf)@,
            self@.contains_key(inode_id) && self@[inode_id].inode_type == InodeType::Directory ==> r == Err::<usize, FsError>(FsError::IsADirectory) && final(buf)@ == old(buf)@,
            self@.contains_key(inode_id) && self@[inode_id].inode_type != InodeType::Directory ==> {
                &&& r == Ok::<usize, FsError>(read_len(self@[inode_id].size as int, offset as int, old(buf)@.len() as int) as usize)
                &&& final(buf)@ == read_into(self@[inode_id].data, self@[inode_id].size as int, offset as int, old(buf)@)
            },
    {
        let inode = match self.get(inode_id) {
            Ok(i) => i,
            Err(e) => {
                return Err(e);
            },
        };
        if inode.inode_type == InodeType::Directory {
            return Err(FsError::IsADirectory);
        }
        if offset >= inode.size {
            assert(buf@ =~= read_into(inode.data@, inode.size as int, offset as int, old(buf)@));
            return Ok(0);
        }
        let available = inode.size - offset;
        let to_read = if available < buf.len() { available } else { buf.len() };
        let mut k: usize = 0;
        while k < to_read
            invariant
                k <= to_read <= buf@.len(),
                to_read == read_len(inode.size as int, offset as int, old(buf)@.len() as int),
                offset + to_read <= inode.data@.len(),
                buf@.len() == old(buf)@.len(),
                buf@ == inode.data@.subrange(offset as int, offset + k) + old(buf)@.subrange(k as int, old(buf)@.len() as int),
            decreases to_read - k,
        {
            buf[k] = inode.data[offset + k];
            k = k + 1;
            assert(buf@ =~= inode.data@.subrange(offset as int, offset + k) + old(buf)@.subrange(k as int, old(buf)@.len() as int));
        }
        Ok(to_read)
    }

    /// Write `data` at `offset`, extending the file if needed; returns the bytes written.
    pub fn write(&mut self, inode_id: u64, offset: usize, data: &[u8]) -> (r: FsResult<usize>)
        requires
            old(self).wf(),
            offset + data@.len() <= usize::MAX,
        ensures
            final(self).wf(),
            final(self).root_id() == old(self).root_id(),
            final(self).next_id() == old(self).next_id(),
            !old(self)@.contains_key(inode_id) ==> r == Err::<usize, FsError>(FsError::NotFound) && final(self)@ == old(self)@,
            old(self)@.contains_key(inode_id) && old(self)@[inode_id].inode_type == InodeType::Directory
                ==> r == Err::<usize, FsError>(FsError::IsADirectory) && final(self)@ == old(self)@,
            old(self)@.contains_key(inode_id) && old(self)@[inode_id].inode_type != InodeType::Directory
                && offset + data@.len() > MAX_FILE_SIZE ==> r == Err::<usize, FsError>(FsError::NoSpace) && final(self)@ == old(self)@,
            old(self)@.contains_key(inode_id) && old(self)@[inode_id].inode_type != InodeType::Directory
                && offset + data@.len() <= MAX_FILE_SIZE ==> {
                let old_i = old(self)@[inode_id];
                let end = offset + data@.len();
                &&& r == Ok::<usize, FsError>(data@.len() as usize)
                &&& final(self)@ == old(self)@.insert(inode_id, InodeView {
                    data: written_data(old_i.data, offset as int, data@),
                    size: (if old_i.size > end { old_i.size as int } else { end }) as usize,
                    ..old_i
                })
            },
    {
        proof {
            self.lemma_view(inode_id);
        }
        let ghost old_map = self@;
        let mut inode = match self.inodes.remove(&inode_id) {
            Some(i) => i,
            None => {
                assert(self@ =~= old_map);
                return Err(FsError::NotFound);
            },
        };
        if inode.inode_type == InodeType::Directory {
            self.inodes.insert(inode_id, inode);
            assert(self@ =~= old_map);
            return Err(FsError::IsADirectory);
        }
        let end_pos = offset + data.len();
        if end_pos > MAX_FILE_SIZE {
            self.inodes.insert(inode_id, inode);
            assert(self@ =~= old_map);
            return Err(FsError::NoSpace);
        }
        let ghost old_data = inode.data@;
        let ghost old_view = inode@;
        assert(old_view == old_map[inode_id]);
        if end_pos > inode.data.len() {
            inode.data.resize(end_pos, 0);
            assert(inode.data@ =~= old_data + Seq::new((end_pos - old_data.len()) as nat, |i: int| 0u8));
        }
        let ghost ext = inode.data@;
        assert(inode@ =~= InodeView { data: inode.data@, ..old_view });
        let mut k: usize = 0;
        while k < data.len()
            invariant
                k <= data@.len(),
                offset + data@.len() <= ext.len(),
                offset + data@.len() <= usize::MAX,
                inode@ =~= (InodeView { data: inode.data@, ..old_view }),
                inode.data@.len() == ext.len(),
                inode.data@ == ext.subrange(0, offset as int) + data@.subrange(0, k as int) + ext.subrange(offset + k, ext.len() as int),
            decreases data.len() - k,
        {
            inode.data.set(offset + k, data[k]);
            k = k + 1;
            assert(inode.data@ =~= ext.subrange(0, offset as int) + data@.subrange(0, k as int) + ext.subrange(offset + k, ext.len() as int));
        }
        assert(data@.subrange(0, data@.len() as int) =~= data@);
        assert(inode.data@ =~= written_data(old_data, offset as int, data@));
        inode.size = if inode.size > end_pos { inode.size } else { end_pos };
        assert(inode.data@ == written_data(old_data, offset as int, data@));
        assert(inode.name@ == old_view.name);
        assert(inode.children@ == old_view.children);
        assert(inode@ =~= InodeView {
            data: written_data(old_data, offset as int, data@),
            size: (if old_view.size > end_pos { old_view.size as int } else { end_pos as int }) as usize,
            ..old_view
        });
        self.inodes.insert(inode_id, inode);
        proof {
            assert(self@ =~= old_map.insert(inode_id, InodeView {
                data: written_data(old_data, offset as int, data@),
                size: (if old_map[inode_id].size > end_pos { old_map[inode_id].size as int } else { end_pos as int }) as usize,
                ..old_map[inode_id]
            }));
        }
        Ok(data.len())
    }

    /// Truncate file to specified size
    pub fn truncate(&mut self, inode_id: u64, size: usize) -> (r: FsResult<()>)
        requires
            old(self).wf(),
        ensures
            final(self).wf(),
            final(self).root_id() == old(self).root_id(),
            final(self).next_id() == old(self).next_id(),
            !old(self)@.contains_key(inode_id) ==> r == Err::<(), FsError>(FsError::NotFound) && final(self)@ == old(self)@,
            old(self)@.contains_key(inode_id) && old(self)@[inode_id].inode_type == InodeType::Directory
                ==> r == Err::<(), FsError>(FsError::IsADirectory) && final(self)@ == old(self)@,
            old(self)@.contains_key(inode_id) && old(self)@[inode_id].inode_type != InodeType::Directory
                && size > MAX_FILE_SIZE ==> r == Err::<(), FsError>(FsError::NoSpace) && final(self)@ == old(self)@,
            old(self)@.contains_key(inode_id) && old(self)@[inode_id].inode_type != InodeType::Directory
                && size <= MAX_FILE_SIZE ==> {
                &&& r == Ok::<(), FsError>(())
                &&& final(self)@ == old(self)@.insert(inode_id, InodeView {
                    data: resized_data(old(self)@[inode_id].data, size as int),
                    size: size,
                    ..old(self)@[inode_id]
                })
            },
    {
        proof {
            self.lemma_view(inode_id);
        }
        let ghost old_map = self@;
        let mut inode = match self.inodes.remove(&inode_id) {
            Some(i) => i,
            None => {
                assert(self@ =~= old_map);
                return Err(FsError::NotFound);
            },
        };
        if inode.inode_type == InodeType::Directory {
            self.inodes.insert(inode_id, inode);
            assert(self@ =~= old_map);
            return Err(FsError::IsADirectory);
        }
        if size > MAX_FILE_SIZE {
            self.inodes.insert(inode_id, inode);
            assert(self@ =~= old_map);
            return Err(FsError::NoSpace);
        }
        let ghost old_data = inode.data@;
        inode.data.resize(size, 0);
        assert(inode.data@ =~= resized_data(old_data, size as int));
        inode.size = size;
        self.inodes.insert(inode_id, inode);
        proof {
            assert(self@ =~= old_map.insert(inode_id, InodeView {
                data: resized_data(old_data, size as int),
                size: size,
                ..old_map[inode_id]
            }));
        }
        Ok(())
    }

    /// Get inode metadata
    pub fn stat(&self, path: &str) -> (r: FsResult<Stat>)
        requires
            self.wf(),
        ensures
            match lookup_spec(self@, self.root_id(), path@) {
                Err(e) => r == Err::<Stat, FsError>(e),
                Ok(id) => if self@.contains_key(id) {
                    r == Ok::<Stat, FsError>(self@[id].stat())
                } else {
                    r == Err::<Stat, FsError>(FsError::NotFound)
                },
            },
    {
        let inode_id = match self.lookup(path) {
            Ok(i) => i,
            Err(e) => {
                return Err(e);
            },
        };
        match self.get(inode_id) {
            Ok(inode) => Ok(inode.stat()),
            Err(e) => Err(e),
        }
    }
}

/// Whether name `a` sorts at or before name `b`.
pub(crate) fn names_le(a: &String, b: &String) -> (r: bool)
    ensures
        r == name_le(a@, b@),
{
    let la = a.unicode_len();
    let lb = b.unicode_len();
    let mut i: usize = 0;
    assert(a@.subrange(0, la as int) =~= a@);
    assert(b@.subrange(0, lb as int) =~= b@);
    while i < la && i < lb
        invariant
            la == a@.len(),
            lb == b@.len(),
            i <= la,
            i <= lb,
            name_le(a@, b@) == name_le(a@.subrange(i as int, la as int), b@.subrange(i as int, lb as int)),
        decreases la - i,
    {
        let ca = a.as_str().get_char(i);
        let cb = b.as_str().get_char(i);
        let ghost ra = a@.subrange(i as int, la as int);
        let ghost rb = b@.subrange(i as int, lb as int);
        assert(ra[0] == ca && rb[0] == cb);
        if ca != cb {
            return ca < cb;
        }
        assert(ra.drop_first() =~= a@.subrange(i + 1, la as int));
        assert(rb.drop_first() =~= b@.subrange(i + 1, lb as int));
        i = i + 1;
    }
    i == la
}

fn entry_of(inode: &Inode) -> (e: DirEntry)
    ensures
        e@ == inode@.entry(),
{
    DirEntry { name: inode.name.clone(), inode: inode.id, inode_type: inode.inode_type, size: inode.size }
}

pub open spec fn entry_views(v: Seq<DirEntry>) -> Seq<DirEntryView> {
    v.map_values(|e: DirEntry| e@)
}

/// Insert `e` into the name-sorted `v`, keeping it sorted.
fn insert_sorted(v: &mut Vec<DirEntry>, e: DirEntry)
    requires
        sorted_by_name(entry_views(old(v)@)),
    ensures
        sorted_by_name(entry_views(final(v)@)),
        entry_views(final(v)@).to_multiset() == entry_views(old(v)@).to_multiset().insert(e@),
{
    let ghost ov = entry_views(v@);
    let mut k: usize = 0;
    while k < v.len() && names_le(&v[k].name, &e.name)
        invariant
            k <= v.len(),
            v@ == old(v)@,
            ov == entry_views(v@),
            forall|j: int| 0 <= j < k ==> name_le(#[trigger] ov[j].name, e.name@),
        decreases v.len() - k,
    {
        k = k + 1;
    }
    assert(k < v.len() ==> !name_le(ov[k as int].name, e.name@));
    let ghost ev = e@;
    v.insert(k, e);
    let ghost nv = entry_views(v@);
    assert(nv =~= ov.insert(k as int, ev));
    proof {
        if k < ov.len() {
            lemma_name_le_total(ov[k as int].name, ev.name);
        }
        assert forall|i: int| 0 <= i < nv.len() - 1 implies #[trigger] name_le(nv[i].name, nv[i + 1].name) by {
            if i < k - 1 {
                assert(nv[i] == ov[i] && nv[i + 1] == ov[i + 1]);
                assert(name_le(ov[i].name, ov[i + 1].name));
            } else if i == k - 1 {
                assert(nv[i] == ov[i] && nv[i + 1] == ev);
                assert(name_le(ov[i].name, e.name@));
            } else if i == k {
                assert(nv[i] == ev && nv[i + 1] == ov[i]);
            } else {
                assert(nv[i] == ov[i - 1] && nv[i + 1] == ov[i]);
                let j = i - 1;
                assert(name_le(ov[j].name, ov[j + 1].name));
            }
        }
        assert(nv.remove(k as int) =~= ov);
        assert(nv[k as int] == ev);
        nv.to_multiset_ensures();
        assert(nv.to_multiset().remove(ev) == ov.to_multiset());
        assert(nv.to_multiset().count(ev) > 0) by {
            assert(nv.contains(ev));
        }
        assert(nv.to_multiset() =~= ov.to_multiset().insert(ev));
    }
}

impl RamFs {
    /// Read directory entries, sorted by name
    pub fn readdir(&self, inode_id: u64) -> (r: FsResult<Vec<DirEntry>>)
        requires
            self.wf(),
        ensures
            !self@.contains_key(inode_id) ==> (r matches Err(FsError::NotFound)),
            self@.contains_key(inode_id) && self@[inode_id].inode_type != InodeType::Directory ==> (r matches Err(FsError::NotADirectory)),
            self@.contains_key(inode_id) && self@[inode_id].inode_type == InodeType::Directory ==> (r matches Ok(v) && {
                &&& sorted_by_name(entry_views(v@))
                &&& entry_views(v@).to_multiset() == child_entries(self@, self@[inode_id].children).to_multiset()
                &&& entry_views(v@).to_multiset() == child_listing(self@, self@[inode_id].children).to_multiset()
            }),
    {
        let inode = match self.get(inode_id) {
            Ok(i) => i,
            Err(e) => {
                return Err(e);
            },
        };
        if inode.inode_type != InodeType::Directory {
            return Err(FsError::NotADirectory);
        }
        let mut entries: Vec<DirEntry> = Vec::new();
        let mut i: usize = 0;
        assert(entry_views(entries@) =~= Seq::<DirEntryView>::empty());
        while i < inode.children.len()
            invariant
                i <= inode.children.len(),
                inode@ == self@[inode_id],
                sorted_by_name(entry_views(entries@)),
                entry_views(entries@).to_multiset() == child_entries(self@, inode.children@.subrange(0, i as int)).to_multiset(),
            decreases inode.children.len() - i,
        {
            let cid = inode.children[i];
            assert(inode.children@.subrange(0, i + 1).drop_last() =~= inode.children@.subrange(0, i as int));
            proof {
                self.lemma_view(cid);
            }
            match self.inodes.get(&cid) {
                Some(child) => {
                    let e = entry_of(child);
                    proof {
                        let pre = child_entries(self@, inode.children@.subrange(0, i as int));
                        pre.to_multiset_ensures();
                    }
                    insert_sorted(&mut entries, e);
                },
                None => {},
            }
            i = i + 1;
        }
        assert(inode.children@.subrange(0, inode.children@.len() as int) =~= inode.children@);
        proof {
            lemma_child_entries_all(self@, self@[inode_id].children);
        }
        Ok(entries)
    }
}

impl Default for RamFs {
    fn default() -> (fs: RamFs)
        ensures
            fs.wf(),
            fs.root_id() == 1,
            fs@ == map![1u64 => fresh_inode(1, InodeType::Directory, seq!['/'], None, 0, 0)],
    {
        RamFs::new()
    }
}
} // verus!
