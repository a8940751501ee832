use vstd::prelude::*;

verus! {

use vstd::string::StringExecFns;
use crate::chars::str_eq;

/// One entry of the file tree: a file, or a directory with its children
/// (children are filled in lazily, when the directory is first
/// expanded).
#[derive(Debug)]
pub enum FileEntry {
    File { path: String, name: String },
    Directory { path: String, name: String, children: Vec<FileEntry> },
}

/// A file-tree entry as the contracts see it.
pub enum EntryModel {
    File { path: Seq<char>, name: Seq<char> },
    Directory { path: Seq<char>, name: Seq<char>, children: Seq<EntryModel> },
}

/// The model of one entry.
pub open spec fn model_of(e: FileEntry) -> EntryModel
    decreases e,
{
    match e {
        FileEntry::File { path, name } => EntryModel::File { path: path@, name: name@ },
        FileEntry::Directory { path, name, children } => EntryModel::Directory {
            path: path@,
            name: name@,
            children: models_of(children@),
        },
    }
}

/// The model of a list of entries.
pub open spec fn models_of(s: Seq<FileEntry>) -> Seq<EntryModel>
    decreases s,
{
    if s.len() == 0 {
        Seq::empty()
    } else {
        models_of(s.drop_last()).push(model_of(s.last()))
    }
}

/// An entry after handing `ch` to the directory named `target`: the
/// first directory with that path receives the children if it has none
/// yet; every other directory is searched recursively.
pub open spec fn populate_model(m: EntryModel, target: Seq<char>, ch: Seq<EntryModel>) -> EntryModel
    decreases m,
{
    match m {
        EntryModel::File { .. } => m,
        EntryModel::Directory { path, name, children } => {
            if path == target {
                if children.len() == 0 {
                    EntryModel::Directory { path, name, children: ch }
                } else {
                    m
                }
            } else {
                EntryModel::Directory {
                    path,
                    name,
                    children: populate_models(children, target, ch),
                }
            }
        },
    }
}

/// A list of entries after handing `ch` to the directory named `target`.
pub open spec fn populate_models(s: Seq<EntryModel>, target: Seq<char>, ch: Seq<EntryModel>) -> Seq<
    EntryModel,
>
    decreases s,
{
    if s.len() == 0 {
        Seq::empty()
    } else {
        populate_models(s.drop_last(), target, ch).push(populate_model(s.last(), target, ch))
    }
}

/// Deep copy of one entry.
fn clone_entry(e: &FileEntry) -> (r: FileEntry)
    ensures
        model_of(r) == model_of(*e),
    decreases *e,
{
    match e {
        FileEntry::File { path, name } => FileEntry::File {
            path: path.clone(),
            name: name.clone(),
        },
        FileEntry::Directory { path, name, children } => {
            let mut kids: Vec<FileEntry> = Vec::new();
            let n = children.len();
            let mut i: usize = 0;
            proof {
                assert(models_of(kids@) =~= models_of(children@.take(0)));
            }
            while i < n
                invariant
                    i <= n == children@.len(),
                    (*e) is Directory,
                    models_of(kids@) == models_of(children@.take(i as int)),
                    forall|k: int| 0 <= k < children@.len() ==> children@[k] == e->Directory_children@[k],
                    n == e->Directory_children@.len(),
                decreases n - i,
            {
                proof {
                    assert(children@[i as int] == e->Directory_children@[i as int]);
                    assert(decreases_to!(*e => e->Directory_children));
                    assert(decreases_to!(e->Directory_children => e->Directory_children@));
                    assert(decreases_to!(
                        e->Directory_children@ => e->Directory_children@[i as int]
                    ));
                    assert(decreases_to!(*e => children@[i as int]));
                }
                let ghost prev = kids@;
                let c = clone_entry(&children[i]);
                kids.push(c);
                proof {
                    assert(kids@.drop_last() =~= prev);
                    assert(children@.take(i + 1).drop_last() =~= children@.take(i as int));
                    assert(children@.take(i + 1).last() == children@[i as int]);
                    assert(models_of(kids@) =~= models_of(children@.take(i + 1)));
                }
                i = i + 1;
            }
            proof {
                assert(children@.take(n as int) =~= children@);
            }
            FileEntry::Directory { path: path.clone(), name: name.clone(), children: kids }
        },
    }
}

/// Deep copy of a list of entries.
fn clone_entries(v: &Vec<FileEntry>) -> (r: Vec<FileEntry>)
    ensures
        models_of(r@) == models_of(v@),
{
    let mut out: Vec<FileEntry> = Vec::new();
    let n = v.len();
    let mut i: usize = 0;
    proof {
        assert(models_of(out@) =~= models_of(v@.take(0)));
    }
    while i < n
        invariant
            i <= n == v@.len(),
            models_of(out@) == models_of(v@.take(i as int)),
        decreases n - i,
    {
        let ghost prev = out@;
        let c = clone_entry(&v[i]);
        out.push(c);
        proof {
            assert(out@.drop_last() =~= prev);
            assert(v@.take(i + 1).drop_last() =~= v@.take(i as int));
            assert(v@.take(i + 1).last() == v@[i as int]);
            assert(models_of(out@) =~= models_of(v@.take(i + 1)));
        }
        i = i + 1;
    }
    proof {
        assert(v@.take(n as int) =~= v@);
    }
    out
}

/// One entry after handing `children` to the directory named `target`.
fn populate_entry(e: &FileEntry, target: &str, children: &Vec<FileEntry>) -> (r: FileEntry)
    ensures
        model_of(r) == populate_model(model_of(*e), target@, models_of(children@)),
    decreases *e,
{
    match e {
        FileEntry::File { path, name } => FileEntry::File {
            path: path.clone(),
            name: name.clone(),
        },
        FileEntry::Directory { path, name, children: kids } => {
            if str_eq(path.as_str(), target) {
                if kids.len() == 0 {
                    proof {
                        assert(models_of(kids@) =~= Seq::<EntryModel>::empty());
                    }
                    FileEntry::Directory {
                        path: path.clone(),
                        name: name.clone(),
                        children: clone_entries(children),
                    }
                } else {
                    FileEntry::Directory {
                        path: path.clone(),
                        name: name.clone(),
                        children: clone_entries(kids),
                    }
                }
            } else {
                let mut out: Vec<FileEntry> = Vec::new();
                let n = kids.len();
                let mut i: usize = 0;
                proof {
                    assert(models_of(out@) =~= models_of(kids@.take(0)));
                    assert(populate_models(
                        models_of(kids@.take(0)),
                        target@,
                        models_of(children@),
                    ) =~= models_of(out@));
                }
                while i < n
                    invariant
                        i <= n == kids@.len(),
                        (*e) is Directory,
                        models_of(out@) == populate_models(
                            models_of(kids@.take(i as int)),
                            target@,
                            models_of(children@),
                        ),
                        forall|k: int|
                            0 <= k < kids@.len() ==> kids@[k] == e->Directory_children@[k],
                        n == e->Directory_children@.len(),
                    decreases n - i,
                {
                    proof {
                        assert(kids@[i as int] == e->Directory_children@[i as int]);
                        assert(decreases_to!(*e => e->Directory_children));
                        assert(decreases_to!(e->Directory_children => e->Directory_children@));
                        assert(decreases_to!(
                            e->Directory_children@ => e->Directory_children@[i as int]
                        ));
                        assert(decreases_to!(*e => kids@[i as int]));
                    }
                    let ghost prev = out@;
                    let p = populate_entry(&kids[i], target, children);
                    out.push(p);
                    proof {
                        assert(out@.drop_last() =~= prev);
                        lemma_models_take_step(kids@, i as int);
                        let ms = models_of(kids@.take(i + 1));
                        assert(ms.drop_last() =~= models_of(kids@.take(i as int)));
                        assert(ms.last() == model_of(kids@[i as int]));
                        assert(models_of(out@) =~= populate_models(
                            ms,
                            target@,
                            models_of(children@),
                        ));
                    }
                    i = i + 1;
                }
                proof {
                    assert(kids@.take(n as int) =~= kids@);
                }
                FileEntry::Directory { path: path.clone(), name: name.clone(), children: out }
            }
        },
    }
}

/// One more entry makes one more model entry.
proof fn lemma_models_take_step(s: Seq<FileEntry>, i: int)
    requires
        0 <= i < s.len(),
    ensures
        models_of(s.take(i + 1)) == models_of(s.take(i)).push(model_of(s[i])),
{
    assert(s.take(i + 1).drop_last() =~= s.take(i));
    assert(s.take(i + 1).last() == s[i]);
}

/// Hand `children` to the directory named `target`, wherever it stands
/// in the tree; a directory that already has children keeps them.
pub fn populate_children(entries: &mut Vec<FileEntry>, target: &str, children: &Vec<FileEntry>)
    ensures
        models_of(final(entries)@) == populate_models(
            models_of(old(entries)@),
            target@,
            models_of(children@),
        ),
{
    let mut out: Vec<FileEntry> = Vec::new();
    let n = entries.len();
    let mut i: usize = 0;
    proof {
        assert(models_of(out@) =~= Seq::<EntryModel>::empty());
        assert(populate_models(
            models_of(entries@.take(0)),
            target@,
            models_of(children@),
        ) =~= models_of(out@));
    }
    while i < n
        invariant
            i <= n == entries@.len(),
            entries@ == old(entries)@,
            models_of(out@) == populate_models(
                models_of(entries@.take(i as int)),
                target@,
                models_of(children@),
            ),
        decreases n - i,
    {
        let ghost prev = out@;
        let p = populate_entry(&entries[i], target, children);
        out.push(p);
        proof {
            assert(out@.drop_last() =~= prev);
            lemma_models_take_step(entries@, i as int);
            let ms = models_of(entries@.take(i + 1));
            assert(ms.drop_last() =~= models_of(entries@.take(i as int)));
            assert(ms.last() == model_of(entries@[i as int]));
            assert(models_of(out@) =~= populate_models(ms, target@, models_of(children@)));
        }
        i = i + 1;
    }
    proof {
        assert(entries@.take(n as int) =~= entries@);
    }
    *entries = out;
}

/// The views of a list of expanded paths.
pub open spec fn path_views(s: Seq<String>) -> Seq<Seq<char>>
    decreases s,
{
    if s.len() == 0 {
        Seq::empty()
    } else {
        path_views(s.drop_last()).push(s.last()@)
    }
}

/// A path stands in the expanded list.
pub open spec fn path_listed(s: Seq<Seq<char>>, x: Seq<char>) -> bool {
    exists|i: int| 0 <= i < s.len() && s[i] == x
}

/// The expanded list without every occurrence of `x`.
pub open spec fn paths_without(s: Seq<Seq<char>>, x: Seq<char>) -> Seq<Seq<char>>
    decreases s,
{
    if s.len() == 0 {
        Seq::empty()
    } else if s.last() == x {
        paths_without(s.drop_last(), x)
    } else {
        paths_without(s.drop_last(), x).push(s.last())
    }
}

/// The project file tree: the root path, the scanned entries, which
/// directories are expanded, and the selected path.  Scanning the file
/// system is the host's job: it hands freshly scanned entries in.
pub struct FileTree {
    pub root: String,
    pub entries: Vec<FileEntry>,
    pub expanded: Vec<String>,
    pub selected: Option<String>,
}

impl FileTree {
    /// A tree rooted at `root` with nothing scanned yet.
    pub fn new(root: String) -> (r: Self)
        ensures
            r.root@ == root@,
            r.entries@ == Seq::<FileEntry>::empty(),
            r.expanded@ == Seq::<String>::empty(),
            r.selected is None,
    {
        FileTree { root, entries: Vec::new(), expanded: Vec::new(), selected: None }
    }

    /// Whether the directory at `path` is currently expanded.
    pub fn is_expanded(&self, path: &str) -> (r: bool)
        ensures
            r == path_listed(path_views(self.expanded@), path@),
    {
        let n = self.expanded.len();
        let mut i: usize = 0;
        while i < n
            invariant
                i <= n == self.expanded@.len(),
                forall|k: int| 0 <= k < i ==> self.expanded@[k]@ != path@,
            decreases n - i,
        {
            if str_eq(self.expanded[i].as_str(), path) {
                proof {
                    lemma_path_views_index(self.expanded@, i as int);
                    assert(path_views(self.expanded@)[i as int] == path@);
                }
                return true;
            }
            i = i + 1;
        }
        proof {
            lemma_path_views_len(self.expanded@);
            if path_listed(path_views(self.expanded@), path@) {
                let w = choose|k: int|
                    0 <= k < path_views(self.expanded@).len() && path_views(self.expanded@)[k]
                        == path@;
                lemma_path_views_index(self.expanded@, w);
            }
        }
        false
    }

    /// Expand or collapse the directory at `path`.  Expanding remembers
    /// the path and hands the freshly scanned `children` to that
    /// directory (kept only if it had none); collapsing forgets the
    /// path and leaves the entries alone.
    pub fn toggle_folder(&mut self, path: &str, children: &Vec<FileEntry>)
        ensures
            final(self).root == old(self).root,
            final(self).selected == old(self).selected,
            path_listed(path_views(old(self).expanded@), path@) ==> path_views(
                final(self).expanded@,
            ) == paths_without(path_views(old(self).expanded@), path@) && final(self).entries
                == old(self).entries,
            !path_listed(path_views(old(self).expanded@), path@) ==> path_views(
                final(self).expanded@,
            ) == path_views(old(self).expanded@).push(path@) && models_of(final(self).entries@)
                == populate_models(
                models_of(old(self).entries@),
                path@,
                models_of(children@),
            ),
    {
        if self.is_expanded(path) {
            let mut kept: Vec<String> = Vec::new();
            let n = self.expanded.len();
            let mut i: usize = 0;
            proof {
                assert(path_views(kept@) =~= paths_without(
                    path_views(self.expanded@.take(0)),
                    path@,
                ));
            }
            while i < n
                invariant
                    i <= n == self.expanded@.len(),
                    self == old(self),
                    path_views(kept@) == paths_without(
                        path_views(self.expanded@.take(i as int)),
                        path@,
                    ),
                decreases n - i,
            {
                proof {
                    lemma_path_views_take_step(self.expanded@, i as int);
                    let pv1 = path_views(self.expanded@.take(i + 1));
                    assert(pv1.drop_last() =~= path_views(self.expanded@.take(i as int)));
                    assert(pv1.last() == self.expanded@[i as int]@);
                }
                if !str_eq(self.expanded[i].as_str(), path) {
                    let ghost prev = kept@;
                    kept.push(self.expanded[i].clone());
                    proof {
                        assert(kept@.drop_last() =~= prev);
                        assert(kept@.last()@ == self.expanded@[i as int]@);
                    }
                }
                i = i + 1;
            }
            proof {
                assert(self.expanded@.take(n as int) =~= self.expanded@);
            }
            self.expanded = kept;
        } else {
            let ghost prev = self.expanded@;
            self.expanded.push(String::from_str(path));
            proof {
                assert(self.expanded@.drop_last() =~= prev);
                assert(self.expanded@.last()@ == path@);
                assert(path_views(self.expanded@) =~= path_views(prev).push(path@));
            }
            populate_children(&mut self.entries, path, children);
        }
    }

    /// Remember `path` as the selected entry.
    pub fn select(&mut self, path: String)
        ensures
            final(self).selected matches Some(p) && p@ == path@,
            final(self).root == old(self).root,
            final(self).entries == old(self).entries,
            final(self).expanded == old(self).expanded,
    {
        self.selected = Some(path);
    }

    /// Replace the entries with a fresh scan of the root; the expanded
    /// set and the selection are kept (the host re-populates expanded
    /// directories afterwards, shallowest first).
    pub fn refresh(&mut self, entries: Vec<FileEntry>)
        ensures
            final(self).entries == entries,
            final(self).root == old(self).root,
            final(self).expanded == old(self).expanded,
            final(self).selected == old(self).selected,
    {
        self.entries = entries;
    }
}

/// The `k`-th path view is the view of the `k`-th path.
proof fn lemma_path_views_index(s: Seq<String>, k: int)
    requires
        0 <= k < s.len(),
    ensures
        path_views(s).len() == s.len(),
        path_views(s)[k] == s[k]@,
    decreases s.len(),
{
    lemma_path_views_len(s);
    if k < s.len() - 1 {
        lemma_path_views_index(s.drop_last(), k);
    }
}

proof fn lemma_path_views_len(s: Seq<String>)
    ensures
        path_views(s).len() == s.len(),
    decreases s.len(),
{
    if s.len() > 0 {
        lemma_path_views_len(s.drop_last());
    }
}

/// One more path makes one more view entry.
proof fn lemma_path_views_take_step(s: Seq<String>, i: int)
    requires
        0 <= i < s.len(),
    ensures
        path_views(s.take(i + 1)) == path_views(s.take(i)).push(s[i]@),
{
    assert(s.take(i + 1).drop_last() =~= s.take(i));
    assert(s.take(i + 1).last() == s[i]);
}

} // verus!
