use crate::paths::{append_parts, has_md_extension, lemma_deep_view_push, spec_ext};
use vstd::prelude::*;

verus! {

/// What a directory listing says one entry is.
#[derive(Clone, Copy, Debug, PartialEq, Eq, Structural)]
pub enum EntryKind {
    Directory,
    File,
    Other,
}

/// One entry of a directory listing: its bare name and what it is.
pub struct DirEntry {
    pub name: String,
    pub kind: EntryKind,
}

impl View for DirEntry {
    type V = (Seq<char>, EntryKind);

    open spec fn view(&self) -> (Seq<char>, EntryKind) {
        (self.name@, self.kind)
    }
}

impl DeepView for DirEntry {
    type V = (Seq<char>, EntryKind);

    open spec fn deep_view(&self) -> (Seq<char>, EntryKind) {
        (self.name@, self.kind)
    }
}

/// The subdirectories a listing of `dir` queues: each directory entry extends
/// the path of `dir` by its name, in listing order.
pub open spec fn spec_subdirs(dir: Seq<Seq<char>>, entries: Seq<(Seq<char>, EntryKind)>) -> Seq<
    Seq<Seq<char>>,
>
    decreases entries.len(),
{
    if entries.len() == 0 {
        Seq::empty()
    } else {
        let rest = spec_subdirs(dir, entries.drop_last());
        if entries.last().1 == EntryKind::Directory {
            rest.push(dir.push(entries.last().0))
        } else {
            rest
        }
    }
}

/// The source documents a listing of `dir` yields: the file entries whose name
/// carries the source extension, each extending the path of `dir` by its name,
/// in listing order.
pub open spec fn spec_sources(dir: Seq<Seq<char>>, entries: Seq<(Seq<char>, EntryKind)>) -> Seq<
    Seq<Seq<char>>,
>
    decreases entries.len(),
{
    if entries.len() == 0 {
        Seq::empty()
    } else {
        let rest = spec_sources(dir, entries.drop_last());
        if entries.last().1 == EntryKind::File && spec_ext(entries.last().0) == Some("md"@) {
            rest.push(dir.push(entries.last().0))
        } else {
            rest
        }
    }
}

/// An empty directory contributes nothing: its listing queues no directory and
/// yields no document, and scanning it is no error.
pub proof fn lemma_empty_listing(dir: Seq<Seq<char>>)
    ensures
        spec_subdirs(dir, Seq::empty()) == Seq::<Seq<Seq<char>>>::empty(),
        spec_sources(dir, Seq::empty()) == Seq::<Seq<Seq<char>>>::empty(),
{
}

fn child_path(dir: &Vec<String>, name: &String) -> (r: Vec<String>)
    ensures
        r.deep_view() == dir.deep_view().push(name@),
{
    let mut r: Vec<String> = Vec::new();
    proof {
        assert(r.deep_view() + dir.deep_view() =~= dir.deep_view());
    }
    append_parts(&mut r, dir);
    let ghost pre = r;
    let child = name.clone();
    let ghost child_val = child;
    r.push(child);
    proof {
        lemma_deep_view_push(r, pre, child_val);
    }
    r
}

/// One step of the walk over the source tree: a directory's listing queues its
/// subdirectories for visiting and collects its source documents. An entry
/// that is neither a directory nor a file, and a file without the source
/// extension, is passed over.
pub fn scan_step(
    dir: &Vec<String>,
    entries: &Vec<DirEntry>,
    dirstack: &mut Vec<Vec<String>>,
    found: &mut Vec<Vec<String>>,
)
    ensures
        final(dirstack).deep_view() == old(dirstack).deep_view() + spec_subdirs(
            dir.deep_view(),
            entries.deep_view(),
        ),
        final(found).deep_view() == old(found).deep_view() + spec_sources(
            dir.deep_view(),
            entries.deep_view(),
        ),
{
    let ghost dirv = dir.deep_view();
    let ghost edv = entries.deep_view();
    proof {
        assert(old(dirstack).deep_view() + spec_subdirs(dirv, edv.take(0)) =~= old(
            dirstack,
        ).deep_view());
        assert(old(found).deep_view() + spec_sources(dirv, edv.take(0)) =~= old(
            found,
        ).deep_view());
    }
    let mut i: usize = 0;
    while i < entries.len()
        invariant
            i <= entries.len(),
            dirv == dir.deep_view(),
            edv == entries.deep_view(),
            dirstack.deep_view() == old(dirstack).deep_view() + spec_subdirs(
                dirv,
                edv.take(i as int),
            ),
            found.deep_view() == old(found).deep_view() + spec_sources(dirv, edv.take(i as int)),
        decreases entries.len() - i,
    {
        proof {
            assert(edv.len() == entries@.len());
            assert(edv[i as int] == entries@[i as int].deep_view());
            assert(edv.take(i + 1).drop_last() =~= edv.take(i as int));
            assert(edv.take(i + 1).last() == edv[i as int]);
        }
        let entry = &entries[i];
        match entry.kind {
            EntryKind::Directory => {
                let ghost pre = *dirstack;
                let child = child_path(dir, &entry.name);
                let ghost child_val = child;
                dirstack.push(child);
                proof {
                    lemma_deep_view_push(*dirstack, pre, child_val);
                }
            },
            EntryKind::File => {
                if has_md_extension(entry.name.as_str()) {
                    let ghost pre = *found;
                    let child = child_path(dir, &entry.name);
                    let ghost child_val = child;
                    found.push(child);
                    proof {
                        lemma_deep_view_push(*found, pre, child_val);
                    }
                }
            },
            EntryKind::Other => {},
        }
        i = i + 1;
    }
    proof {
        assert(edv.take(entries.len() as int) =~= edv);
    }
}

} // verus!
