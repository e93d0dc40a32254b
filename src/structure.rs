use vstd::prelude::*;
use std::io::Read;
use crate::Error;

verus! {

#[verifier::external_type_specification]
#[verifier::external_body]
pub struct ExIoError(std::io::Error);

/// One entry of a tar archive, as read from it.
pub struct ArchiveEntry {
    /// The entry's path, as written in the archive.
    pub path: String,
    pub is_dir: bool,
    pub contents: Vec<u8>,
}

/// Mathematical model of [`ArchiveEntry`]: path, directory flag, contents.
pub type EntryView = (Seq<char>, bool, Seq<u8>);

impl View for ArchiveEntry {
    type V = EntryView;

    open spec fn view(&self) -> EntryView {
        (self.path@, self.is_dir, self.contents@)
    }
}

/// The entries of the gzip-compressed tar archive `data`, in archive order; `None` where
/// `data` cannot be read as one.
pub uninterp spec fn archive_entries_of(data: Seq<u8>) -> Option<Seq<EntryView>>;

/// The parent of a path, as `Path::parent` gives it; `None` for a path without one.
pub uninterp spec fn parent_of(path: Seq<char>) -> Option<Seq<char>>;

/// Relies on flate2's `GzDecoder` and tar's `Archive::entries`: each entry's path, whether it
/// is a directory, and its contents. Reading depends on the bytes alone.
#[verifier::external_body]
fn read_archive(data: &Vec<u8>) -> (r: Result<Vec<ArchiveEntry>, std::io::Error>)
    ensures
        r is Ok <==> archive_entries_of(data@) is Some,
        r matches Ok(v) ==> archive_entries_of(data@) == Some(
            v@.map_values(|e: ArchiveEntry| e@),
        ),
{
    let decoder = flate2::bufread::GzDecoder::new(std::io::Cursor::new(data.as_slice()));
    let mut archive = tar::Archive::new(decoder);
    let mut out = Vec::new();
    for entry in archive.entries()? {
        let mut entry = entry?;
        let path = entry.path()?.to_string_lossy().into_owned();
        let is_dir = entry.header().entry_type().is_dir();
        let mut contents = Vec::new();
        entry.read_to_end(&mut contents)?;
        out.push(ArchiveEntry { path, is_dir, contents });
    }
    Ok(out)
}

/// Relies on std's `Path::parent`: the parent of `path` (text in, so text out).
#[verifier::external_body]
fn path_parent(path: &String) -> (r: Option<String>)
    ensures
        r.deep_view() == parent_of(path@),
{
    std::path::Path::new(path.as_str()).parent().map(|p| p.to_string_lossy().into_owned())
}

/// What the listing holds for a path: a file's contents, or the paths in a directory.
pub enum Listing {
    Contents(Vec<u8>),
    Children(Vec<String>),
}

/// Mathematical model of [`Listing`].
pub ghost enum ListingView {
    Contents(Seq<u8>),
    Children(Seq<Seq<char>>),
}

impl View for Listing {
    type V = ListingView;

    open spec fn view(&self) -> ListingView {
        match self {
            Listing::Contents(c) => ListingView::Contents(c@),
            Listing::Children(c) => ListingView::Children(c.deep_view()),
        }
    }
}

/// The paths of an archive, each with what it holds, in the order the paths first appear.
pub struct ArchiveListing {
    pub paths: Vec<String>,
    pub entries: Vec<Listing>,
}

/// The listing being built: directories with the paths found in them so far, and the
/// listing's paths with their values.
pub ghost struct ListingState {
    pub dir_keys: Seq<Seq<char>>,
    pub dir_children: Seq<Seq<Seq<char>>>,
    pub keys: Seq<Seq<char>>,
    pub values: Seq<ListingView>,
}

/// Position of the first `k` in `keys`, or the length of `keys` where there is none.
pub open spec fn key_pos(keys: Seq<Seq<char>>, k: Seq<char>) -> nat
    decreases keys.len(),
{
    if keys.len() == 0 {
        0
    } else if keys[0] == k {
        0
    } else {
        1 + key_pos(keys.drop_first(), k)
    }
}

/// Paths that start with `.` are left out of the listing.
pub open spec fn hidden(path: Seq<char>) -> bool {
    path.len() > 0 && path[0] == '.'
}

/// The listing after one more entry: a directory starts an empty list of its own (replacing
/// any earlier one); a path with a non-empty parent is added to its parent's list; the path
/// gets its value (an empty list for a directory, the contents for a file).
pub open spec fn step(st: ListingState, e: EntryView) -> ListingState {
    if hidden(e.0) {
        st
    } else {
        let p = key_pos(st.dir_keys, e.0);
        let (dk1, dc1) = if !e.1 {
            (st.dir_keys, st.dir_children)
        } else if p < st.dir_keys.len() {
            (st.dir_keys, st.dir_children.update(p as int, Seq::empty()))
        } else {
            (st.dir_keys.push(e.0), st.dir_children.push(Seq::empty()))
        };
        let (dk2, dc2) = match parent_of(e.0) {
            Some(parent) => if parent.len() > 0 {
                let q = key_pos(dk1, parent);
                if q < dk1.len() {
                    (dk1, dc1.update(q as int, dc1[q as int].push(e.0)))
                } else {
                    (dk1.push(parent), dc1.push(seq![e.0]))
                }
            } else {
                (dk1, dc1)
            },
            None => (dk1, dc1),
        };
        let value = if e.1 {
            ListingView::Children(Seq::empty())
        } else {
            ListingView::Contents(e.2)
        };
        let k = key_pos(st.keys, e.0);
        let (keys, values) = if k < st.keys.len() {
            (st.keys, st.values.update(k as int, value))
        } else {
            (st.keys.push(e.0), st.values.push(value))
        };
        ListingState { dir_keys: dk2, dir_children: dc2, keys, values }
    }
}

/// The state after all of `entries`, one after another.
pub open spec fn run(entries: Seq<EntryView>) -> ListingState
    decreases entries.len(),
{
    if entries.len() == 0 {
        ListingState {
            dir_keys: Seq::empty(),
            dir_children: Seq::empty(),
            keys: Seq::empty(),
            values: Seq::empty(),
        }
    } else {
        step(run(entries.drop_last()), entries.last())
    }
}

/// The values once each of the first `n` directories that is a path of the listing has been
/// given the list of paths found in it.
pub open spec fn finish(st: ListingState, n: nat) -> Seq<ListingView>
    decreases n,
{
    if n == 0 || n > st.dir_keys.len() {
        st.values
    } else {
        let v = finish(st, (n - 1) as nat);
        let p = key_pos(st.keys, st.dir_keys[n - 1]);
        if p < st.keys.len() && p < v.len() {
            v.update(p as int, ListingView::Children(st.dir_children[n - 1]))
        } else {
            v
        }
    }
}

proof fn lemma_key_pos(keys: Seq<Seq<char>>, k: Seq<char>, i: int)
    requires
        0 <= i <= keys.len(),
        forall|j: int| 0 <= j < i ==> keys[j] != k,
        i == keys.len() || keys[i] == k,
    ensures
        key_pos(keys, k) == i,
    decreases i,
{
    if i > 0 {
        assert forall|j: int| 0 <= j < i - 1 implies keys.drop_first()[j] != k by {
            assert(keys.drop_first()[j] == keys[j + 1]);
        }
        lemma_key_pos(keys.drop_first(), k, i - 1);
    }
}

/// Position of the first `k` in `keys`, or the length of `keys` where there is none.
fn find_key(keys: &Vec<String>, k: &String) -> (r: usize)
    ensures
        r == key_pos(keys.deep_view(), k@),
        r <= keys@.len(),
{
    let mut i: usize = 0;
    while i < keys.len()
        invariant
            i <= keys@.len(),
            forall|j: int| 0 <= j < i ==> keys.deep_view()[j] != k@,
        decreases keys@.len() - i,
    {
        if String::eq(&keys[i], k) {
            proof {
                lemma_key_pos(keys.deep_view(), k@, i as int);
            }
            return i;
        }
        i = i + 1;
    }
    proof {
        lemma_key_pos(keys.deep_view(), k@, i as int);
    }
    i
}

fn copy_string(s: &String) -> (r: String)
    ensures
        r@ == s@,
{
    s.clone()
}

fn copy_bytes(b: &Vec<u8>) -> (r: Vec<u8>)
    ensures
        r@ == b@,
{
    let r = b.clone();
    assert(r@ =~= b@);
    r
}

/// Lists the entries of an archive: each path that does not start with `.`, in the order the
/// paths first appear, with a file's contents or, for a directory, the paths found in it.
pub fn listing(entries: &Vec<ArchiveEntry>) -> (r: ArchiveListing)
    ensures
        r.paths.deep_view() == run(entries@.map_values(|e: ArchiveEntry| e@)).keys,
        r.entries@.map_values(|v: Listing| v@) == finish(
            run(entries@.map_values(|e: ArchiveEntry| e@)),
            run(entries@.map_values(|e: ArchiveEntry| e@)).dir_keys.len(),
        ),
{
    let ghost ev = entries@.map_values(|e: ArchiveEntry| e@);
    let mut dir_keys: Vec<String> = Vec::new();
    let mut dir_children: Vec<Vec<String>> = Vec::new();
    let mut keys: Vec<String> = Vec::new();
    let mut values: Vec<Listing> = Vec::new();
    let mut i: usize = 0;
    assert(ev.take(0) =~= Seq::<EntryView>::empty());
    assert(dir_keys.deep_view() =~= Seq::<Seq<char>>::empty());
    assert(dir_children.deep_view() =~= Seq::<Seq<Seq<char>>>::empty());
    assert(keys.deep_view() =~= Seq::<Seq<char>>::empty());
    assert(values@.map_values(|v: Listing| v@) =~= Seq::<ListingView>::empty());
    while i < entries.len()
        invariant
            i <= entries@.len(),
            ev == entries@.map_values(|e: ArchiveEntry| e@),
            dir_keys@.len() == dir_children@.len(),
            keys@.len() == values@.len(),
            run(ev.take(i as int)) == (ListingState {
                dir_keys: dir_keys.deep_view(),
                dir_children: dir_children.deep_view(),
                keys: keys.deep_view(),
                values: values@.map_values(|v: Listing| v@),
            }),
        decreases entries@.len() - i,
    {
        assert(ev.take(i + 1).drop_last() =~= ev.take(i as int));
        assert(ev.take(i + 1).last() == entries@[i as int]@);
        let e = &entries[i];
        let ghost st = run(ev.take(i as int));
        let ghost ei: EntryView = ev[i as int];
        assert(ei == e@);
        let ghost nx = step(st, ei);
        let hidden_path = e.path.as_str().unicode_len() > 0 && e.path.as_str().get_char(0) == '.';
        if !hidden_path {
            if e.is_dir {
                let p = find_key(&dir_keys, &e.path);
                let fresh: Vec<String> = Vec::new();
                assert(fresh.deep_view() =~= Seq::<Seq<char>>::empty());
                if p < dir_keys.len() {
                    dir_children.set(p, fresh);
                    assert(dir_children.deep_view() =~= st.dir_children.update(
                        p as int,
                        Seq::empty(),
                    ));
                } else {
                    dir_keys.push(copy_string(&e.path));
                    dir_children.push(fresh);
                    assert(dir_keys.deep_view() =~= st.dir_keys.push(ei.0));
                    assert(dir_children.deep_view() =~= st.dir_children.push(Seq::empty()));
                }
            }
            let ghost dk1 = dir_keys.deep_view();
            let ghost dc1 = dir_children.deep_view();
            let parent_found = path_parent(&e.path);
            match &parent_found {
                Some(parent) => {
                    if !parent.as_str().is_empty() {
                        let q = find_key(&dir_keys, parent);
                        if q < dir_keys.len() {
                            let mut list = dir_children[q].clone();
                            assert(list.deep_view() =~= dc1[q as int]);
                            list.push(copy_string(&e.path));
                            assert(list.deep_view() =~= dc1[q as int].push(ei.0));
                            dir_children.set(q, list);
                            assert(dir_children.deep_view() =~= dc1.update(
                                q as int,
                                dc1[q as int].push(ei.0),
                            ));
                        } else {
                            dir_keys.push(copy_string(parent));
                            let one = vec![copy_string(&e.path)];
                            assert(one.deep_view() =~= seq![ei.0]);
                            dir_children.push(one);
                            assert(dir_keys.deep_view() =~= dk1.push(parent@));
                            assert(dir_children.deep_view() =~= dc1.push(seq![ei.0]));
                        }
                    }
                },
                None => {},
            }
            assert(dir_keys.deep_view() == nx.dir_keys);
            assert(dir_children.deep_view() == nx.dir_children);
            let value = if e.is_dir {
                Listing::Children(Vec::new())
            } else {
                Listing::Contents(copy_bytes(&e.contents))
            };
            assert(value@ == (if ei.1 {
                ListingView::Children(Seq::empty())
            } else {
                ListingView::Contents(ei.2)
            })) by {
                if e.is_dir {
                    assert(value@ == ListingView::Children(value->Children_0.deep_view()));
                    assert(value->Children_0.deep_view() =~= Seq::<Seq<char>>::empty());
                }
            }
            let ghost vals0 = values@.map_values(|v: Listing| v@);
            let k = find_key(&keys, &e.path);
            if k < keys.len() {
                values.set(k, value);
                assert(values@.map_values(|v: Listing| v@) =~= vals0.update(k as int, value@));
            } else {
                keys.push(copy_string(&e.path));
                values.push(value);
                assert(keys.deep_view() =~= st.keys.push(ei.0));
                assert(values@.map_values(|v: Listing| v@) =~= vals0.push(value@));
            }
        } else {
            assert(nx == st);
        }
        i = i + 1;
    }
    assert(ev.take(i as int) =~= ev);
    let ghost fin = run(ev);
    let mut d: usize = 0;
    while d < dir_keys.len()
        invariant
            d <= dir_keys@.len(),
            dir_keys@.len() == dir_children@.len(),
            fin == run(ev),
            fin.dir_keys == dir_keys.deep_view(),
            fin.dir_children == dir_children.deep_view(),
            fin.keys == keys.deep_view(),
            keys@.len() == values@.len(),
            values@.map_values(|v: Listing| v@) == finish(fin, d as nat),
        decreases dir_keys@.len() - d,
    {
        let p = find_key(&keys, &dir_keys[d]);
        if p < keys.len() {
            let list = dir_children[d].clone();
            assert(list.deep_view() =~= dir_children.deep_view()[d as int]);
            values.set(p, Listing::Children(list));
        }
        assert(values@.map_values(|v: Listing| v@) =~= finish(fin, (d + 1) as nat));
        d = d + 1;
    }
    ArchiveListing { paths: keys, entries: values }
}

/// Listing of a packaged archive's contents.
pub struct Structure {}

impl Structure {
    /// Reads the gzip-compressed tar archive `data` and lists it as [`listing`] does. Fails with
    /// `Archive` where the archive cannot be read.
    pub fn get(data: &Vec<u8>) -> (r: Result<ArchiveListing, Error>)
        ensures
            r is Ok <==> archive_entries_of(data@) is Some,
            r matches Err(e) ==> e == Error::Archive,
            r matches Ok(l) ==> {
                &&& l.paths.deep_view() == run(archive_entries_of(data@)->Some_0).keys
                &&& l.entries@.map_values(|v: Listing| v@) == finish(
                    run(archive_entries_of(data@)->Some_0),
                    run(archive_entries_of(data@)->Some_0).dir_keys.len(),
                )
            },
    {
        match read_archive(data) {
            Ok(entries) => Ok(listing(&entries)),
            Err(_) => Err(Error::Archive),
        }
    }
}

} // verus!
