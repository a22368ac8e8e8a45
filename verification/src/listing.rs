//! Directory listings: the uniform entry shape produced by the remote and
//! local directory services, and the normalization and ordering rules both
//! share — pseudo-entries dropped, absolute paths joined, directories first,
//! case-insensitive name order within each group.

use vstd::prelude::*;

verus! {

use vstd::seq_lib::group_to_multiset_ensures;
use vstd::multiset::group_multiset_axioms;
use vstd::string::StrSliceExecFns;
use crate::order::{name_le, lemma_lex_le_total, lemma_lex_le_trans, name_le_exec};
use crate::paths::{join_child, normalized_path, parent_path_of};
use crate::paths::{join_child_path, normalize_listing_path, get_parent_path};

/// One directory entry, read-only once produced.
#[derive(Clone, Debug)]
pub struct FileEntry {
    pub name: String,
    pub path: String,
    pub is_dir: bool,
    pub size: u64,
    pub modified: Option<u64>,
    pub permissions: u32,
    pub is_symlink: bool,
}

/// The mathematical shape of a `FileEntry`.
pub struct FileEntryView {
    pub name: Seq<char>,
    pub path: Seq<char>,
    pub is_dir: bool,
    pub size: u64,
    pub modified: Option<u64>,
    pub permissions: u32,
    pub is_symlink: bool,
}

impl View for FileEntry {
    type V = FileEntryView;

    open spec fn view(&self) -> FileEntryView {
        FileEntryView {
            name: self.name@,
            path: self.path@,
            is_dir: self.is_dir,
            size: self.size,
            modified: self.modified,
            permissions: self.permissions,
            is_symlink: self.is_symlink,
        }
    }
}

/// A raw entry as the channel (or the operating system) reports it, before
/// normalization: a bare name and whatever metadata was present.
#[derive(Clone, Debug)]
pub struct RawEntry {
    pub name: String,
    pub is_dir: bool,
    pub is_symlink: bool,
    pub size: Option<u64>,
    pub modified: Option<u64>,
    pub permissions: Option<u32>,
}

/// The mathematical shape of a `RawEntry`.
pub struct RawEntryView {
    pub name: Seq<char>,
    pub is_dir: bool,
    pub is_symlink: bool,
    pub size: Option<u64>,
    pub modified: Option<u64>,
    pub permissions: Option<u32>,
}

impl View for RawEntry {
    type V = RawEntryView;

    open spec fn view(&self) -> RawEntryView {
        RawEntryView {
            name: self.name@,
            is_dir: self.is_dir,
            is_symlink: self.is_symlink,
            size: self.size,
            modified: self.modified,
            permissions: self.permissions,
        }
    }
}

/// A normalized listing: the queried path, its entries in listing order, and
/// the parent path (absent only for the root).
#[derive(Debug)]
pub struct DirectoryListing {
    pub path: String,
    pub entries: Vec<FileEntry>,
    pub parent_path: Option<String>,
}

/// The views of a sequence of entries.
pub open spec fn views_of(s: Seq<FileEntry>) -> Seq<FileEntryView> {
    s.map_values(|e: FileEntry| e@)
}

/// The listing order: all directories precede all non-directories; within a
/// group, case-insensitive name order.
pub open spec fn entry_le(a: FileEntryView, b: FileEntryView) -> bool {
    if a.is_dir != b.is_dir {
        a.is_dir
    } else {
        name_le(a.name, b.name)
    }
}

/// A sequence of entries in listing order.
pub open spec fn listing_sorted(s: Seq<FileEntryView>) -> bool {
    forall|i: int, j: int| 0 <= i < j < s.len() ==> entry_le(s[i], s[j])
}

pub proof fn lemma_entry_le_total(a: FileEntryView, b: FileEntryView)
    ensures
        entry_le(a, b) || entry_le(b, a),
{
    lemma_lex_le_total(crate::order::lower_of(a.name), crate::order::lower_of(b.name));
}

pub proof fn lemma_entry_le_trans(a: FileEntryView, b: FileEntryView, c: FileEntryView)
    requires
        entry_le(a, b),
        entry_le(b, c),
    ensures
        entry_le(a, c),
{
    if a.is_dir == b.is_dir && b.is_dir == c.is_dir {
        lemma_lex_le_trans(
            crate::order::lower_of(a.name),
            crate::order::lower_of(b.name),
            crate::order::lower_of(c.name),
        );
    }
}

/// Every sorted listing is partitioned: a directory never follows a
/// non-directory, and within each partition names are non-decreasing under
/// the case-insensitive order.
pub proof fn lemma_listing_partitioned(s: Seq<FileEntryView>)
    requires
        listing_sorted(s),
    ensures
        forall|i: int, j: int| 0 <= i < j < s.len() && s[j].is_dir ==> s[i].is_dir,
        forall|i: int, j: int|
            0 <= i < j < s.len() && s[i].is_dir == s[j].is_dir ==> name_le(s[i].name, s[j].name),
{
    assert forall|i: int, j: int| 0 <= i < j < s.len() && s[j].is_dir implies s[i].is_dir by {
        assert(entry_le(s[i], s[j]));
    }
    assert forall|i: int, j: int|
        0 <= i < j < s.len() && s[i].is_dir == s[j].is_dir implies name_le(
        s[i].name,
        s[j].name,
    ) by {
        assert(entry_le(s[i], s[j]));
    }
}

/// Where one entry lands among already-sorted ones: after every entry that
/// precedes or ties with it, so entries that compare equal keep their
/// arrival order.
pub open spec fn sorted_insert(s: Seq<FileEntryView>, e: FileEntryView) -> Seq<FileEntryView>
    decreases s.len(),
{
    if s.len() == 0 {
        seq![e]
    } else if entry_le(s.first(), e) {
        seq![s.first()] + sorted_insert(s.drop_first(), e)
    } else {
        seq![e] + s
    }
}

/// The listing order of a sequence of entries: each inserted in turn, in
/// reading order.
pub open spec fn listing_sort(s: Seq<FileEntryView>) -> Seq<FileEntryView>
    decreases s.len(),
{
    if s.len() == 0 {
        Seq::empty()
    } else {
        sorted_insert(listing_sort(s.drop_last()), s.last())
    }
}

proof fn lemma_sorted_insert_at(s: Seq<FileEntryView>, e: FileEntryView, p: int)
    requires
        0 <= p <= s.len(),
        forall|i: int| 0 <= i < p ==> entry_le(s[i], e),
        p < s.len() ==> !entry_le(s[p], e),
    ensures
        sorted_insert(s, e) == s.insert(p, e),
    decreases s.len(),
{
    if s.len() == 0 {
        assert(s.insert(0, e) =~= seq![e]);
    } else if p == 0 {
        assert(!entry_le(s.first(), e));
        assert(s.insert(0, e) =~= seq![e] + s);
    } else {
        assert(entry_le(s[0], e));
        lemma_sorted_insert_at(s.drop_first(), e, p - 1);
        assert(s.insert(p, e) =~= seq![s.first()] + s.drop_first().insert(p - 1, e));
    }
}

/// Decides the listing order on two entries.
fn entry_le_exec(a: &FileEntry, b: &FileEntry) -> (r: bool)
    ensures
        r == entry_le(a@, b@),
{
    if a.is_dir != b.is_dir {
        a.is_dir
    } else {
        name_le_exec(a.name.as_str(), b.name.as_str())
    }
}

proof fn lemma_insert_to_multiset(s: Seq<FileEntryView>, j: int, v: FileEntryView)
    requires
        0 <= j <= s.len(),
    ensures
        s.insert(j, v).to_multiset() == s.to_multiset().insert(v),
{
    broadcast use group_to_multiset_ensures;
    broadcast use group_multiset_axioms;

    let t = s.insert(j, v);
    assert(t.remove(j) =~= s);
    assert(t[j] == v);
    assert(s.to_multiset() == t.to_multiset().remove(v));
    assert(t.contains(v));
    assert(t.to_multiset().count(v) > 0);
    assert(t.to_multiset() =~= s.to_multiset().insert(v));
}

/// Inserts one entry into a sorted vector, keeping it sorted.
fn insert_sorted(out: &mut Vec<FileEntry>, e: FileEntry)
    requires
        listing_sorted(views_of(old(out)@)),
    ensures
        listing_sorted(views_of(final(out)@)),
        views_of(final(out)@) == sorted_insert(views_of(old(out)@), e@),
        views_of(final(out)@).to_multiset() == views_of(old(out)@).to_multiset().insert(e@),
{
    let ghost s = views_of(out@);
    let mut j: usize = 0;
    loop
        invariant
            j <= out@.len(),
            out@ == old(out)@,
            s == views_of(out@),
            forall|i: int| 0 <= i < j ==> entry_le(s[i], e@),
        ensures
            j <= out@.len(),
            out@ == old(out)@,
            s == views_of(out@),
            forall|i: int| 0 <= i < j ==> entry_le(s[i], e@),
            j < out@.len() ==> !entry_le(s[j as int], e@),
        decreases out@.len() - j,
    {
        if j == out.len() {
            break;
        }
        if !entry_le_exec(&out[j], &e) {
            proof {
                assert(s[j as int] == out@[j as int]@);
            }
            break;
        }
        proof {
            assert(s[j as int] == out@[j as int]@);
        }
        j = j + 1;
    }
    let ghost jj = j as int;
    out.insert(j, e);
    proof {
        let t = views_of(out@);
        assert(t =~= s.insert(jj, e@));
        lemma_sorted_insert_at(s, e@, jj);
        lemma_insert_to_multiset(s, jj, e@);
        assert forall|p: int, q: int| 0 <= p < q < t.len() implies entry_le(t[p], t[q]) by {
            if q < jj {
                assert(entry_le(s[p], s[q]));
            } else if p < jj && q == jj {
                assert(entry_le(s[p], e@));
            } else if p < jj && q > jj {
                assert(entry_le(s[p], s[q - 1]));
            } else if p == jj {
                // everything at or after the insertion point follows `e`
                lemma_entry_le_total(e@, s[jj]);
                assert(entry_le(e@, s[jj]));
                if q - 1 > jj {
                    assert(entry_le(s[jj], s[q - 1]));
                    lemma_entry_le_trans(e@, s[jj], s[q - 1]);
                }
            } else {
                assert(entry_le(s[p - 1], s[q - 1]));
            }
        }
    }
}

/// Sorts entries into listing order: the result is the stable insertion
/// order `listing_sort`, so it is sorted, holds exactly the given entries,
/// and keeps entries that compare equal in their original relative order.
pub fn sort_entries(entries: Vec<FileEntry>) -> (r: Vec<FileEntry>)
    ensures
        listing_sorted(views_of(r@)),
        views_of(r@) == listing_sort(views_of(entries@)),
        views_of(r@).to_multiset() == views_of(entries@).to_multiset(),
{
    broadcast use group_to_multiset_ensures;
    broadcast use group_multiset_axioms;

    let mut input = entries;
    let mut out: Vec<FileEntry> = Vec::new();
    let ghost mut done: Seq<FileEntryView> = Seq::empty();
    proof {
        assert(views_of(out@) =~= Seq::<FileEntryView>::empty());
        assert(views_of(out@) =~= listing_sort(done));
        assert(done + views_of(input@) =~= views_of(entries@));
        assert(views_of(out@).to_multiset().add(views_of(input@).to_multiset()) =~= views_of(
            entries@,
        ).to_multiset());
    }
    loop
        invariant
            listing_sorted(views_of(out@)),
            views_of(out@) == listing_sort(done),
            done + views_of(input@) == views_of(entries@),
            views_of(out@).to_multiset().add(views_of(input@).to_multiset()) == views_of(
                entries@,
            ).to_multiset(),
        ensures
            input@.len() == 0,
            listing_sorted(views_of(out@)),
            views_of(out@) == listing_sort(done),
            done + views_of(input@) == views_of(entries@),
            views_of(out@).to_multiset().add(views_of(input@).to_multiset()) == views_of(
                entries@,
            ).to_multiset(),
        decreases input@.len(),
    {
        let ghost before = views_of(input@);
        if input.len() == 0 {
            break;
        }
        // taking entries in reading order keeps entries that compare equal in
        // their original relative order
        let e = input.remove(0);
        proof {
            broadcast use group_to_multiset_ensures;
            broadcast use group_multiset_axioms;

            assert(before.remove(0) =~= views_of(input@));
            assert(before[0] == e@);
            assert(before.remove(0).to_multiset() == before.to_multiset().remove(before[0]));
            assert(before.contains(e@));
            assert(before.to_multiset().count(e@) > 0);
            assert(before =~= views_of(input@).insert(0, e@));
            assert(before.to_multiset() =~= views_of(input@).to_multiset().insert(e@));
        }
        let ghost out_before = views_of(out@);
        let ghost done0 = done;
        insert_sorted(&mut out, e);
        proof {
            broadcast use group_multiset_axioms;

            done = done0.push(e@);
            assert(done.drop_last() =~= done0);
            assert(listing_sort(done) == sorted_insert(listing_sort(done0), e@));
            assert(done + views_of(input@) =~= done0 + before);
            assert(views_of(out@).to_multiset().add(views_of(input@).to_multiset()) =~= out_before
                .to_multiset().add(before.to_multiset()));
        }
    }
    proof {
        assert(views_of(input@) =~= Seq::<FileEntryView>::empty());
        assert(done =~= done + views_of(input@));
        assert(views_of(out@).to_multiset().add(views_of(input@).to_multiset()) =~= views_of(
            out@,
        ).to_multiset());
    }
    out
}

/// The `.` and `..` pseudo-entries, which listings discard.
pub open spec fn is_dot_name(name: Seq<char>) -> bool {
    name == seq!['.'] || name == seq!['.', '.']
}

fn is_dot_name_exec(name: &str) -> (r: bool)
    ensures
        r == is_dot_name(name@),
{
    let n = name.unicode_len();
    if n == 1 {
        let c = name.get_char(0);
        proof {
            if c == '.' {
                assert(name@ =~= seq!['.']);
            } else {
                assert(name@[0] != seq!['.'][0]);
            }
            assert(name@.len() != seq!['.', '.'].len());
        }
        c == '.'
    } else if n == 2 {
        let c0 = name.get_char(0);
        let c1 = name.get_char(1);
        proof {
            if c0 == '.' && c1 == '.' {
                assert(name@ =~= seq!['.', '.']);
            } else {
                assert(name@[0] != seq!['.', '.'][0] || name@[1] != seq!['.', '.'][1]);
            }
            assert(name@.len() != seq!['.'].len());
        }
        c0 == '.' && c1 == '.'
    } else {
        proof {
            assert(name@.len() != seq!['.'].len());
            assert(name@.len() != seq!['.', '.'].len());
        }
        false
    }
}

/// How one raw entry becomes a listing entry under a directory: the absolute
/// path is the join, and absent metadata defaults to zero.
pub open spec fn raw_to_entry(dir: Seq<char>, r: RawEntryView) -> FileEntryView {
    FileEntryView {
        name: r.name,
        path: join_child(dir, r.name),
        is_dir: r.is_dir,
        size: if r.size is Some {
            r.size->0
        } else {
            0
        },
        modified: r.modified,
        permissions: if r.permissions is Some {
            r.permissions->0
        } else {
            0
        },
        is_symlink: r.is_symlink,
    }
}

/// The entries a listing of `dir` holds for the raw entries `rs`, in reading
/// order: every raw entry converted, the pseudo-entries dropped.
pub open spec fn converted_entries(dir: Seq<char>, rs: Seq<RawEntry>) -> Seq<FileEntryView>
    decreases rs.len(),
{
    if rs.len() == 0 {
        Seq::empty()
    } else {
        let rest = converted_entries(dir, rs.drop_last());
        if is_dot_name(rs.last()@.name) {
            rest
        } else {
            rest.push(raw_to_entry(dir, rs.last()@))
        }
    }
}

/// Whether `found` is the parent path of `dir`.
pub open spec fn parent_matches(found: Option<String>, dir: Seq<char>) -> bool {
    match found {
        None => parent_path_of(dir) is None,
        Some(p) => parent_path_of(dir) == Some(p@),
    }
}

/// Builds the normalized listing of `path` from the raw entries the channel
/// reported: the path is normalized (empty means root), `.` and `..` are
/// dropped, every entry carries its absolute path and default metadata, the
/// order is directories-first then case-insensitive by name, and the parent
/// path is the path with its final segment stripped.
pub fn build_listing(path: &str, raw: Vec<RawEntry>) -> (r: DirectoryListing)
    ensures
        r.path@ == normalized_path(path@),
        parent_matches(r.parent_path, normalized_path(path@)),
        listing_sorted(views_of(r.entries@)),
        views_of(r.entries@) == listing_sort(converted_entries(normalized_path(path@), raw@)),
        views_of(r.entries@).to_multiset() == converted_entries(
            normalized_path(path@),
            raw@,
        ).to_multiset(),
{
    let npath = normalize_listing_path(path);
    let parent = get_parent_path(npath.as_str());
    let mut pending: Vec<FileEntry> = Vec::new();
    let n = raw.len();
    let mut i: usize = 0;
    proof {
        assert(raw@.take(0) =~= Seq::<RawEntry>::empty());
        assert(views_of(pending@) =~= Seq::<FileEntryView>::empty());
    }
    while i < n
        invariant
            i <= n,
            n == raw@.len(),
            npath@ == normalized_path(path@),
            views_of(pending@) == converted_entries(npath@, raw@.take(i as int)),
        decreases n - i,
    {
        let ghost prev = views_of(pending@);
        let rentry = &raw[i];
        if !is_dot_name_exec(rentry.name.as_str()) {
            let name = rentry.name.clone();
            let child = join_child_path(npath.as_str(), name.as_str());
            let fe = FileEntry {
                name,
                path: child,
                is_dir: rentry.is_dir,
                size: match rentry.size {
                    Some(v) => v,
                    None => 0,
                },
                modified: rentry.modified,
                permissions: match rentry.permissions {
                    Some(v) => v,
                    None => 0,
                },
                is_symlink: rentry.is_symlink,
            };
            proof {
                assert(fe@ == raw_to_entry(npath@, raw@[i as int]@));
            }
            pending.push(fe);
            proof {
                assert(views_of(pending@) =~= prev.push(raw_to_entry(npath@, raw@[i as int]@)));
            }
        }
        proof {
            assert(raw@.take(i as int + 1).drop_last() =~= raw@.take(i as int));
            assert(raw@.take(i as int + 1).last() == raw@[i as int]);
        }
        i = i + 1;
    }
    proof {
        assert(raw@.take(n as int) =~= raw@);
    }
    let entries = sort_entries(pending);
    DirectoryListing { path: npath, entries, parent_path: parent }
}

} // verus!
