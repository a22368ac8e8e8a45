//! Bookmarks: user-named shortcuts to a path on a host.  The store itself is
//! a flat record file owned by a collaborator; what belongs to the engine is
//! the record shape and the list rules — upsert by id, delete by id.

use vstd::prelude::*;

verus! {

/// One bookmark record.
#[derive(Clone, Debug)]
pub struct Bookmark {
    pub id: String,
    pub name: String,
    pub device_ip: String,
    pub device_hostname: String,
    pub path: String,
}

/// The mathematical shape of a `Bookmark`.
pub struct BookmarkView {
    pub id: Seq<char>,
    pub name: Seq<char>,
    pub device_ip: Seq<char>,
    pub device_hostname: Seq<char>,
    pub path: Seq<char>,
}

impl View for Bookmark {
    type V = BookmarkView;

    open spec fn view(&self) -> BookmarkView {
        BookmarkView {
            id: self.id@,
            name: self.name@,
            device_ip: self.device_ip@,
            device_hostname: self.device_hostname@,
            path: self.path@,
        }
    }
}

/// The bookmarks as a caller receives them.
#[derive(Debug)]
pub struct BookmarkList {
    pub bookmarks: Vec<Bookmark>,
}

/// The views of a sequence of bookmarks.
pub open spec fn bookmark_views(s: Seq<Bookmark>) -> Seq<BookmarkView> {
    s.map_values(|b: Bookmark| b@)
}

/// Saves a bookmark into the list: the first record with the same id is
/// replaced in place, and a new id is appended.
pub fn upsert_bookmark(list: &mut Vec<Bookmark>, b: Bookmark)
    ensures
        (forall|i: int| 0 <= i < old(list)@.len() ==> old(list)@[i]@.id != b@.id)
            ==> bookmark_views(final(list)@) == bookmark_views(old(list)@).push(b@),
        forall|i: int|
            0 <= i < old(list)@.len() && old(list)@[i]@.id == b@.id && (forall|k: int|
                0 <= k < i ==> old(list)@[k]@.id != b@.id) ==> bookmark_views(final(list)@)
                == bookmark_views(old(list)@).update(i, b@),
{
    let n = list.len();
    let mut i: usize = 0;
    while i < n
        invariant
            i <= n,
            n == list@.len(),
            list@ == old(list)@,
            forall|k: int| 0 <= k < i ==> list@[k]@.id != b@.id,
        decreases n - i,
    {
        if list[i].id == b.id {
            let ghost ii = i as int;
            list.set(i, b);
            proof {
                assert(bookmark_views(list@) =~= bookmark_views(old(list)@).update(ii, b@));
                assert forall|j: int|
                    0 <= j < old(list)@.len() && old(list)@[j]@.id == b@.id && (forall|k: int|
                        0 <= k < j ==> old(list)@[k]@.id != b@.id) implies bookmark_views(list@)
                    == bookmark_views(old(list)@).update(j, b@) by {
                    if j < ii {
                        assert(old(list)@[j]@.id != b@.id);
                    } else if j > ii {
                        assert(old(list)@[ii]@.id != b@.id);
                    }
                }
            }
            return ;
        }
        i = i + 1;
    }
    list.push(b);
    proof {
        assert(bookmark_views(list@) =~= bookmark_views(old(list)@).push(b@));
    }
}

/// The records kept by a delete of `id`: those whose id differs.
pub open spec fn keeps_other_ids(id: Seq<char>) -> spec_fn(BookmarkView) -> bool {
    |bv: BookmarkView| bv.id != id
}

/// Deletes every record with the given id, keeping the rest in order.
pub fn remove_bookmark(list: &mut Vec<Bookmark>, id: &String)
    ensures
        bookmark_views(final(list)@) == bookmark_views(old(list)@).filter(keeps_other_ids(id@)),
{
    let ghost pred = keeps_other_ids(id@);
    let mut kept: Vec<Bookmark> = Vec::new();
    let ghost mut done: Seq<BookmarkView> = Seq::empty();
    proof {
        reveal(Seq::filter);
        assert(done.filter(pred) =~= Seq::<BookmarkView>::empty());
        assert(bookmark_views(kept@) =~= done.filter(pred));
        assert(done + bookmark_views(list@) =~= bookmark_views(old(list)@));
    }
    loop
        invariant
            bookmark_views(kept@) == done.filter(pred),
            done + bookmark_views(list@) == bookmark_views(old(list)@),
            pred == keeps_other_ids(id@),
        ensures
            bookmark_views(kept@) == bookmark_views(old(list)@).filter(pred),
        decreases list@.len(),
    {
        if list.len() == 0 {
            proof {
                assert(bookmark_views(list@) =~= Seq::<BookmarkView>::empty());
                assert(done =~= bookmark_views(old(list)@));
            }
            break;
        }
        let ghost before = list@;
        let bk = list.remove(0);
        let ghost done0 = done;
        let ghost kept0 = bookmark_views(kept@);
        proof {
            broadcast use Seq::lemma_filter_push;

            done = done0.push(bk@);
            assert(done + bookmark_views(list@) =~= done0 + bookmark_views(before));
            assert(done0.push(bk@).filter(pred) == if pred(bk@) {
                done0.filter(pred).push(bk@)
            } else {
                done0.filter(pred)
            });
        }
        if !(bk.id == *id) {
            proof {
                assert(pred(bk@));
            }
            kept.push(bk);
            proof {
                assert(bookmark_views(kept@) =~= kept0.push(bk@));
            }
        } else {
            proof {
                assert(!pred(bk@));
            }
        }
    }
    *list = kept;
}

} // verus!
