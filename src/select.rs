//! Reduction of a paged, unordered listing of versioned identifiers to the one
//! with the highest version.
//!
//! Ties: among items of equal highest precedence, the first one in listing
//! order (pages in the order fetched, items in page order) is the one chosen.

use crate::version::{
    compare_versions, extract_version, is_prerelease_text, last_segment, semver_parse,
    version_cmp, version_of, SemVer, VersionParts,
};
use std::cmp::Ordering;
use vstd::prelude::*;

verus! {

/// Why no latest item can be selected.
#[derive(Debug, Clone, Copy, PartialEq, Eq, Structural)]
pub enum SelectError {
    /// The listing holds no item at all.
    Empty,
    /// Some identifier carries no valid version.
    MalformedVersion,
}

pub open spec fn page_ids(page: Seq<String>) -> Seq<Seq<char>> {
    page.map_values(|s: String| s@)
}

/// All items of all pages, in the order they were listed.
pub open spec fn union_of(pages: Seq<Vec<String>>) -> Seq<Seq<char>>
    decreases pages.len(),
{
    if pages.len() == 0 {
        Seq::empty()
    } else {
        union_of(pages.drop_last()) + page_ids(pages.last()@)
    }
}

pub open spec fn all_versioned(items: Seq<Seq<char>>) -> bool {
    forall|k: int| 0 <= k < items.len() ==> (#[trigger] version_of(items[k])) is Some
}

/// The version of an identifier that has one.
pub open spec fn key_of(id: Seq<char>) -> VersionParts {
    version_of(id).unwrap()
}

/// Item `i` has the highest version of `items`, and is the first such item:
/// no item is above it, and it is strictly above every item before it.
pub open spec fn is_first_latest(items: Seq<Seq<char>>, i: int) -> bool {
    &&& 0 <= i < items.len()
    &&& forall|k: int|
        0 <= k < items.len() ==> version_cmp(#[trigger] key_of(items[k]), key_of(items[i]))
            != Ordering::Greater
    &&& forall|k: int|
        0 <= k < i ==> version_cmp(key_of(items[i]), #[trigger] key_of(items[k]))
            == Ordering::Greater
}

/// The first item of highest version in a listing, or why there is none.
pub open spec fn selection_of(items: Seq<Seq<char>>, r: Result<String, SelectError>) -> bool {
    match r {
        Ok(id) => all_versioned(items) && exists|i: int|
            is_first_latest(items, i) && #[trigger] items[i] == id@,
        Err(SelectError::MalformedVersion) => !all_versioned(items),
        Err(SelectError::Empty) => all_versioned(items) && items.len() == 0,
    }
}

/// Folds pages into the best item seen so far, holding nothing else.
pub struct LatestSelector {
    best: Option<(String, SemVer)>,
    best_index: Ghost<int>,
    seen: Ghost<Seq<Seq<char>>>,
}

proof fn lemma_version_of_prerelease(id: Seq<char>, v: VersionParts)
    requires
        version_of(id) == Some(v),
    ensures
        is_prerelease_text(v.3),
{
    assert(semver_parse(last_segment(id)) matches Some(parts) && parts.3 == v.3);
}

impl LatestSelector {
    /// The items absorbed so far, in order.
    pub closed spec fn seen(&self) -> Seq<Seq<char>> {
        self.seen@
    }

    pub closed spec fn wf(&self) -> bool {
        &&& all_versioned(self.seen@)
        &&& match self.best {
            None => self.seen@.len() == 0,
            Some((id, v)) => {
                &&& is_first_latest(self.seen@, self.best_index@)
                &&& self.seen@[self.best_index@] == id@
                &&& version_of(id@) == Some(v@)
            },
        }
    }

    pub fn new() -> (r: Self)
        ensures
            r.wf(),
            r.seen() == Seq::<Seq<char>>::empty(),
    {
        LatestSelector { best: None, best_index: Ghost(0), seen: Ghost(Seq::empty()) }
    }

    /// Absorbs one page. Fails, and the selection is to be abandoned, when an
    /// identifier of the page carries no valid version.
    pub fn add_page(&mut self, page: &Vec<String>) -> (r: Result<(), SelectError>)
        requires
            old(self).wf(),
        ensures
            r is Ok <==> all_versioned(page_ids(page@)),
            r is Ok ==> final(self).wf() && final(self).seen() == old(self).seen() + page_ids(
                page@,
            ),
            r matches Err(e) ==> e == SelectError::MalformedVersion,
    {
        let ghost start = self.seen@;
        let mut i: usize = 0;
        while i < page.len()
            invariant
                self.wf(),
                i <= page.len(),
                self.seen@ == start + page_ids(page@).take(i as int),
                all_versioned(page_ids(page@).take(i as int)),
            decreases page.len() - i,
        {
            let id = &page[i];
            let v = match extract_version(id.as_str()) {
                Ok(v) => v,
                Err(_) => {
                    assert(version_of(page_ids(page@)[i as int]) is None);
                    return Err(SelectError::MalformedVersion);
                },
            };
            let ghost before = self.seen@;
            let ghost n = before.len() as int;
            proof {
                self.seen@ = before.push(id@);
                assert(page_ids(page@).take(i + 1) =~= page_ids(page@).take(i as int).push(id@));
                assert(key_of(self.seen@[n]) == v@);
                assert forall|k: int| 0 <= k < n implies #[trigger] key_of(self.seen@[k]) == key_of(
                    before[k],
                ) by {}
            }
            let replace = match &self.best {
                None => true,
                Some((_, b)) => {
                    proof {
                        lemma_version_of_prerelease(self.seen@[self.best_index@], b@);
                    }
                    matches!(compare_versions(&v, b), Ordering::Greater)
                },
            };
            if replace {
                proof {
                    let old_best = self.best_index@;
                    assert forall|k: int| 0 <= k < n implies version_cmp(
                        #[trigger] key_of(self.seen@[k]),
                        v@,
                    ) == Ordering::Less && version_cmp(v@, key_of(self.seen@[k]))
                        == Ordering::Greater by {
                        assert(version_cmp(key_of(before[k]), key_of(before[old_best]))
                            != Ordering::Greater);
                    }
                    self.best_index@ = n;
                }
                self.best = Some((id.clone(), v));
            } else {
                proof {
                    let bi = self.best_index@;
                    assert(key_of(self.seen@[bi]) == key_of(before[bi]));
                }
            }
            i = i + 1;
        }
        assert(page_ids(page@).take(page.len() as int) =~= page_ids(page@));
        Ok(())
    }

    /// The chosen item: the first of highest version among all absorbed.
    pub fn finish(self) -> (r: Result<String, SelectError>)
        requires
            self.wf(),
        ensures
            r is Err ==> r == Err::<String, SelectError>(SelectError::Empty),
            selection_of(self.seen(), r),
    {
        match self.best {
            None => Err(SelectError::Empty),
            Some((id, _)) => Ok(id),
        }
    }
}


/// Selects the first item of highest version across all pages.
pub fn select_latest(pages: &Vec<Vec<String>>) -> (r: Result<String, SelectError>)
    ensures
        selection_of(union_of(pages@), r),
{
    let mut selector = LatestSelector::new();
    let mut p: usize = 0;
    while p < pages.len()
        invariant
            selector.wf(),
            p <= pages.len(),
            selector.seen() == union_of(pages@.take(p as int)),
        decreases pages.len() - p,
    {
        assert(pages@.take(p + 1).drop_last() =~= pages@.take(p as int));
        match selector.add_page(&pages[p]) {
            Ok(()) => {},
            Err(e) => {
                proof {
                    lemma_union_unversioned(pages@, p as int);
                }
                return Err(e);
            },
        }
        p = p + 1;
    }
    assert(pages@.take(pages.len() as int) =~= pages@);
    selector.finish()
}

proof fn lemma_union_unversioned(pages: Seq<Vec<String>>, p: int)
    requires
        0 <= p < pages.len(),
        !all_versioned(page_ids(pages[p]@)),
    ensures
        !all_versioned(union_of(pages)),
    decreases pages.len(),
{
    let k = choose|k: int|
        0 <= k < page_ids(pages[p]@).len() && !(version_of(page_ids(pages[p]@)[k]) is Some);
    if p == pages.len() - 1 {
        let pre = union_of(pages.drop_last());
        assert(union_of(pages)[pre.len() + k] == page_ids(pages[p]@)[k]);
    } else {
        assert(pages.drop_last()[p] == pages[p]);
        lemma_union_unversioned(pages.drop_last(), p);
        let k2 = choose|k2: int|
            0 <= k2 < union_of(pages.drop_last()).len() && !(version_of(
                union_of(pages.drop_last())[k2],
            ) is Some);
        assert(union_of(pages)[k2] == union_of(pages.drop_last())[k2]);
    }
}

/// Only one item of a listing is the first of highest version.
pub proof fn lemma_first_latest_unique(items: Seq<Seq<char>>, i: int, j: int)
    requires
        is_first_latest(items, i),
        is_first_latest(items, j),
    ensures
        i == j,
{
    if i < j {
        assert(version_cmp(key_of(items[j]), key_of(items[i])) == Ordering::Greater);
    } else if j < i {
        assert(version_cmp(key_of(items[i]), key_of(items[j])) == Ordering::Greater);
    }
}

/// Page-boundary invariance: two listings whose pages hold the same items in
/// the same order select the same identifier, or fail alike.
pub proof fn lemma_selection_ignores_pages(
    p: Seq<Vec<String>>,
    q: Seq<Vec<String>>,
    r1: Result<String, SelectError>,
    r2: Result<String, SelectError>,
)
    requires
        union_of(p) == union_of(q),
        selection_of(union_of(p), r1),
        selection_of(union_of(q), r2),
    ensures
        r1 is Ok <==> r2 is Ok,
        r1 matches Ok(a) ==> r2 matches Ok(b) && a@ == b@,
        r1 matches Err(e1) ==> r2 matches Err(e2) && e1 == e2,
{
    let items = union_of(p);
    if let Ok(a) = r1 {
        if let Ok(b) = r2 {
            let i = choose|i: int| is_first_latest(items, i) && #[trigger] items[i] == a@;
            let j = choose|j: int| is_first_latest(items, j) && #[trigger] items[j] == b@;
            lemma_first_latest_unique(items, i, j);
        }
    }
}

} // verus!
