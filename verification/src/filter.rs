//! Per-user filter storage and the two filter endpoints' decisions.
//!
//! Filter content is opaque to this library: it is stored and returned as
//! the text the pipeline validated. A filter is owned by the user it was
//! created for; reading it under another user's id is not found.

use vstd::prelude::*;

use crate::error::{ApiError, ForbiddenReason};

verus! {

/// One stored filter: an id, its owner and its opaque content.
#[derive(Clone, Debug)]
pub struct Filter {
    pub id: u64,
    pub user_id: String,
    pub content: String,
}

/// The mathematical image of a stored filter.
pub struct FilterView {
    pub id: u64,
    pub user_id: Seq<char>,
    pub content: Seq<char>,
}

impl View for Filter {
    type V = FilterView;

    open spec fn view(&self) -> FilterView {
        FilterView { id: self.id, user_id: self.user_id@, content: self.content@ }
    }
}

/// Keyed storage of filters, with ids handed out from a counter.
pub struct FilterStore {
    filters: Vec<Filter>,
    next_id: u64,
}

impl FilterStore {
    /// Every stored filter.
    pub closed spec fn contents(self) -> Seq<FilterView> {
        self.filters@.map_values(|f: Filter| f@)
    }

    /// The id the next created filter receives.
    pub closed spec fn next(self) -> u64 {
        self.next_id
    }

    /// Ids are unique and always below the counter.
    pub open spec fn wf(self) -> bool {
        &&& forall|i: int, j: int|
            #![trigger self.contents()[i], self.contents()[j]]
            0 <= i < j < self.contents().len() ==> self.contents()[i].id != self.contents()[j].id
        &&& forall|i: int|
            0 <= i < self.contents().len() ==> (#[trigger] self.contents()[i]).id < self.next()
    }

    /// Whether a filter with id `id` is stored.
    pub open spec fn has_filter(self, id: u64) -> bool {
        exists|i: int| 0 <= i < self.contents().len() && (#[trigger] self.contents()[i]).id == id
    }

    /// The index of the filter with id `id`.
    pub open spec fn filter_index(self, id: u64) -> int {
        choose|i: int| 0 <= i < self.contents().len() && (#[trigger] self.contents()[i]).id == id
    }

    /// The stored filter with id `id`, if any.
    pub open spec fn lookup(self, id: u64) -> Option<FilterView> {
        if self.has_filter(id) {
            Some(self.contents()[self.filter_index(id)])
        } else {
            None
        }
    }

    /// In a well-formed filter store, the filter seen at index `i` is the
    /// one `lookup` denotes for its id.
    pub proof fn lemma_lookup_at(self, i: int)
        requires
            self.wf(),
            0 <= i < self.contents().len(),
        ensures
            self.lookup(self.contents()[i].id) == Some(self.contents()[i]),
            self.filter_index(self.contents()[i].id) == i,
    {
        let id = self.contents()[i].id;
        assert(self.has_filter(id));
        let j = self.filter_index(id);
        if i < j {
            assert(self.contents()[i].id != self.contents()[j].id);
        } else if j < i {
            assert(self.contents()[j].id != self.contents()[i].id);
        }
    }

    /// An empty filter store.
    pub fn new() -> (s: Self)
        ensures
            s.wf(),
            forall|id: u64| #[trigger] s.lookup(id) is None,
    {
        let s = FilterStore { filters: Vec::new(), next_id: 0 };
        proof {
            assert(s.contents() =~= Seq::<FilterView>::empty());
        }
        s
    }
}

impl Filter {
    /// Stores `content` as a new filter owned by `user_id` and returns the
    /// id it was assigned. Fails with a storage error only when the id
    /// space is exhausted; nothing already stored is touched either way.
    pub fn create(store: &mut FilterStore, user_id: String, content: String) -> (r: Result<
        u64,
        ApiError,
    >)
        requires
            old(store).wf(),
        ensures
            final(store).wf(),
            old(store).next() == u64::MAX ==> r == Err::<u64, ApiError>(ApiError::StorageError)
                && *final(store) == *old(store),
            old(store).next() < u64::MAX ==> {
                &&& r == Ok::<u64, ApiError>(old(store).next())
                &&& final(store).lookup(old(store).next()) == Some(
                    FilterView { id: old(store).next(), user_id: user_id@, content: content@ },
                )
                &&& forall|id: u64|
                    id != old(store).next() ==> #[trigger] final(store).lookup(id) == old(
                        store,
                    ).lookup(id)
            },
    {
        if store.next_id == u64::MAX {
            return Err(ApiError::StorageError);
        }
        let id = store.next_id;
        store.next_id = store.next_id + 1;
        let ghost pre = *old(store);
        let row = Filter { id, user_id, content };
        let ghost v = row@;
        store.filters.push(row);
        proof {
            let last = pre.contents().len() as int;
            assert(store.contents() =~= pre.contents().push(v));
            assert(store.contents()[last].id == id);
            assert forall|a: int, b: int|
                #![trigger store.contents()[a], store.contents()[b]]
                0 <= a < b < store.contents().len() implies store.contents()[a].id
                != store.contents()[b].id by {
                if b < last {
                    assert(pre.contents()[a].id != pre.contents()[b].id);
                } else {
                    assert((#[trigger] pre.contents()[a]).id < pre.next());
                }
            }
            store.lemma_lookup_at(last);
            assert forall|other: u64| other != id implies #[trigger] store.lookup(other)
                == pre.lookup(other) by {
                if pre.has_filter(other) {
                    let k = pre.filter_index(other);
                    assert(store.contents()[k].id == other);
                    store.lemma_lookup_at(k);
                    pre.lemma_lookup_at(k);
                } else {
                    if store.has_filter(other) {
                        let k = store.filter_index(other);
                        assert(store.contents()[k].id == other);
                        assert(k != last);
                        assert(pre.contents()[k].id == other);
                    }
                }
            }
        }
        Ok(id)
    }

    /// Returns the filter stored under (`user_id`, `filter_id`): the filter
    /// with that id, provided it is owned by that user; anything else is
    /// not found.
    pub fn find(store: &FilterStore, user_id: &String, filter_id: u64) -> (r: Result<
        Filter,
        ApiError,
    >)
        requires
            store.wf(),
        ensures
            (match store.lookup(filter_id) {
                Some(f) => {
                    if f.user_id == user_id@ {
                        r matches Ok(g) && g@ == f
                    } else {
                        r == Err::<Filter, ApiError>(ApiError::NotFound)
                    }
                },
                None => r == Err::<Filter, ApiError>(ApiError::NotFound),
            }),
    {
        let n = store.filters.len();
        for i in 0..n
            invariant
                n == store.filters.len(),
                store.wf(),
                forall|j: int| 0 <= j < i ==> (#[trigger] store.contents()[j]).id != filter_id,
        {
            if store.filters[i].id == filter_id {
                proof {
                    store.lemma_lookup_at(i as int);
                }
                if store.filters[i].user_id == *user_id {
                    return Ok(Filter {
                        id: store.filters[i].id,
                        user_id: store.filters[i].user_id.clone(),
                        content: store.filters[i].content.clone(),
                    });
                }
                return Err(ApiError::NotFound);
            }
        }
        Err(ApiError::NotFound)
    }
}

/// The filter-read endpoint's decision: hand back the stored content.
pub struct GetFilter;

impl GetFilter {
    /// Returns the content of the filter stored under (`user_id`,
    /// `filter_id`), or not-found.
    pub fn handle(store: &FilterStore, user_id: &String, filter_id: u64) -> (r: Result<
        String,
        ApiError,
    >)
        requires
            store.wf(),
        ensures
            (match store.lookup(filter_id) {
                Some(f) => {
                    if f.user_id == user_id@ {
                        r matches Ok(c) && c@ == f.content
                    } else {
                        r == Err::<String, ApiError>(ApiError::NotFound)
                    }
                },
                None => r == Err::<String, ApiError>(ApiError::NotFound),
            }),
    {
        match Filter::find(store, user_id, filter_id) {
            Ok(filter) => Ok(filter.content),
            Err(e) => Err(e),
        }
    }
}

/// The filter-create endpoint's decision: only the authenticated user may
/// store a filter under their own id.
pub struct PostFilter;

impl PostFilter {
    /// Stores `content` for `user_id`, provided the authenticated user is
    /// that user; returns the new filter's id.
    pub fn handle(
        store: &mut FilterStore,
        authenticated_user: &String,
        user_id: &String,
        content: String,
    ) -> (r: Result<u64, ApiError>)
        requires
            old(store).wf(),
        ensures
            final(store).wf(),
            user_id@ != authenticated_user@ ==> r == Err::<u64, ApiError>(
                ApiError::Forbidden(ForbiddenReason::UserMismatch),
            ) && *final(store) == *old(store),
            user_id@ == authenticated_user@ && old(store).next() == u64::MAX ==> r == Err::<
                u64,
                ApiError,
            >(ApiError::StorageError) && *final(store) == *old(store),
            user_id@ == authenticated_user@ && old(store).next() < u64::MAX ==> {
                &&& r == Ok::<u64, ApiError>(old(store).next())
                &&& final(store).lookup(old(store).next()) == Some(
                    FilterView { id: old(store).next(), user_id: user_id@, content: content@ },
                )
                &&& forall|id: u64|
                    id != old(store).next() ==> #[trigger] final(store).lookup(id) == old(
                        store,
                    ).lookup(id)
            },
    {
        if !(*user_id == *authenticated_user) {
            return Err(ApiError::Forbidden(ForbiddenReason::UserMismatch));
        }
        Filter::create(store, user_id.clone(), content)
    }
}

} // verus!
