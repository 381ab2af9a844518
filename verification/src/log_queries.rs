//! Decisions of the paged log queries of the table storage: how many of a
//! page's items to keep, when to ask for the next page, and which items of a
//! sequence id make up a record.

use vstd::prelude::*;
use vstd::string::*;

use crate::commands::{chars_of, starts_with};

verus! {

/// Items gathered over the pages of a query, up to a limit.
pub struct PagedQuery<T> {
    items: Vec<T>,
    limit: usize,
}

impl<T> PagedQuery<T> {
    /// The items gathered so far, in page order.
    pub closed spec fn gathered(&self) -> Seq<T> {
        self.items@
    }

    /// The most items to gather.
    pub closed spec fn limit_spec(&self) -> usize {
        self.limit
    }

    /// A query that gathers at most `limit` items.
    pub fn new(limit: usize) -> (q: PagedQuery<T>)
        ensures
            q.gathered() == Seq::<T>::empty(),
            q.limit_spec() == limit,
    {
        PagedQuery { items: Vec::new(), limit }
    }

    /// Keeps as many items of `page`, in order, as the limit still allows,
    /// and says whether to ask for the next page: only while the limit is not
    /// reached and the store says that more pages follow.
    pub fn absorb(&mut self, page: Vec<T>, more_pages: bool) -> (go_on: bool)
        requires
            old(self).gathered().len() <= old(self).limit_spec(),
        ensures
            final(self).limit_spec() == old(self).limit_spec(),
            final(self).gathered() == old(self).gathered() + page@.take(
                if page@.len() <= old(self).limit_spec() - old(self).gathered().len() {
                    page@.len() as int
                } else {
                    old(self).limit_spec() - old(self).gathered().len()
                },
            ),
            final(self).gathered().len() <= final(self).limit_spec(),
            go_on == (final(self).gathered().len() < final(self).limit_spec() && more_pages),
    {
        let ghost start = self.items@;
        let mut page = page;
        let room = self.limit - self.items.len();
        if page.len() > room {
            page.truncate(room);
        }
        let ghost kept = page@;
        self.items.append(&mut page);
        assert(self.items@ =~= start + kept);
        self.items.len() < self.limit && more_pages
    }

    /// The gathered items.
    pub fn into_items(self) -> (v: Vec<T>)
        ensures
            v@ == self.gathered(),
    {
        self.items
    }
}

/// Whether a sort key names an event item.
pub open spec fn is_event_key(sk: Seq<char>) -> bool {
    starts_with(sk, "EVENT#"@)
}

/// Whether a sort key names an effect item.
pub open spec fn is_effect_key(sk: Seq<char>) -> bool {
    starts_with(sk, "EFFECT#"@)
}

/// Whether position `i` of `keys` holds a key that satisfies `p`.
pub open spec fn key_has(keys: Seq<Option<Seq<char>>>, i: int, p: spec_fn(Seq<char>) -> bool) -> bool {
    match keys[i] {
        Some(k) => p(k),
        None => false,
    }
}

/// The last position in `keys` whose key satisfies `p`, if any.
pub open spec fn last_with(keys: Seq<Option<Seq<char>>>, p: spec_fn(Seq<char>) -> bool) -> Option<int> {
    if exists|i: int| 0 <= i < keys.len() && key_has(keys, i, p) {
        Some(
            choose|i: int|
                0 <= i < keys.len() && (key_has(keys, i, p)) && forall|j: int|
                    i < j < keys.len() ==> !key_has(keys, j, p),
        )
    } else {
        None
    }
}

fn key_starts_with(key: &str, prefix: &str) -> (r: bool)
    ensures
        r == starts_with(key@, prefix@),
{
    let k = chars_of(key);
    let p = chars_of(prefix);
    if p.len() > k.len() {
        return false;
    }
    let mut i: usize = 0;
    while i < p.len()
        invariant
            p@ == prefix@,
            k@ == key@,
            p@.len() <= k@.len(),
            i <= p@.len(),
            forall|j: int| 0 <= j < i ==> k@[j] == p@[j],
        decreases p@.len() - i,
    {
        if k[i] != p[i] {
            assert(k@.take(p@.len() as int)[i as int] != p@[i as int]);
            return false;
        }
        i = i + 1;
    }
    assert(k@.take(p@.len() as int) =~= p@);
    true
}

/// The views of optional sort keys.
pub open spec fn key_views(keys: Seq<Option<String>>) -> Seq<Option<Seq<char>>> {
    keys.map_values(|k: Option<String>| match k {
        Some(s) => Some(s@),
        None => None,
    })
}

/// Of the items stored under one sequence id, given by their sort keys (or
/// `None` where an item has none), the position of the event item and of the
/// effect item: the last item whose key starts with `EVENT#`, and the last
/// whose key starts with `EFFECT#`.
pub fn pick_record_items(keys: &Vec<Option<String>>) -> (r: (Option<usize>, Option<usize>))
    ensures
        match r.0 {
            Some(i) => last_with(key_views(keys@), |k: Seq<char>| is_event_key(k)) == Some(i as int),
            None => last_with(key_views(keys@), |k: Seq<char>| is_event_key(k)) is None,
        },
        match r.1 {
            Some(i) => last_with(key_views(keys@), |k: Seq<char>| is_effect_key(k)) == Some(i as int),
            None => last_with(key_views(keys@), |k: Seq<char>| is_effect_key(k)) is None,
        },
{
    let ghost kv = key_views(keys@);
    let ghost pe = |k: Seq<char>| is_event_key(k);
    let ghost pf = |k: Seq<char>| is_effect_key(k);
    let mut event: Option<usize> = None;
    let mut effect: Option<usize> = None;
    let mut i: usize = 0;
    while i < keys.len()
        invariant
            i <= keys@.len(),
            kv == key_views(keys@),
            pe == (|k: Seq<char>| is_event_key(k)),
            pf == (|k: Seq<char>| is_effect_key(k)),
            match event {
                Some(e) => e < i && key_has(kv, e as int, pe) && forall|j: int|
                    e < j < i ==> !key_has(kv, j, pe),
                None => forall|j: int| 0 <= j < i ==> !key_has(kv, j, pe),
            },
            match effect {
                Some(e) => e < i && key_has(kv, e as int, pf) && forall|j: int|
                    e < j < i ==> !key_has(kv, j, pf),
                None => forall|j: int| 0 <= j < i ==> !key_has(kv, j, pf),
            },
        decreases keys@.len() - i,
    {
        match &keys[i] {
            Some(sk) => {
                if key_starts_with(sk.as_str(), "EVENT#") {
                    event = Some(i);
                }
                if key_starts_with(sk.as_str(), "EFFECT#") {
                    effect = Some(i);
                }
            },
            None => {},
        }
        i = i + 1;
    }
    proof {
        if let Some(e) = event {
            let c = choose|c: int|
                0 <= c < kv.len() && key_has(kv, c, pe) && forall|j: int|
                    c < j < kv.len() ==> !key_has(kv, j, pe);
            assert(c == e as int);
        }
        if let Some(e) = effect {
            let c = choose|c: int|
                0 <= c < kv.len() && key_has(kv, c, pf) && forall|j: int|
                    c < j < kv.len() ==> !key_has(kv, j, pf);
            assert(c == e as int);
        }
    }
    (event, effect)
}

} // verus!
