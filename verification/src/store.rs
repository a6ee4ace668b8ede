//! The authoritative ordered history of (prompt, response) exchanges.
//!
//! Every exchange carries a stable id, assigned in append order and never
//! reused. A deletion log records the ids removed since the store was created
//! (or last cleared); an id is translated to its current position by counting
//! the logged deletions below it. Asynchronous completions therefore refer to
//! exchanges by id, never by raw index, and deletions of other exchanges
//! cannot redirect them.

use vstd::prelude::*;
use vstd::pervasive::VecAdditionalExecFns;

verus! {

/// One completed conversational turn.
#[derive(Clone, Debug)]
pub struct Exchange {
    pub id: u64,
    pub prompt: String,
    pub response: String,
}

/// The mathematical image of an exchange.
pub ghost struct ExchangeView {
    pub id: u64,
    pub prompt: Seq<char>,
    pub response: Seq<char>,
}

impl View for Exchange {
    type V = ExchangeView;

    open spec fn view(&self) -> ExchangeView {
        ExchangeView { id: self.id, prompt: self.prompt@, response: self.response@ }
    }
}

/// The mathematical image of the store: the live exchanges in conversation
/// order, the log of deleted ids, and the next id to assign.
pub ghost struct StoreView {
    pub entries: Seq<ExchangeView>,
    pub deletions: Seq<u64>,
    pub next_id: int,
}

/// How many logged deletions name an id below the given one.
pub open spec fn count_below(dels: Seq<u64>, id: u64) -> nat
    decreases dels.len(),
{
    if dels.len() == 0 {
        0
    } else {
        count_below(dels.drop_last(), id) + (if dels.last() < id {
            1nat
        } else {
            0nat
        })
    }
}

/// Whether an exchange with the given id is currently in the store.
pub open spec fn live(v: StoreView, id: u64) -> bool {
    exists|k: int| 0 <= k < v.entries.len() && v.entries[k].id == id
}

/// The well-formedness of a store: ids are strictly increasing in
/// conversation order and all below `next_id`; the deletion log names
/// distinct, no-longer-live ids below `next_id`; every id below `next_id` is
/// either live or logged as deleted; and each live exchange sits exactly at
/// its id minus the number of deleted ids below it. Since ids are handed out
/// consecutively from zero, an exchange's id is also its original position,
/// which is what makes the deletion-log translation sound.
pub open spec fn store_inv(v: StoreView) -> bool {
    &&& forall|i: int, j: int|
        0 <= i < j < v.entries.len() ==> v.entries[i].id < v.entries[j].id
    &&& forall|i: int| 0 <= i < v.entries.len() ==> (#[trigger] v.entries[i].id) < v.next_id
    &&& forall|i: int| 0 <= i < v.deletions.len() ==> (#[trigger] v.deletions[i]) < v.next_id
    &&& forall|i: int, j: int|
        0 <= i < j < v.deletions.len() ==> v.deletions[i] != v.deletions[j]
    &&& forall|i: int|
        0 <= i < v.entries.len() ==> !v.deletions.contains(#[trigger] v.entries[i].id)
    &&& v.next_id == v.entries.len() + v.deletions.len()
    &&& forall|k: int|
        0 <= k < v.entries.len() ==> (#[trigger] v.entries[k].id) == k + count_below(
            v.deletions,
            v.entries[k].id,
        )
    &&& forall|x: u64| x < v.next_id && !(#[trigger] v.deletions.contains(x)) ==> live(v, x)
}

/// The current position of a live id: its id minus the deletions logged
/// below it; `None` for an id that is not live.
pub open spec fn resolve_spec(v: StoreView, id: u64) -> Option<int> {
    if live(v, id) {
        Some(id - count_below(v.deletions, id))
    } else {
        None
    }
}

/// The store a fresh construction (or a clear) yields.
pub open spec fn initial_store() -> StoreView {
    StoreView { entries: Seq::empty(), deletions: Seq::empty(), next_id: 0 }
}

/// The store after appending a new exchange under the next id.
pub open spec fn append_spec(v: StoreView, prompt: Seq<char>, response: Seq<char>) -> StoreView {
    StoreView {
        entries: v.entries.push(ExchangeView { id: v.next_id as u64, prompt, response }),
        deletions: v.deletions,
        next_id: v.next_id + 1,
    }
}

/// The store after editing the exchange with the given id in place;
/// unchanged when the id is no longer live.
pub open spec fn edit_spec(v: StoreView, id: u64, prompt: Seq<char>, response: Seq<char>) -> StoreView {
    match resolve_spec(v, id) {
        Some(k) => StoreView {
            entries: v.entries.update(k, ExchangeView { id, prompt, response }),
            deletions: v.deletions,
            next_id: v.next_id,
        },
        None => v,
    }
}

/// The store after deleting the exchange with the given id and logging the
/// id; unchanged when the id is no longer live.
pub open spec fn delete_spec(v: StoreView, id: u64) -> StoreView {
    match resolve_spec(v, id) {
        Some(k) => StoreView {
            entries: v.entries.remove(k),
            deletions: v.deletions.push(id),
            next_id: v.next_id,
        },
        None => v,
    }
}

/// The store after a bulk clear: no exchanges, no logged deletions, and the
/// id counter back at its initial value.
pub open spec fn clear_spec(v: StoreView) -> StoreView {
    initial_store()
}

/// The prompt and response stored under an id, if it is live.
pub open spec fn content_of(v: StoreView, id: u64) -> Option<(Seq<char>, Seq<char>)> {
    if live(v, id) {
        let k = choose|k: int| 0 <= k < v.entries.len() && v.entries[k].id == id;
        Some((v.entries[k].prompt, v.entries[k].response))
    } else {
        None
    }
}

proof fn lemma_count_below_push(dels: Seq<u64>, d: u64, id: u64)
    ensures
        count_below(dels.push(d), id) == count_below(dels, id) + (if d < id {
            1int
        } else {
            0int
        }),
{
    assert(dels.push(d).drop_last() =~= dels);
    assert(dels.push(d).last() == d);
}

proof fn lemma_count_below_take_step(dels: Seq<u64>, i: int, id: u64)
    requires
        0 <= i < dels.len(),
    ensures
        count_below(dels.take(i + 1), id) == count_below(dels.take(i), id) + (if dels[i] < id {
            1int
        } else {
            0int
        }),
{
    assert(dels.take(i + 1).drop_last() =~= dels.take(i));
    assert(dels.take(i + 1).last() == dels[i]);
}

proof fn lemma_count_below_all(dels: Seq<u64>, id: u64)
    requires
        forall|i: int| 0 <= i < dels.len() ==> (#[trigger] dels[i]) < id,
    ensures
        count_below(dels, id) == dels.len(),
    decreases dels.len(),
{
    if dels.len() > 0 {
        lemma_count_below_all(dels.drop_last(), id);
    }
}

/// A live id's position is well defined: the deletion-log translation lands
/// exactly on the entry that carries the id.
pub proof fn lemma_resolve_index(v: StoreView, id: u64)
    requires
        store_inv(v),
        live(v, id),
    ensures
        ({
            let k = id - count_below(v.deletions, id);
            &&& resolve_spec(v, id) == Some(k)
            &&& 0 <= k < v.entries.len()
            &&& v.entries[k].id == id
        }),
{
    let k0 = choose|k: int| 0 <= k < v.entries.len() && v.entries[k].id == id;
    assert(v.entries[k0].id == k0 + count_below(v.deletions, v.entries[k0].id));
}

/// No two positions hold the same id.
proof fn lemma_id_unique(v: StoreView, i: int, j: int)
    requires
        store_inv(v),
        0 <= i < v.entries.len(),
        0 <= j < v.entries.len(),
        v.entries[i].id == v.entries[j].id,
    ensures
        i == j,
{
    if i < j {
        assert(v.entries[i].id < v.entries[j].id);
    }
    if j < i {
        assert(v.entries[j].id < v.entries[i].id);
    }
}

proof fn lemma_append_preserves_inv(v: StoreView, prompt: Seq<char>, response: Seq<char>)
    requires
        store_inv(v),
        v.next_id < u64::MAX,
    ensures
        store_inv(append_spec(v, prompt, response)),
{
    let v2 = append_spec(v, prompt, response);
    let n = v.entries.len() as int;
    assert(!v.deletions.contains(v.next_id as u64)) by {
        if v.deletions.contains(v.next_id as u64) {
            let i = choose|i: int|
                0 <= i < v.deletions.len() && v.deletions[i] == v.next_id as u64;
            assert(v.deletions[i] < v.next_id);
        }
    }
    assert(count_below(v.deletions, v.next_id as u64) == v.deletions.len()) by {
        lemma_count_below_all(v.deletions, v.next_id as u64);
    }
    assert forall|k: int| 0 <= k < v2.entries.len() implies (#[trigger] v2.entries[k].id) == k
        + count_below(v2.deletions, v2.entries[k].id) by {
        if k < n {
            assert(v2.entries[k] == v.entries[k]);
            assert(v.entries[k].id == k + count_below(v.deletions, v.entries[k].id));
        } else {
            assert(v2.entries[k].id == v.next_id as u64);
        }
    }
    assert forall|x: u64| x < v2.next_id && !(#[trigger] v2.deletions.contains(x)) implies live(
        v2,
        x,
    ) by {
        if x < v.next_id {
            assert(live(v, x));
            let k = choose|k: int| 0 <= k < v.entries.len() && v.entries[k].id == x;
            assert(v2.entries[k].id == x);
        } else {
            assert(v2.entries[n].id == x);
        }
    }
}

proof fn lemma_edit_preserves_inv(v: StoreView, id: u64, prompt: Seq<char>, response: Seq<char>)
    requires
        store_inv(v),
    ensures
        store_inv(edit_spec(v, id, prompt, response)),
{
    if live(v, id) {
        lemma_resolve_index(v, id);
        let k = id - count_below(v.deletions, id);
        let v2 = edit_spec(v, id, prompt, response);
        assert forall|i: int| 0 <= i < v2.entries.len() implies (#[trigger] v2.entries[i].id)
            == v.entries[i].id by {}
        assert forall|x: u64| x < v2.next_id && !(#[trigger] v2.deletions.contains(x)) implies live(
            v2,
            x,
        ) by {
            assert(live(v, x));
            let k0 = choose|k0: int| 0 <= k0 < v.entries.len() && v.entries[k0].id == x;
            assert(v2.entries[k0].id == x);
        }
    }
}

proof fn lemma_delete_preserves_inv(v: StoreView, id: u64)
    requires
        store_inv(v),
        live(v, id),
    ensures
        store_inv(delete_spec(v, id)),
{
    lemma_resolve_index(v, id);
    let k = id - count_below(v.deletions, id);
    let v2 = delete_spec(v, id);
    let n = v.entries.len() as int;
    v.entries.remove_ensures(k);
    assert(v2.entries == v.entries.remove(k));
    assert(v2.deletions == v.deletions.push(id));
    // what each new position holds
    assert forall|i: int| 0 <= i < n - 1 implies #[trigger] v2.entries[i] == (if i < k {
        v.entries[i]
    } else {
        v.entries[i + 1]
    }) by {}
    // membership in the extended log
    assert forall|x: u64| v2.deletions.contains(x) implies v.deletions.contains(x) || x == id by {
        let i = choose|i: int| 0 <= i < v2.deletions.len() && v2.deletions[i] == x;
        if i < v.deletions.len() {
            assert(v.deletions[i] == x);
        }
    }
    assert forall|x: u64| v.deletions.contains(x) implies v2.deletions.contains(x) by {
        let i = choose|i: int| 0 <= i < v.deletions.len() && v.deletions[i] == x;
        assert(v2.deletions[i] == x);
    }
    assert(v2.deletions[v.deletions.len() as int] == id);
    assert(v2.deletions.contains(id));
    // the removed position was the only one carrying the id
    assert forall|i: int| 0 <= i < n && i != k implies (#[trigger] v.entries[i].id) != id by {
        if v.entries[i].id == id {
            lemma_id_unique(v, i, k);
        }
    }
    // distinctness of the extended log
    assert forall|i: int, j: int|
        0 <= i < j < v2.deletions.len() implies v2.deletions[i] != v2.deletions[j] by {
        if j == v.deletions.len() {
            assert(v2.deletions[j] == id);
            assert(!v.deletions.contains(id));
            if v.deletions[i] == id {
                assert(v.deletions.contains(id));
            }
        }
    }
    // live entries stay out of the log
    assert forall|i: int| 0 <= i < v2.entries.len() implies !v2.deletions.contains(
        #[trigger] v2.entries[i].id,
    ) by {
        let e_id = v2.entries[i].id;
        assert(e_id != id);
        assert(!v.deletions.contains(e_id));
        if v2.deletions.contains(e_id) {
            assert(v.deletions.contains(e_id) || e_id == id);
        }
    }
    // positions still match the translation
    assert forall|i: int| 0 <= i < v2.entries.len() implies (#[trigger] v2.entries[i].id) == i
        + count_below(v2.deletions, v2.entries[i].id) by {
        lemma_count_below_push(v.deletions, id, v2.entries[i].id);
        if i < k {
            assert(v2.entries[i] == v.entries[i]);
            assert(v.entries[i].id < v.entries[k].id);
            assert(v.entries[i].id == i + count_below(v.deletions, v.entries[i].id));
        } else {
            assert(v2.entries[i] == v.entries[i + 1]);
            assert(v.entries[k].id < v.entries[i + 1].id);
            assert(v.entries[i + 1].id == (i + 1) + count_below(v.deletions, v.entries[i + 1].id));
        }
    }
    // every remaining id below next_id is still live
    assert forall|x: u64| x < v2.next_id && !(#[trigger] v2.deletions.contains(x)) implies live(
        v2,
        x,
    ) by {
        assert(!v.deletions.contains(x));
        assert(x != id);
        assert(live(v, x));
        let k0 = choose|k0: int| 0 <= k0 < v.entries.len() && v.entries[k0].id == x;
        assert(k0 != k);
        if k0 < k {
            assert(v2.entries[k0].id == x);
        } else {
            assert(v2.entries[k0 - 1].id == x);
        }
    }
}

/// The exchange history. All operations go through ids; raw indices are
/// derived on demand from the deletion log.
pub struct ExchangeStore {
    exchanges: Vec<Exchange>,
    deletions: Vec<u64>,
    next_id: u64,
}

impl View for ExchangeStore {
    type V = StoreView;

    closed spec fn view(&self) -> StoreView {
        StoreView {
            entries: self.exchanges@.map_values(|e: Exchange| e@),
            deletions: self.deletions@,
            next_id: self.next_id as int,
        }
    }
}

impl ExchangeStore {
    /// The store's well-formedness; constructors establish it and every
    /// operation preserves it.
    pub open spec fn inv(&self) -> bool {
        store_inv(self@)
    }

    /// An empty store whose first exchange will get id 0.
    pub fn new() -> (r: Self)
        ensures
            r@ == initial_store(),
            r.inv(),
    {
        let r = ExchangeStore { exchanges: Vec::new(), deletions: Vec::new(), next_id: 0 };
        proof {
            assert(r@.entries =~= Seq::<ExchangeView>::empty());
            assert(r@ == initial_store());
        }
        r
    }

    /// How many exchanges are currently live.
    pub fn len(&self) -> (r: usize)
        ensures
            r == self@.entries.len(),
    {
        self.exchanges.len()
    }

    /// The id the next appended exchange will receive.
    pub fn next_id(&self) -> (r: u64)
        ensures
            r == self@.next_id,
    {
        self.next_id
    }

    /// Translates an id into the current position of its exchange, by
    /// walking the deletion log: every deleted id below the target means one
    /// position lost. Returns `None` for an id that was deleted (or never
    /// assigned).
    pub fn resolve(&self, id: u64) -> (r: Option<usize>)
        requires
            self.inv(),
        ensures
            match r {
                Some(k) => resolve_spec(self@, id) == Some(k as int),
                None => resolve_spec(self@, id) is None,
            },
    {
        if id >= self.next_id {
            proof {
                if live(self@, id) {
                    let k0 = choose|k: int|
                        0 <= k < self@.entries.len() && self@.entries[k].id == id;
                    assert(self@.entries[k0].id < self@.next_id);
                }
            }
            return None;
        }
        let ghost dels = self@.deletions;
        let mut cnt: u64 = 0;
        let mut i: usize = 0;
        while i < self.deletions.len()
            invariant
                self.inv(),
                id < self@.next_id,
                i <= dels.len(),
                dels == self@.deletions,
                dels.len() == self.deletions@.len(),
                cnt == count_below(dels.take(i as int), id),
                cnt <= i,
                forall|j: int| 0 <= j < i ==> (#[trigger] dels[j]) != id,
            decreases dels.len() - i,
        {
            let d = self.deletions[i];
            if d == id {
                proof {
                    assert(dels[i as int] == id);
                    assert(dels.contains(id));
                    if live(self@, id) {
                        let k0 = choose|k: int|
                            0 <= k < self@.entries.len() && self@.entries[k].id == id;
                        assert(!self@.deletions.contains(self@.entries[k0].id));
                    }
                }
                return None;
            }
            proof {
                lemma_count_below_take_step(dels, i as int, id);
            }
            if d < id {
                cnt = cnt + 1;
            }
            i = i + 1;
        }
        proof {
            assert(dels.take(dels.len() as int) =~= dels);
            assert(!self@.deletions.contains(id)) by {
                if self@.deletions.contains(id) {
                    let j = choose|j: int| 0 <= j < dels.len() && dels[j] == id;
                    assert(dels[j] != id);
                }
            }
            assert(live(self@, id));
            lemma_resolve_index(self@, id);
        }
        let k = id - cnt;
        let n = self.exchanges.len();
        proof {
            assert(k < self@.entries.len());
            assert(k < n);
        }
        Some(k as usize)
    }

    /// Appends a new exchange and hands back the id it will keep for life.
    pub fn append(&mut self, prompt: String, response: String) -> (id: u64)
        requires
            old(self).inv(),
            old(self)@.next_id < u64::MAX,
        ensures
            final(self)@ == append_spec(old(self)@, prompt@, response@),
            final(self).inv(),
            id == old(self)@.next_id,
    {
        let id = self.next_id;
        let ghost prev = self@;
        self.next_id = self.next_id + 1;
        self.exchanges.push(Exchange { id, prompt, response });
        proof {
            assert(self@.entries =~= append_spec(prev, prompt@, response@).entries);
            assert(self@ == append_spec(prev, prompt@, response@));
            lemma_append_preserves_inv(prev, prompt@, response@);
        }
        id
    }

    /// Replaces the prompt and response of the exchange with the given id,
    /// in place; a no-op when the id was already deleted.
    pub fn edit(&mut self, id: u64, prompt: String, response: String)
        requires
            old(self).inv(),
        ensures
            final(self)@ == edit_spec(old(self)@, id, prompt@, response@),
            final(self).inv(),
    {
        let ghost prev = self@;
        match self.resolve(id) {
            Some(k) => {
                proof {
                    lemma_resolve_index(prev, id);
                }
                self.exchanges.set(k, Exchange { id, prompt, response });
                proof {
                    assert(self@.entries =~= edit_spec(prev, id, prompt@, response@).entries);
                    assert(self@ == edit_spec(prev, id, prompt@, response@));
                    lemma_edit_preserves_inv(prev, id, prompt@, response@);
                }
            },
            None => {
                proof {
                    assert(self@ == edit_spec(prev, id, prompt@, response@));
                }
            },
        }
    }

    /// Removes the exchange with the given id and logs the id as deleted; a
    /// no-op when the id was already deleted.
    pub fn delete(&mut self, id: u64)
        requires
            old(self).inv(),
        ensures
            final(self)@ == delete_spec(old(self)@, id),
            final(self).inv(),
    {
        let ghost prev = self@;
        match self.resolve(id) {
            Some(k) => {
                proof {
                    lemma_resolve_index(prev, id);
                }
                self.exchanges.remove(k);
                self.deletions.push(id);
                proof {
                    assert(self@.entries =~= delete_spec(prev, id).entries) by {
                        prev.entries.remove_ensures(k as int);
                    }
                    assert(self@ == delete_spec(prev, id));
                    lemma_delete_preserves_inv(prev, id);
                }
            },
            None => {
                proof {
                    assert(self@ == delete_spec(prev, id));
                }
            },
        }
    }

    /// Empties the store: the exchanges go, the deletion log is forgotten,
    /// and the id counter restarts from its initial value.
    pub fn clear(&mut self)
        ensures
            final(self)@ == clear_spec(old(self)@),
            final(self)@ == initial_store(),
            final(self).inv(),
    {
        self.exchanges.clear();
        self.deletions.clear();
        self.next_id = 0;
        proof {
            assert(self@.entries =~= Seq::<ExchangeView>::empty());
            assert(self@ == initial_store());
        }
    }

    /// A point-in-time copy of the history as (prompt, response) pairs, for
    /// building a request payload. The copy shares nothing with the store,
    /// so later edits cannot change a payload already built from it.
    pub fn snapshot(&self) -> (r: Vec<(String, String)>)
        ensures
            r@.len() == self@.entries.len(),
            forall|i: int|
                0 <= i < r@.len() ==> (#[trigger] r@[i]).0@ == self@.entries[i].prompt
                    && r@[i].1@ == self@.entries[i].response,
    {
        let mut r: Vec<(String, String)> = Vec::new();
        let mut i: usize = 0;
        while i < self.exchanges.len()
            invariant
                i <= self.exchanges@.len(),
                self@.entries.len() == self.exchanges@.len(),
                r@.len() == i,
                forall|j: int|
                    0 <= j < i ==> (#[trigger] r@[j]).0@ == self@.entries[j].prompt
                        && r@[j].1@ == self@.entries[j].response,
            decreases self.exchanges@.len() - i,
        {
            let e = &self.exchanges[i];
            r.push((e.prompt.clone(), e.response.clone()));
            i = i + 1;
        }
        r
    }
}

/// Law: an edit keyed by a live id lands exactly on the exchange created
/// with that id, and touches nothing else; an edit keyed by a deleted id is
/// a no-op.
pub proof fn lemma_edit_targets_id(v: StoreView, id: u64, prompt: Seq<char>, response: Seq<char>)
    requires
        store_inv(v),
    ensures
        live(v, id) ==> content_of(edit_spec(v, id, prompt, response), id) == Some(
            (prompt, response),
        ),
        !live(v, id) ==> edit_spec(v, id, prompt, response) == v,
        forall|other: u64|
            other != id ==> content_of(edit_spec(v, id, prompt, response), other) == content_of(
                v,
                other,
            ),
{
    let v2 = edit_spec(v, id, prompt, response);
    if live(v, id) {
        lemma_resolve_index(v, id);
        let k = id - count_below(v.deletions, id);
        assert(v2.entries[k].id == id);
        assert(live(v2, id));
        let k2 = choose|k2: int| 0 <= k2 < v2.entries.len() && v2.entries[k2].id == id;
        assert forall|i: int| 0 <= i < v2.entries.len() implies (#[trigger] v2.entries[i].id)
            == v.entries[i].id by {}
        lemma_edit_preserves_inv(v, id, prompt, response);
        lemma_id_unique(v2, k2, k);
        assert(content_of(v2, id) == Some((prompt, response)));
        assert forall|other: u64| other != id implies content_of(v2, other) == content_of(
            v,
            other,
        ) by {
            lemma_content_unchanged_same_ids(v, v2, other);
            if live(v, other) {
                let j = choose|j: int| 0 <= j < v.entries.len() && v.entries[j].id == other;
                assert(j != k);
            }
        }
    }
}

/// When a well-formed store and another of the same length carry identical
/// ids position by position, an id is live in one exactly when it is live in
/// the other, and content lookups land on the same position.
proof fn lemma_content_unchanged_same_ids(v: StoreView, v2: StoreView, id: u64)
    requires
        store_inv(v),
        v.entries.len() == v2.entries.len(),
        forall|i: int| 0 <= i < v.entries.len() ==> (#[trigger] v2.entries[i].id) == v.entries[i].id,
    ensures
        live(v2, id) == live(v, id),
        live(v, id) ==> (choose|k: int| 0 <= k < v2.entries.len() && v2.entries[k].id == id)
            == (choose|k: int| 0 <= k < v.entries.len() && v.entries[k].id == id),
{
    if live(v, id) {
        let k = choose|k: int| 0 <= k < v.entries.len() && v.entries[k].id == id;
        assert(v2.entries[k].id == id);
        assert(live(v2, id));
        let ka = choose|ka: int| 0 <= ka < v2.entries.len() && v2.entries[ka].id == id;
        assert(v.entries[ka].id == id);
        lemma_id_unique(v, ka, k);
    }
    if live(v2, id) {
        let k = choose|k: int| 0 <= k < v2.entries.len() && v2.entries[k].id == id;
        assert(v.entries[k].id == id);
        assert(live(v, id));
    }
}

/// Law: deleting one id leaves every other id's exchange untouched (same
/// content under the same id), and the deleted id is live no more.
pub proof fn lemma_delete_preserves_others(v: StoreView, id: u64, other: u64)
    requires
        store_inv(v),
        other != id,
    ensures
        content_of(delete_spec(v, id), other) == content_of(v, other),
        !live(delete_spec(v, id), id),
{
    let v2 = delete_spec(v, id);
    if live(v, id) {
        lemma_resolve_index(v, id);
        let k = id - count_below(v.deletions, id);
        lemma_delete_preserves_inv(v, id);
        v.entries.remove_ensures(k);
        assert forall|i: int| 0 <= i < v.entries.len() && i != k implies (#[trigger] v.entries[i].id)
            != id by {
            if v.entries[i].id == id {
                lemma_id_unique(v, i, k);
            }
        }
        assert(!live(v2, id)) by {
            if live(v2, id) {
                let j = choose|j: int| 0 <= j < v2.entries.len() && v2.entries[j].id == id;
                if j < k {
                    assert(v.entries[j].id == id);
                } else {
                    assert(v.entries[j + 1].id == id);
                }
            }
        }
        if live(v, other) {
            let j = choose|j: int| 0 <= j < v.entries.len() && v.entries[j].id == other;
            assert(j != k);
            let j2: int = if j < k {
                j
            } else {
                j - 1
            };
            assert(v2.entries[j2].id == other);
            assert(live(v2, other));
            let ja = choose|ja: int| 0 <= ja < v2.entries.len() && v2.entries[ja].id == other;
            lemma_id_unique(v2, ja, j2);
            let jb = choose|jb: int| 0 <= jb < v.entries.len() && v.entries[jb].id == other;
            lemma_id_unique(v, jb, j);
        } else {
            assert(!live(v2, other)) by {
                if live(v2, other) {
                    let j = choose|j: int| 0 <= j < v2.entries.len() && v2.entries[j].id == other;
                    if j < k {
                        assert(v.entries[j].id == other);
                    } else {
                        assert(v.entries[j + 1].id == other);
                    }
                }
            }
        }
    }
}

/// Law: an append creates the new exchange under the fresh id and leaves
/// every existing id's content unchanged.
pub proof fn lemma_append_preserves_others(v: StoreView, prompt: Seq<char>, response: Seq<char>)
    requires
        store_inv(v),
        v.next_id < u64::MAX,
    ensures
        content_of(append_spec(v, prompt, response), v.next_id as u64) == Some((prompt, response)),
        forall|other: u64|
            other != v.next_id as u64 ==> content_of(append_spec(v, prompt, response), other)
                == content_of(v, other),
{
    let v2 = append_spec(v, prompt, response);
    let n = v.entries.len() as int;
    lemma_append_preserves_inv(v, prompt, response);
    assert(v2.entries[n].id == v.next_id as u64);
    assert(live(v2, v.next_id as u64));
    let k = choose|k: int| 0 <= k < v2.entries.len() && v2.entries[k].id == v.next_id as u64;
    lemma_id_unique(v2, k, n);
    assert forall|other: u64| other != v.next_id as u64 implies content_of(v2, other)
        == content_of(v, other) by {
        if live(v, other) {
            let j = choose|j: int| 0 <= j < v.entries.len() && v.entries[j].id == other;
            assert(v2.entries[j].id == other);
            assert(live(v2, other));
            let ja = choose|ja: int| 0 <= ja < v2.entries.len() && v2.entries[ja].id == other;
            lemma_id_unique(v2, ja, j);
        } else {
            assert(!live(v2, other)) by {
                if live(v2, other) {
                    let j = choose|j: int| 0 <= j < v2.entries.len() && v2.entries[j].id == other;
                    assert(j != n);
                    assert(v.entries[j].id == other);
                }
            }
        }
    }
}

/// Law: a clear forgets every logged deletion and resets identity: whatever
/// the store held, the state after a clear is the freshly constructed one,
/// so the next append hands out the same starting id (zero) that a fresh
/// store would.
pub proof fn lemma_clear_resets_identity(v: StoreView, prompt: Seq<char>, response: Seq<char>)
    ensures
        clear_spec(v) == initial_store(),
        clear_spec(v).deletions.len() == 0,
        append_spec(clear_spec(v), prompt, response).entries.last().id == append_spec(
            initial_store(),
            prompt,
            response,
        ).entries.last().id,
        append_spec(clear_spec(v), prompt, response).entries.last().id == 0,
{
}

} // verus!
