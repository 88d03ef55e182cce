//! The catalog store: the authoritative collection of holders, one per
//! record identity, with search, copy-lifecycle mutation and removal.
//! Persistence is by whole-document replacement: `document` renders the
//! full collection and the caller writes it out after every mutation.
use vstd::prelude::*;

use crate::error::AppError;
use crate::item_holder::{is_new_item, Item, ItemEventV, ItemHolder, ItemHolderV, ItemV};
use crate::json::{chars_to_string, holder_json, holder_text, store_json, store_text};
use crate::record::{Record, RecordV};
use crate::text::{chars_of, is_token_at, lower_spec, lower_vec, matches_query, matches_tokens};

verus! {

/// The store's invariant: at most one holder per record identity, and
/// each holder's copy ids strictly increasing and nonnegative.
pub open spec fn db_wf(hs: Seq<ItemHolderV>) -> bool {
    &&& forall|i: int, j: int|
        0 <= i < j < hs.len() ==> hs[i].record.id != hs[j].record.id
    &&& forall|i: int| 0 <= i < hs.len() ==> (#[trigger] hs[i]).wf()
}

/// A holder of the given identity is present.
pub open spec fn contains_id_spec(hs: Seq<ItemHolderV>, id: int) -> bool {
    exists|i: int| 0 <= i < hs.len() && (#[trigger] hs[i]).record.id == id
}

/// The position of the holder of the given identity, when present.
pub open spec fn idx_of(hs: Seq<ItemHolderV>, id: int) -> int {
    choose|i: int| 0 <= i < hs.len() && (#[trigger] hs[i]).record.id == id
}

/// A copy of the given id is present in the list.
pub open spec fn contains_item_id(items: Seq<ItemV>, id: int) -> bool {
    exists|j: int| 0 <= j < items.len() && (#[trigger] items[j]).id == id
}

/// The position of the copy of the given id, when present.
pub open spec fn item_idx_of(items: Seq<ItemV>, id: int) -> int {
    choose|j: int| 0 <= j < items.len() && (#[trigger] items[j]).id == id
}

/// The lower-cased serialized text of a holder: what query tokens are
/// matched against. Opaque: most reasoning needs only that each holder
/// determines one such text, not how it reads.
#[verifier::opaque]
pub open spec fn lower_json(h: ItemHolderV) -> Seq<char> {
    lower_spec(holder_json(h))
}

/// The holder's serialized text contains every token of the (already
/// lower-cased) query.
pub open spec fn holder_matches(h: ItemHolderV, ql: Seq<char>) -> bool {
    matches_query(lower_json(h), ql)
}

/// The holders whose serialized text matches the query, in store order.
pub open spec fn search_filter(hs: Seq<ItemHolderV>, ql: Seq<char>) -> Seq<ItemHolderV>
    decreases hs,
{
    if hs.len() == 0 {
        Seq::empty()
    } else {
        search_filter(hs.drop_last(), ql) + if holder_matches(hs.last(), ql) {
            seq![hs.last()]
        } else {
            Seq::empty()
        }
    }
}

/// The matching holders other than the one of the excluded identity.
pub open spec fn search_filter_excl(hs: Seq<ItemHolderV>, ql: Seq<char>, id: int) -> Seq<
    ItemHolderV,
>
    decreases hs,
{
    if hs.len() == 0 {
        Seq::empty()
    } else {
        search_filter_excl(hs.drop_last(), ql, id) + if holder_matches(hs.last(), ql)
            && hs.last().record.id != id {
            seq![hs.last()]
        } else {
            Seq::empty()
        }
    }
}

/// A holder of the given record owning no copies.
pub open spec fn empty_holder(rec: RecordV) -> ItemHolderV {
    ItemHolderV { record: rec, items: Seq::empty() }
}

/// What a pinned search puts first: the stored holder of that identity,
/// or a fresh empty holder when none is stored.
pub open spec fn pinned_front(hs: Seq<ItemHolderV>, rec: RecordV) -> ItemHolderV {
    if contains_id_spec(hs, rec.id) {
        hs[idx_of(hs, rec.id)]
    } else {
        empty_holder(rec)
    }
}

/// The full search result: every matching holder in store order; with a
/// pinned identity, its holder first and excluded from the rest.
pub open spec fn search_spec(
    hs: Seq<ItemHolderV>,
    ql: Seq<char>,
    pinned: Option<RecordV>,
) -> Seq<ItemHolderV> {
    match pinned {
        None => search_filter(hs, ql),
        Some(rec) => seq![pinned_front(hs, rec)] + search_filter_excl(hs, ql, rec.id),
    }
}

/// The durable collection of holders, one per record identity.
#[derive(Debug)]
pub struct Database {
    pub data: Vec<ItemHolder>,
}

impl View for Database {
    type V = Seq<ItemHolderV>;

    open spec fn view(&self) -> Seq<ItemHolderV> {
        self.data.deep_view()
    }
}

/// Raised at startup when the stored collection breaks the store's
/// invariant.
#[derive(Debug)]
pub struct FileContainedError(pub String);

/// Whether one holder satisfies the store's per-holder invariant.
fn holder_wf_check(h: &ItemHolder) -> (r: bool)
    ensures
        r == h.deep_view().wf(),
{
    let ghost hv = h.deep_view();
    let n = h.items.len();
    if n == 0 {
        return true;
    }
    if h.items[0].id < 0 {
        proof {
            assert(hv.items[0] == h.items@[0].deep_view());
            if hv.wf() {
                assert(0 <= hv.items[0].id);
            }
        }
        return false;
    }
    let mut k: usize = 1;
    while k < n
        invariant
            1 <= k <= n,
            n == h.items@.len(),
            hv == h.deep_view(),
            hv.items.len() == n,
            forall|a: int, b: int| 0 <= a < b < k ==> hv.items[a].id < hv.items[b].id,
            forall|a: int| 0 <= a < k ==> 0 <= #[trigger] hv.items[a].id,
        decreases n - k,
    {
        if h.items[k].id <= h.items[k - 1].id {
            proof {
                assert(hv.items[k as int].id <= hv.items[k - 1].id);
            }
            return false;
        }
        proof {
            assert(hv.items[k - 1].id < hv.items[k as int].id);
            assert forall|a: int, b: int|
                0 <= a < b < k + 1 implies hv.items[a].id < hv.items[b].id by {
                if b == k {
                    if a < k - 1 {
                        assert(hv.items[a].id < hv.items[k - 1].id);
                    }
                }
            }
        }
        k += 1;
    }
    true
}

/// The position of the first holder of the given identity, if any.
fn find_by_id(data: &Vec<ItemHolder>, rid: i64) -> (r: Option<usize>)
    ensures
        match r {
            Some(i) => i < data.deep_view().len() && data.deep_view()[i as int].record.id
                == rid as int && forall|a: int|
                0 <= a < i ==> (#[trigger] data.deep_view()[a]).record.id != rid as int,
            None => !contains_id_spec(data.deep_view(), rid as int),
        },
{
    let ghost hs = data.deep_view();
    let n = data.len();
    let mut i: usize = 0;
    while i < n
        invariant
            i <= n,
            n == data@.len(),
            hs == data.deep_view(),
            hs.len() == n,
            forall|a: int| 0 <= a < i ==> (#[trigger] hs[a]).record.id != rid as int,
        decreases n - i,
    {
        if data[i].record.id == rid {
            proof {
                assert(hs[i as int].record.id == rid as int);
            }
            return Some(i);
        }
        i += 1;
    }
    None
}

/// The position of the first copy of the given id, if any.
fn find_item_by_id(items: &Vec<Item>, id: i64) -> (r: Option<usize>)
    ensures
        match r {
            Some(j) => j < items.deep_view().len() && items.deep_view()[j as int].id == id as int,
            None => !contains_item_id(items.deep_view(), id as int),
        },
{
    let ghost iv = items.deep_view();
    let n = items.len();
    let mut j: usize = 0;
    while j < n
        invariant
            j <= n,
            n == items@.len(),
            iv == items.deep_view(),
            iv.len() == n,
            forall|a: int| 0 <= a < j ==> (#[trigger] iv[a]).id != id as int,
        decreases n - j,
    {
        if items[j].id == id {
            proof {
                assert(iv[j as int].id == id as int);
            }
            return Some(j);
        }
        j += 1;
    }
    None
}

/// Whether the holder's lower-cased serialized text matches the query.
fn matching_holder(h: &ItemHolder, ql: &Vec<char>) -> (r: bool)
    ensures
        r == holder_matches(h.deep_view(), ql@),
{
    let text = holder_text(h);
    let lt = lower_vec(&text);
    proof {
        reveal(lower_json);
        assert(lt@ == lower_json(h.deep_view()));
    }
    matches_tokens(&lt, ql)
}

/// The holders whose lower-cased serialized text matches the query, in
/// store order, each copied out of the store.
fn filter_matching(data: &Vec<ItemHolder>, ql: &Vec<char>) -> (r: Vec<ItemHolder>)
    ensures
        r.deep_view() == search_filter(data.deep_view(), ql@),
{
    let ghost hs = data.deep_view();
    let n = data.len();
    let mut res: Vec<ItemHolder> = Vec::new();
    let mut i: usize = 0;
    while i < n
        invariant
            i <= n,
            n == data@.len(),
            hs == data.deep_view(),
            hs.len() == n,
            res.deep_view() == search_filter(hs.subrange(0, i as int), ql@),
        decreases n - i,
    {
        let m = matching_holder(&data[i], ql);
        proof {
            assert(hs[i as int] == data@[i as int].deep_view());
        }
        if m {
            res.push(data[i].duplicate());
        }
        proof {
            let pre = hs.subrange(0, i as int);
            let post = hs.subrange(0, i + 1);
            assert(post.drop_last() =~= pre);
            assert(post.last() == hs[i as int]);
            assert(res.deep_view() =~= search_filter(post, ql@));
        }
        i += 1;
    }
    proof {
        assert(hs.subrange(0, n as int) =~= hs);
    }
    res
}

/// The matching holders other than the excluded identity, in store
/// order, each copied out of the store.
fn filter_matching_excl(data: &Vec<ItemHolder>, ql: &Vec<char>, rid: i64) -> (r: Vec<ItemHolder>)
    ensures
        r.deep_view() == search_filter_excl(data.deep_view(), ql@, rid as int),
{
    let ghost hs = data.deep_view();
    let n = data.len();
    let mut res: Vec<ItemHolder> = Vec::new();
    let mut i: usize = 0;
    while i < n
        invariant
            i <= n,
            n == data@.len(),
            hs == data.deep_view(),
            hs.len() == n,
            res.deep_view() == search_filter_excl(hs.subrange(0, i as int), ql@, rid as int),
        decreases n - i,
    {
        let m = matching_holder(&data[i], ql);
        proof {
            assert(hs[i as int] == data@[i as int].deep_view());
        }
        if m && data[i].record.id != rid {
            res.push(data[i].duplicate());
        }
        proof {
            let pre = hs.subrange(0, i as int);
            let post = hs.subrange(0, i + 1);
            assert(post.drop_last() =~= pre);
            assert(post.last() == hs[i as int]);
            assert(res.deep_view() =~= search_filter_excl(post, ql@, rid as int));
        }
        i += 1;
    }
    proof {
        assert(hs.subrange(0, n as int) =~= hs);
    }
    res
}

impl Database {
    /// An empty collection, trivially satisfying the store invariant.
    pub fn new() -> (r: Database)
        ensures
            r@ == Seq::<ItemHolderV>::empty(),
            db_wf(r@),
    {
        let r = Database { data: Vec::new() };
        proof {
            assert(r@ =~= Seq::<ItemHolderV>::empty());
        }
        r
    }

    /// The collection as read back at startup. Data that breaks the
    /// store invariant is refused: such a store file is a fatal startup
    /// error, not something to repair silently.
    pub fn from_data(data: Vec<ItemHolder>) -> (r: Result<Database, AppError>)
        ensures
            r is Ok <==> db_wf(data.deep_view()),
            r matches Ok(db) ==> db@ == data.deep_view(),
    {
        let ghost hs = data.deep_view();
        let n = data.len();
        let mut i: usize = 0;
        while i < n
            invariant
                i <= n,
                n == data@.len(),
                hs == data.deep_view(),
                hs.len() == n,
                forall|a: int, b: int| 0 <= a < b < i ==> hs[a].record.id != hs[b].record.id,
                forall|a: int| 0 <= a < i ==> (#[trigger] hs[a]).wf(),
            decreases n - i,
        {
            if !holder_wf_check(&data[i]) {
                proof {
                    assert(hs[i as int] == data@[i as int].deep_view());
                    if db_wf(hs) {
                        assert(hs[i as int].wf());
                    }
                }
                return Err(AppError(String::from_str("The stored collection is malformed")));
            }
            let mut j: usize = 0;
            while j < i
                invariant
                    j <= i < n,
                    n == data@.len(),
                    hs == data.deep_view(),
                    hs.len() == n,
                    forall|a: int| 0 <= a < j ==> hs[a].record.id != hs[i as int].record.id,
                decreases i - j,
            {
                if data[j].record.id == data[i].record.id {
                    proof {
                        assert(hs[j as int].record.id == hs[i as int].record.id);
                        if db_wf(hs) {
                            assert(hs[j as int].record.id != hs[i as int].record.id);
                        }
                    }
                    return Err(AppError(String::from_str("The stored collection is malformed")));
                }
                j += 1;
            }
            i += 1;
        }
        Ok(Database { data })
    }

    /// A holder of this record's identity is present.
    pub fn contains(&self, record: &Record) -> (r: bool)
        ensures
            r == contains_id_spec(self@, record.deep_view().id),
    {
        self.contains_id(record.id)
    }

    /// A holder of the given identity is present.
    pub fn contains_id(&self, id: i64) -> (r: bool)
        ensures
            r == contains_id_spec(self@, id as int),
    {
        let ghost hs = self@;
        let n = self.data.len();
        let mut i: usize = 0;
        while i < n
            invariant
                i <= n,
                n == self.data@.len(),
                hs == self@,
                hs.len() == n,
                forall|a: int| 0 <= a < i ==> (#[trigger] hs[a]).record.id != id,
            decreases n - i,
        {
            if self.data[i].record.id == id {
                proof {
                    assert(hs[i as int].record.id == id);
                }
                return true;
            }
            i += 1;
        }
        false
    }

    /// The holders whose serialized text, lower-cased, contains every
    /// whitespace-delimited token of the lower-cased query, in store
    /// order; a pinned record's holder is forced to the front and
    /// appears nowhere else in the result.
    pub fn search(&self, query: &str, item_holder: Option<Record>) -> (r: Vec<ItemHolder>)
        requires
            db_wf(self@),
        ensures
            r.deep_view() == search_spec(
                self@,
                lower_spec(query@),
                match item_holder {
                    None => None,
                    Some(rec) => Some(rec.deep_view()),
                },
            ),
    {
        let qc = chars_of(query);
        let ql = lower_vec(&qc);
        let ghost hs = self@;
        match item_holder {
            None => filter_matching(&self.data, &ql),
            Some(record) => {
                let ghost rec = record.deep_view();
                let rid = record.id;
                let mut res: Vec<ItemHolder> = Vec::new();
                match find_by_id(&self.data, rid) {
                    Some(f) => {
                        proof {
                            assert(contains_id_spec(hs, rec.id));
                            let k = idx_of(hs, rec.id);
                            assert(0 <= k < hs.len() && hs[k].record.id == rec.id);
                            assert(k == f as int);
                            assert(pinned_front(hs, rec) == hs[f as int]);
                        }
                        res.push(self.data[f].duplicate());
                    },
                    None => {
                        proof {
                            assert(!contains_id_spec(hs, rec.id));
                        }
                        res.push(ItemHolder::new(record));
                        proof {
                            assert(res.deep_view()[0] =~= empty_holder(rec));
                        }
                    },
                }
                proof {
                    assert(res.deep_view() =~= seq![pinned_front(hs, rec)]);
                }
                let ghost front = res.deep_view();
                let mut tail = filter_matching_excl(&self.data, &ql, rid);
                let ghost taildv = tail.deep_view();
                res.append(&mut tail);
                proof {
                    assert(res.deep_view() =~= front + taildv);
                }
                res
            },
        }
    }

    /// Save this record: append a fresh copy to its holder when one is
    /// stored, or store a new holder owning one copy under id 0. The
    /// returned holder is the stored one after the mutation. Fails only
    /// when the holder's copy id space is exhausted.
    pub fn add(&mut self, record: Record) -> (r: Result<ItemHolder, AppError>)
        requires
            db_wf(old(self)@),
        ensures
            db_wf(final(self)@),
            r is Err ==> final(self)@ == old(self)@,
            r matches Err(e) ==> e.0@ == "No copy id left for this record"@,
            contains_id_spec(final(self)@, record.deep_view().id),
            ({
                let hs = old(self)@;
                let rid = record.deep_view().id;
                if !contains_id_spec(hs, rid) {
                    &&& r matches Ok(h)
                    &&& h.deep_view().record == record.deep_view()
                    &&& h.deep_view().items.len() == 1
                    &&& is_new_item(h.deep_view().items[0], 0)
                    &&& final(self)@ == hs.push(h.deep_view())
                } else {
                    let k = idx_of(hs, rid);
                    if hs[k].next_copy_id() <= i64::MAX {
                        &&& r matches Ok(h)
                        &&& h.deep_view().record == hs[k].record
                        &&& h.deep_view().items.len() == hs[k].items.len() + 1
                        &&& h.deep_view().items.drop_last() == hs[k].items
                        &&& is_new_item(h.deep_view().items.last(), hs[k].next_copy_id())
                        &&& final(self)@ == hs.update(k, h.deep_view())
                    } else {
                        r is Err
                    }
                }
            }),
    {
        let ghost hs = self@;
        let ghost rid = record.deep_view().id;
        match find_by_id(&self.data, record.id) {
            Some(i) => {
                proof {
                    assert(hs[i as int].record.id == rid);
                    assert(contains_id_spec(hs, rid));
                    let k = idx_of(hs, rid);
                    assert(0 <= k < hs.len() && hs[k].record.id == rid);
                    assert(k == i as int);
                }
                let hlen = self.data[i].items.len();
                if hlen > 0 && self.data[i].items[hlen - 1].id == i64::MAX {
                    proof {
                        let hv = hs[i as int];
                        assert(hv.items.last() == self.data@[i as int].items@[hlen - 1].deep_view());
                        assert(hv.next_copy_id() == i64::MAX + 1);
                    }
                    return Err(AppError(String::from_str("No copy id left for this record")));
                }
                let mut h = self.data.remove(i);
                proof {
                    assert(h.deep_view() == hs[i as int]);
                    if h.items@.len() > 0 {
                        assert(h.deep_view().items.last() == h.items@[h.items@.len()
                            - 1].deep_view());
                    }
                }
                h.add_item();
                let dup = h.duplicate();
                let ghost hv = h.deep_view();
                self.data.insert(i, h);
                proof {
                    assert(final(self)@ =~= hs.update(i as int, hv));
                    assert(final(self)@[i as int].record.id == rid);
                    assert forall|a: int, b: int|
                        0 <= a < b < final(self)@.len() implies final(self)@[a].record.id
                        != final(self)@[b].record.id by {
                        assert(hs[a].record.id != hs[b].record.id);
                    }
                    assert forall|a: int|
                        0 <= a < final(self)@.len() implies (#[trigger] final(self)@[a]).wf() by {
                        assert(hs[a].wf());
                    }
                }
                Ok(dup)
            },
            None => {
                proof {
                    assert(!contains_id_spec(hs, rid));
                }
                let h = ItemHolder::new_with_item(record);
                let dup = h.duplicate();
                let ghost hv = h.deep_view();
                self.data.push(h);
                proof {
                    assert(final(self)@ =~= hs.push(hv));
                    assert(final(self)@[hs.len() as int].record.id == rid);
                    assert forall|a: int, b: int|
                        0 <= a < b < final(self)@.len() implies final(self)@[a].record.id
                        != final(self)@[b].record.id by {
                        if b < hs.len() {
                            assert(hs[a].record.id != hs[b].record.id);
                        } else {
                            assert(final(self)@[b] == hv);
                            assert(!(hs[a].record.id == rid));
                        }
                    }
                    assert forall|a: int|
                        0 <= a < final(self)@.len() implies (#[trigger] final(self)@[a]).wf() by {
                        if a < hs.len() {
                            assert(hs[a].wf());
                        }
                    }
                }
                Ok(dup)
            },
        }
    }

    /// Replace the event log of the copy matching the given one's id,
    /// within the holder of the given record's identity. Fails, leaving
    /// the store unchanged, when no such holder or no such copy exists.
    pub fn update_item(&mut self, record: &Record, item: Item) -> (r: Result<(), AppError>)
        requires
            db_wf(old(self)@),
        ensures
            db_wf(final(self)@),
            ({
                let hs = old(self)@;
                let rid = record.deep_view().id;
                let iv = item.deep_view();
                if !contains_id_spec(hs, rid) {
                    &&& r matches Err(e) && e.0@ == "No item holder matching the current record"@
                    &&& final(self)@ == hs
                } else if !contains_item_id(hs[idx_of(hs, rid)].items, iv.id) {
                    &&& r matches Err(e) && e.0@ == "No item holder matching the item id"@
                    &&& final(self)@ == hs
                } else {
                    let k = idx_of(hs, rid);
                    let j = item_idx_of(hs[k].items, iv.id);
                    &&& r is Ok
                    &&& final(self)@ == hs.update(
                        k,
                        (ItemHolderV {
                            record: hs[k].record,
                            items: hs[k].items.update(
                                j,
                                (ItemV { id: hs[k].items[j].id, events: iv.events }),
                            ),
                        }),
                    )
                }
            }),
    {
        let ghost hs = self@;
        let ghost rid = record.deep_view().id;
        let ghost iv = item.deep_view();
        match find_by_id(&self.data, record.id) {
            None => {
                proof {
                    assert(!contains_id_spec(hs, rid));
                }
                Err(AppError(String::from_str("No item holder matching the current record")))
            },
            Some(i) => {
                proof {
                    assert(hs[i as int].record.id == rid);
                    assert(contains_id_spec(hs, rid));
                    let k = idx_of(hs, rid);
                    assert(0 <= k < hs.len() && hs[k].record.id == rid);
                    assert(k == i as int);
                }
                match find_item_by_id(&self.data[i].items, item.id) {
                    None => {
                        proof {
                            assert(self.data[i as int].items.deep_view() == hs[i as int].items);
                        }
                        Err(AppError(String::from_str("No item holder matching the item id")))
                    },
                    Some(j) => {
                        proof {
                            let items = hs[i as int].items;
                            assert(self.data[i as int].items.deep_view() == items);
                            assert(items[j as int].id == iv.id);
                            assert(contains_item_id(items, iv.id));
                            let j2 = item_idx_of(items, iv.id);
                            assert(0 <= j2 < items.len() && items[j2].id == iv.id);
                            assert(hs[i as int].wf());
                            assert(j2 == j as int);
                        }
                        let mut h = self.data.remove(i);
                        proof {
                            assert(h.deep_view() == hs[i as int]);
                        }
                        let old_it = h.items.remove(j);
                        proof {
                            assert(old_it.deep_view() == hs[i as int].items[j as int]);
                        }
                        let new_it = Item { id: old_it.id, events: item.events };
                        h.items.insert(j, new_it);
                        let ghost hv = h.deep_view();
                        self.data.insert(i, h);
                        proof {
                            let items = hs[i as int].items;
                            assert(hv.items =~= items.update(
                                j as int,
                                (ItemV { id: items[j as int].id, events: iv.events }),
                            ));
                            assert(hv =~= (ItemHolderV {
                                record: hs[i as int].record,
                                items: items.update(
                                    j as int,
                                    (ItemV { id: items[j as int].id, events: iv.events }),
                                ),
                            }));
                            assert(final(self)@ =~= hs.update(i as int, hv));
                            assert(hv.wf()) by {
                                assert(forall|a: int|
                                    0 <= a < hv.items.len() ==> (#[trigger] hv.items[a]).id
                                        == items[a].id);
                                assert(hs[i as int].wf());
                            }
                            assert forall|a: int, b: int|
                                0 <= a < b < final(self)@.len() implies final(self)@[a].record.id
                                != final(self)@[b].record.id by {
                                assert(hs[a].record.id != hs[b].record.id);
                            }
                            assert forall|a: int|
                                0 <= a < final(self)@.len() implies (
                                #[trigger] final(self)@[a]).wf() by {
                                assert(hs[a].wf());
                            }
                        }
                        Ok(())
                    },
                }
            },
        }
    }

    /// Remove the copy at the given position within the holder of the
    /// given record's identity; out-of-range positions and unknown
    /// records leave the store unchanged. Never fails.
    pub fn remove_holder_item(&mut self, record: &Record, item_index: usize) -> (r: Result<
        (),
        AppError,
    >)
        requires
            db_wf(old(self)@),
        ensures
            db_wf(final(self)@),
            r is Ok,
            ({
                let hs = old(self)@;
                let rid = record.deep_view().id;
                if contains_id_spec(hs, rid) && item_index < hs[idx_of(hs, rid)].items.len() {
                    final(self)@ == hs.update(
                        idx_of(hs, rid),
                        (ItemHolderV {
                            record: hs[idx_of(hs, rid)].record,
                            items: hs[idx_of(hs, rid)].items.remove(item_index as int),
                        }),
                    )
                } else {
                    final(self)@ == hs
                }
            }),
    {
        let ghost hs = self@;
        let ghost rid = record.deep_view().id;
        match find_by_id(&self.data, record.id) {
            None => {
                proof {
                    assert(!contains_id_spec(hs, rid));
                }
                Ok(())
            },
            Some(i) => {
                proof {
                    assert(hs[i as int].record.id == rid);
                    assert(contains_id_spec(hs, rid));
                    let k = idx_of(hs, rid);
                    assert(0 <= k < hs.len() && hs[k].record.id == rid);
                    assert(k == i as int);
                }
                if item_index < self.data[i].items.len() {
                    proof {
                        assert(self.data[i as int].items.deep_view() == hs[i as int].items);
                    }
                    let mut h = self.data.remove(i);
                    proof {
                        assert(h.deep_view() == hs[i as int]);
                    }
                    h.items.remove(item_index);
                    let ghost hv = h.deep_view();
                    self.data.insert(i, h);
                    proof {
                        let items = hs[i as int].items;
                        assert(hv.items =~= items.remove(item_index as int));
                        assert(hv =~= (ItemHolderV {
                            record: hs[i as int].record,
                            items: items.remove(item_index as int),
                        }));
                        assert(final(self)@ =~= hs.update(i as int, hv));
                        assert(hv.wf()) by {
                            assert(hs[i as int].wf());
                            assert forall|a: int, b: int|
                                0 <= a < b < hv.items.len() implies hv.items[a].id
                                < hv.items[b].id by {
                                let a0 = if a < item_index { a } else { a + 1 };
                                let b0 = if b < item_index { b } else { b + 1 };
                                assert(hv.items[a] == items[a0]);
                                assert(hv.items[b] == items[b0]);
                                assert(items[a0].id < items[b0].id);
                            }
                            assert forall|a: int|
                                0 <= a < hv.items.len() implies 0 <= (
                                #[trigger] hv.items[a]).id by {
                                let a0 = if a < item_index { a } else { a + 1 };
                                assert(hv.items[a] == items[a0]);
                                assert(0 <= items[a0].id);
                            }
                        }
                        assert forall|a: int, b: int|
                            0 <= a < b < final(self)@.len() implies final(self)@[a].record.id
                            != final(self)@[b].record.id by {
                            assert(hs[a].record.id != hs[b].record.id);
                        }
                        assert forall|a: int|
                            0 <= a < final(self)@.len() implies (#[trigger] final(self)@[a]).wf() by {
                            assert(hs[a].wf());
                        }
                    }
                    Ok(())
                } else {
                    proof {
                        assert(self.data[i as int].items.deep_view() == hs[i as int].items);
                    }
                    Ok(())
                }
            },
        }
    }

    /// Delete the holder of the given record's identity outright, with
    /// all its copies; unknown records leave the store unchanged.
    /// Never fails.
    pub fn remove_holder(&mut self, record: &Record) -> (r: Result<(), AppError>)
        requires
            db_wf(old(self)@),
        ensures
            db_wf(final(self)@),
            r is Ok,
            ({
                let hs = old(self)@;
                let rid = record.deep_view().id;
                if contains_id_spec(hs, rid) {
                    final(self)@ == hs.remove(idx_of(hs, rid))
                } else {
                    final(self)@ == hs
                }
            }),
    {
        let ghost hs = self@;
        let ghost rid = record.deep_view().id;
        match find_by_id(&self.data, record.id) {
            None => {
                proof {
                    assert(!contains_id_spec(hs, rid));
                }
                Ok(())
            },
            Some(i) => {
                proof {
                    assert(hs[i as int].record.id == rid);
                    assert(contains_id_spec(hs, rid));
                    let k = idx_of(hs, rid);
                    assert(0 <= k < hs.len() && hs[k].record.id == rid);
                    assert(k == i as int);
                }
                self.data.remove(i);
                proof {
                    assert(final(self)@ =~= hs.remove(i as int));
                    assert forall|a: int, b: int|
                        0 <= a < b < final(self)@.len() implies final(self)@[a].record.id
                        != final(self)@[b].record.id by {
                        let a0 = if a < i as int { a } else { a + 1 };
                        let b0 = if b < i as int { b } else { b + 1 };
                        assert(final(self)@[a] == hs[a0]);
                        assert(final(self)@[b] == hs[b0]);
                        assert(hs[a0].record.id != hs[b0].record.id);
                    }
                    assert forall|a: int|
                        0 <= a < final(self)@.len() implies (#[trigger] final(self)@[a]).wf() by {
                        let a0 = if a < i as int { a } else { a + 1 };
                        assert(final(self)@[a] == hs[a0]);
                        assert(hs[a0].wf());
                    }
                }
                Ok(())
            },
        }
    }

    /// The whole collection rendered as one document, ready to be
    /// written out in place of the previous one.
    pub fn document(&self) -> (r: String)
        ensures
            r@ == store_json(self@),
    {
        let text = store_text(&self.data);
        chars_to_string(text)
    }
}

/// Adding a record never stored, then adding it again, leaves exactly
/// one holder of that identity, owning two copies under ids 0 and 1.
/// The states are related as `add`'s contract relates them: first the
/// new-holder step, then the append-copy step.
pub proof fn lemma_add_twice(
    hs0: Seq<ItemHolderV>,
    h1: ItemHolderV,
    hs1: Seq<ItemHolderV>,
    h2: ItemHolderV,
    hs2: Seq<ItemHolderV>,
    rec: RecordV,
)
    requires
        db_wf(hs0),
        !contains_id_spec(hs0, rec.id),
        h1.record == rec,
        h1.items.len() == 1,
        is_new_item(h1.items[0], 0),
        hs1 == hs0.push(h1),
        h2.record == hs1[idx_of(hs1, rec.id)].record,
        h2.items.len() == hs1[idx_of(hs1, rec.id)].items.len() + 1,
        h2.items.drop_last() == hs1[idx_of(hs1, rec.id)].items,
        is_new_item(h2.items.last(), hs1[idx_of(hs1, rec.id)].next_copy_id()),
        hs2 == hs1.update(idx_of(hs1, rec.id), h2),
    ensures
        contains_id_spec(hs2, rec.id),
        hs2[idx_of(hs2, rec.id)].items.len() == 2,
        hs2[idx_of(hs2, rec.id)].items[0].id == 0,
        hs2[idx_of(hs2, rec.id)].items[1].id == 1,
        forall|i: int|
            0 <= i < hs2.len() && (#[trigger] hs2[i]).record.id == rec.id ==> i == idx_of(
                hs2,
                rec.id,
            ),
{
    let n = hs0.len() as int;
    assert(hs1[n].record.id == rec.id);
    assert(contains_id_spec(hs1, rec.id));
    let k1 = idx_of(hs1, rec.id);
    assert(0 <= k1 < hs1.len() && hs1[k1].record.id == rec.id);
    assert(k1 == n) by {
        if k1 < n {
            assert(hs0[k1].record.id == rec.id);
        }
    }
    assert(hs1[k1] == h1);
    assert(hs1[k1].next_copy_id() == 1);
    assert(h2.items[0] == h2.items.drop_last()[0]);
    assert(h2.items[0].id == 0);
    assert(h2.items[1] == h2.items.last());
    assert(h2.items[1].id == 1);
    assert(hs2[n].record.id == rec.id);
    assert(contains_id_spec(hs2, rec.id));
    let k2 = idx_of(hs2, rec.id);
    assert(0 <= k2 < hs2.len() && hs2[k2].record.id == rec.id);
    assert(k2 == n) by {
        if k2 < n {
            assert(hs0[k2].record.id == rec.id);
        }
    }
    assert forall|i: int|
        0 <= i < hs2.len() && (#[trigger] hs2[i]).record.id == rec.id implies i == k2 by {
        if i < n {
            assert(hs0[i].record.id == rec.id);
        }
    }
}

/// The empty query has no token, so it matches every holder: searching
/// with it returns the whole collection in store order.
pub proof fn lemma_search_empty_query(hs: Seq<ItemHolderV>)
    ensures
        search_filter(hs, lower_spec(Seq::empty())) == hs,
        search_filter(hs, Seq::empty()) == hs,
    decreases hs.len(),
{
    assert(lower_spec(Seq::empty()) =~= Seq::<char>::empty());
    if hs.len() > 0 {
        lemma_search_empty_query(hs.drop_last());
        assert(forall|i: int, j: int| !is_token_at(Seq::<char>::empty(), i, j));
        assert(holder_matches(hs.last(), Seq::empty()));
        assert(search_filter(hs, Seq::empty()) =~= hs.drop_last().push(hs.last()));
        assert(hs.drop_last().push(hs.last()) =~= hs);
    } else {
        assert(search_filter(hs, Seq::empty()) =~= hs);
    }
}

/// No element of the exclusion-filtered result carries the excluded
/// identity.
pub proof fn lemma_filter_excl_excludes(hs: Seq<ItemHolderV>, ql: Seq<char>, id: int)
    ensures
        forall|k: int|
            0 <= k < search_filter_excl(hs, ql, id).len() ==> (#[trigger] search_filter_excl(
                hs,
                ql,
                id,
            )[k]).record.id != id,
    decreases hs.len(),
{
    if hs.len() > 0 {
        lemma_filter_excl_excludes(hs.drop_last(), ql, id);
        let r = search_filter_excl(hs, ql, id);
        let pre = search_filter_excl(hs.drop_last(), ql, id);
        assert forall|k: int| 0 <= k < r.len() implies (#[trigger] r[k]).record.id != id by {
            if k < pre.len() {
                assert(r[k] == pre[k]);
            } else {
                assert(r[k] == hs.last());
            }
        }
    }
}

/// A pinned search always places the pinned identity's holder first,
/// and that identity appears nowhere else in the result.
pub proof fn lemma_search_pinned_front(hs: Seq<ItemHolderV>, ql: Seq<char>, rec: RecordV)
    ensures
        search_spec(hs, ql, Some(rec)).len() >= 1,
        search_spec(hs, ql, Some(rec))[0] == pinned_front(hs, rec),
        search_spec(hs, ql, Some(rec))[0].record.id == rec.id,
        forall|k: int|
            1 <= k < search_spec(hs, ql, Some(rec)).len() ==> (#[trigger] search_spec(
                hs,
                ql,
                Some(rec),
            )[k]).record.id != rec.id,
{
    let r = search_spec(hs, ql, Some(rec));
    let front = pinned_front(hs, rec);
    assert(r[0] == front);
    if contains_id_spec(hs, rec.id) {
        let k = idx_of(hs, rec.id);
        assert(0 <= k < hs.len() && hs[k].record.id == rec.id);
    }
    assert(front.record.id == rec.id);
    lemma_filter_excl_excludes(hs, ql, rec.id);
    assert forall|k: int| 1 <= k < r.len() implies (#[trigger] r[k]).record.id != rec.id by {
        assert(r[k] == search_filter_excl(hs, ql, rec.id)[k - 1]);
    }
}

/// Removing the holder of an identity leaves no holder of that
/// identity: the store holds at most one per identity to begin with.
pub proof fn lemma_removed_holder_not_contained(hs: Seq<ItemHolderV>, id: int)
    requires
        db_wf(hs),
        contains_id_spec(hs, id),
    ensures
        !contains_id_spec(hs.remove(idx_of(hs, id)), id),
{
    let k = idx_of(hs, id);
    assert(0 <= k < hs.len() && hs[k].record.id == id);
    let rest = hs.remove(k);
    assert forall|i: int| 0 <= i < rest.len() implies (#[trigger] rest[i]).record.id != id by {
        let i0 = if i < k {
            i
        } else {
            i + 1
        };
        assert(rest[i] == hs[i0]);
        if i0 != k {
            if i0 < k {
                assert(hs[i0].record.id != hs[k].record.id);
            } else {
                assert(hs[k].record.id != hs[i0].record.id);
            }
        }
    }
}

/// Appending one event to a copy's log, through `update_item`'s
/// replacement of that log, is visible immediately and touches nothing
/// else: the old events stand unchanged in their order, the new event
/// stands last, and the log grows by exactly one.
pub proof fn lemma_update_appends_event(
    hs: Seq<ItemHolderV>,
    hs2: Seq<ItemHolderV>,
    rid: int,
    iid: int,
    ev: ItemEventV,
)
    requires
        contains_id_spec(hs, rid),
        contains_item_id(hs[idx_of(hs, rid)].items, iid),
        ({
            let k = idx_of(hs, rid);
            let j = item_idx_of(hs[k].items, iid);
            hs2 == hs.update(
                k,
                (ItemHolderV {
                    record: hs[k].record,
                    items: hs[k].items.update(
                        j,
                        (ItemV {
                            id: hs[k].items[j].id,
                            events: hs[k].items[j].events.push(ev),
                        }),
                    ),
                }),
            )
        }),
    ensures
        ({
            let k = idx_of(hs, rid);
            let j = item_idx_of(hs[k].items, iid);
            &&& hs2[k].items[j].events.len() == hs[k].items[j].events.len() + 1
            &&& forall|x: int|
                0 <= x < hs[k].items[j].events.len() ==> hs2[k].items[j].events[x]
                    == hs[k].items[j].events[x]
            &&& hs2[k].items[j].events.last() == ev
            &&& forall|a: int| 0 <= a < hs.len() && a != k ==> hs2[a] == hs[a]
            &&& forall|b: int|
                0 <= b < hs[k].items.len() && b != j ==> hs2[k].items[b] == hs[k].items[b]
        }),
{
    let k = idx_of(hs, rid);
    assert(0 <= k < hs.len() && hs[k].record.id == rid);
    let j = item_idx_of(hs[k].items, iid);
    assert(0 <= j < hs[k].items.len() && hs[k].items[j].id == iid);
}

/// Whether saving this record succeeds: it always does, unless the
/// stored holder's copy id space is exhausted.
pub open spec fn add_ok_spec(hs: Seq<ItemHolderV>, rec: RecordV) -> bool {
    !contains_id_spec(hs, rec.id) || hs[idx_of(hs, rec.id)].next_copy_id() <= i64::MAX
}

/// A fresh copy created at the given time.
pub open spec fn new_item_at(id: int, ts: int) -> ItemV {
    ItemV {
        id,
        events: seq![
            crate::item_holder::ItemEventV {
                date: ts,
                event_type: crate::item_holder::ItemEventType::Created,
                message: None,
            },
        ],
    }
}

/// The holder that `add` returns when it succeeds at the given time.
pub open spec fn add_holder_spec(hs: Seq<ItemHolderV>, rec: RecordV, ts: int) -> ItemHolderV {
    if !contains_id_spec(hs, rec.id) {
        ItemHolderV { record: rec, items: seq![new_item_at(0, ts)] }
    } else {
        let h = hs[idx_of(hs, rec.id)];
        ItemHolderV { record: h.record, items: h.items.push(new_item_at(h.next_copy_id(), ts)) }
    }
}

/// The collection after a successful `add` at the given time.
pub open spec fn add_db_spec(hs: Seq<ItemHolderV>, rec: RecordV, ts: int) -> Seq<ItemHolderV> {
    if !contains_id_spec(hs, rec.id) {
        hs.push(add_holder_spec(hs, rec, ts))
    } else {
        hs.update(idx_of(hs, rec.id), add_holder_spec(hs, rec, ts))
    }
}

/// Whether `update_item` succeeds: the holder and the copy both exist.
pub open spec fn update_item_ok_spec(hs: Seq<ItemHolderV>, rid: int, iid: int) -> bool {
    contains_id_spec(hs, rid) && contains_item_id(hs[idx_of(hs, rid)].items, iid)
}

/// The collection after a successful `update_item`: the matched copy's
/// event log replaced, all else unchanged.
pub open spec fn update_item_db_spec(hs: Seq<ItemHolderV>, rid: int, iv: ItemV) -> Seq<
    ItemHolderV,
> {
    let k = idx_of(hs, rid);
    let j = item_idx_of(hs[k].items, iv.id);
    hs.update(
        k,
        (ItemHolderV {
            record: hs[k].record,
            items: hs[k].items.update(j, (ItemV { id: hs[k].items[j].id, events: iv.events })),
        }),
    )
}

/// The collection after `remove_holder_item`: the copy at the position
/// removed if the holder exists and the position is in range, else
/// unchanged.
pub open spec fn remove_item_db_spec(hs: Seq<ItemHolderV>, rid: int, idx: int) -> Seq<
    ItemHolderV,
> {
    if contains_id_spec(hs, rid) && 0 <= idx < hs[idx_of(hs, rid)].items.len() {
        hs.update(
            idx_of(hs, rid),
            (ItemHolderV {
                record: hs[idx_of(hs, rid)].record,
                items: hs[idx_of(hs, rid)].items.remove(idx),
            }),
        )
    } else {
        hs
    }
}

/// The collection after `remove_holder`: the matched holder removed,
/// else unchanged.
pub open spec fn remove_holder_db_spec(hs: Seq<ItemHolderV>, rid: int) -> Seq<ItemHolderV> {
    if contains_id_spec(hs, rid) {
        hs.remove(idx_of(hs, rid))
    } else {
        hs
    }
}

} // verus!
