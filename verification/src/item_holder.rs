//! One stored catalog entry together with the physical copies owned of
//! it, and the append-only event log that tracks each copy's lifecycle.
use vstd::prelude::*;

use crate::list::StatefulList;
use crate::record::{Record, RecordV};

verus! {

/// The kind of one lifecycle fact about a copy. The set is closed:
/// a copy is created, lent out, or annotated with a free-text message.
#[derive(Clone, Copy, Debug, PartialEq, Eq, Structural)]
pub enum ItemEventType {
    Created,
    Message,
    Lent,
}

/// One lifecycle fact about a copy: when it happened (whole seconds
/// since the Unix epoch), what kind of fact it is, and an optional
/// free-text payload (absent for `Created`).
#[derive(Debug, PartialEq)]
pub struct ItemEvent {
    pub date: i64,
    pub event_type: ItemEventType,
    pub message: Option<String>,
}

/// One physical copy of a held catalog entry: an id unique within its
/// holder and the ordered, append-only log of its lifecycle events.
#[derive(Debug, PartialEq)]
pub struct Item {
    pub id: i64,
    pub events: Vec<ItemEvent>,
}

/// One entry of the catalog store: a record plus the copies owned of it.
#[derive(Debug, PartialEq)]
pub struct ItemHolder {
    pub record: Record,
    pub items: Vec<Item>,
}

/// A copy as shown on screen: the copy itself plus the kind of event a
/// side modal is about to append to it, if one is open.
#[derive(Debug, PartialEq)]
pub struct StatefulItem {
    pub item: Item,
    pub input: Option<ItemEventType>,
}

/// A holder as shown on screen: its record, a cursor over its copies,
/// and the scroll offset into the record's detail text.
pub struct StatefulItemHolder {
    pub record: Record,
    pub detail_offset: usize,
    pub list: StatefulList<StatefulItem>,
}

#[verifier::ext_equal]
pub struct ItemEventV {
    pub date: int,
    pub event_type: ItemEventType,
    pub message: Option<Seq<char>>,
}

#[verifier::ext_equal]
pub struct ItemV {
    pub id: int,
    pub events: Seq<ItemEventV>,
}

#[verifier::ext_equal]
pub struct ItemHolderV {
    pub record: RecordV,
    pub items: Seq<ItemV>,
}

impl DeepView for ItemEvent {
    type V = ItemEventV;

    open spec fn deep_view(&self) -> ItemEventV {
        ItemEventV {
            date: self.date as int,
            event_type: self.event_type,
            message: match self.message {
                None => None,
                Some(m) => Some(m@),
            },
        }
    }
}

impl DeepView for Item {
    type V = ItemV;

    open spec fn deep_view(&self) -> ItemV {
        ItemV { id: self.id as int, events: self.events.deep_view() }
    }
}

impl DeepView for ItemHolder {
    type V = ItemHolderV;

    open spec fn deep_view(&self) -> ItemHolderV {
        ItemHolderV { record: self.record.deep_view(), items: self.items.deep_view() }
    }
}

impl ItemHolderV {
    /// Copy ids grow strictly along the list, so each id appears at most
    /// once within its holder and the last id is the largest.
    pub open spec fn wf(self) -> bool {
        &&& forall|i: int, j: int|
            0 <= i < j < self.items.len() ==> self.items[i].id < self.items[j].id
        &&& forall|i: int| 0 <= i < self.items.len() ==> 0 <= #[trigger] self.items[i].id
    }

    /// The id a copy appended now would get: one past the largest id,
    /// or 0 for the first copy.
    pub open spec fn next_copy_id(self) -> int {
        if self.items.len() == 0 {
            0
        } else {
            self.items.last().id + 1
        }
    }
}

/// A freshly created copy: the given id and a log holding exactly one
/// `Created` event without payload.
pub open spec fn is_new_item(v: ItemV, id: int) -> bool {
    &&& v.id == id
    &&& v.events.len() == 1
    &&& v.events[0].event_type == ItemEventType::Created
    &&& v.events[0].message is None
}

/// Relies on chrono's `From<SystemTime>` for `DateTime<Utc>` and
/// `DateTime::timestamp`: the system clock, read as whole seconds since
/// the Unix epoch, negative for a clock set before it. Nothing is
/// promised of the value; it depends on the machine's clock.
#[verifier::external_body]
fn now_seconds() -> i64 {
    chrono::DateTime::<chrono::Utc>::from(std::time::SystemTime::now()).timestamp()
}

impl ItemEvent {
    /// A fact of the given kind happening now, without payload.
    pub fn new(event_type: ItemEventType) -> (r: ItemEvent)
        ensures
            r.event_type == event_type,
            r.message is None,
    {
        ItemEvent { date: now_seconds(), event_type, message: None }
    }

    /// A fact of the given kind happening now, carrying a payload.
    pub fn with_message(event_type: ItemEventType, message: String) -> (r: ItemEvent)
        ensures
            r.event_type == event_type,
            r.message matches Some(m) && m@ == message@,
    {
        ItemEvent { date: now_seconds(), event_type, message: Some(message) }
    }

    /// An element-wise copy whose view equals this one's.
    pub fn duplicate(&self) -> (r: ItemEvent)
        ensures
            r.deep_view() == self.deep_view(),
    {
        ItemEvent {
            date: self.date,
            event_type: self.event_type,
            message: match &self.message {
                None => None,
                Some(m) => Some(m.clone()),
            },
        }
    }
}

impl Item {
    /// A fresh copy under the given id, its log opened with one
    /// `Created` event dated now.
    pub fn new_with_id(id: i64) -> (r: Item)
        ensures
            is_new_item(r.deep_view(), id as int),
    {
        let mut events: Vec<ItemEvent> = Vec::new();
        events.push(ItemEvent::new(ItemEventType::Created));
        Item { id, events }
    }

    /// The copy as a fresh on-screen value, with no side modal pending.
    pub fn to_stateful(self) -> (r: StatefulItem)
        ensures
            r.item == self,
            r.input is None,
    {
        StatefulItem { item: self, input: None }
    }

    /// An element-wise copy whose view equals this one's.
    pub fn duplicate(&self) -> (r: Item)
        ensures
            r.deep_view() == self.deep_view(),
    {
        let r = Item { id: self.id, events: duplicate_events(&self.events) };
        proof {
            assert(r.deep_view() =~= self.deep_view());
        }
        r
    }
}

fn duplicate_events(es: &Vec<ItemEvent>) -> (r: Vec<ItemEvent>)
    ensures
        r.deep_view() =~= es.deep_view(),
{
    let mut out: Vec<ItemEvent> = Vec::new();
    let mut i: usize = 0;
    while i < es.len()
        invariant
            i <= es.len(),
            out.len() == i,
            forall|j: int| 0 <= j < i ==> out.deep_view()[j] == es.deep_view()[j],
        decreases es.len() - i,
    {
        out.push(es[i].duplicate());
        i += 1;
    }
    out
}

fn duplicate_items(is: &Vec<Item>) -> (r: Vec<Item>)
    ensures
        r.deep_view() =~= is.deep_view(),
{
    let mut out: Vec<Item> = Vec::new();
    let mut i: usize = 0;
    while i < is.len()
        invariant
            i <= is.len(),
            out.len() == i,
            forall|j: int| 0 <= j < i ==> out.deep_view()[j] == is.deep_view()[j],
        decreases is.len() - i,
    {
        out.push(is[i].duplicate());
        i += 1;
    }
    out
}

fn items_to_stateful(is: &Vec<Item>) -> (r: Vec<StatefulItem>)
    ensures
        r@.len() == is.deep_view().len(),
        forall|j: int|
            0 <= j < r@.len() ==> {
                &&& (#[trigger] r@[j]).item.deep_view() == is.deep_view()[j]
                &&& r@[j].input is None
            },
{
    let mut out: Vec<StatefulItem> = Vec::new();
    let mut i: usize = 0;
    while i < is.len()
        invariant
            i <= is.len(),
            out.len() == i,
            forall|j: int|
                0 <= j < i ==> {
                    &&& (#[trigger] out@[j]).item.deep_view() == is.deep_view()[j]
                    &&& out@[j].input is None
                },
        decreases is.len() - i,
    {
        out.push(is[i].duplicate().to_stateful());
        i += 1;
    }
    out
}

impl ItemHolder {
    /// A holder of the given record owning no copies yet.
    pub fn new(record: Record) -> (r: ItemHolder)
        ensures
            r.deep_view().record == record.deep_view(),
            r.deep_view().items =~= Seq::<ItemV>::empty(),
            r.deep_view().wf(),
    {
        ItemHolder { record, items: Vec::new() }
    }

    /// A holder of the given record owning exactly one fresh copy,
    /// under copy id 0.
    pub fn new_with_item(record: Record) -> (r: ItemHolder)
        ensures
            r.deep_view().record == record.deep_view(),
            r.deep_view().items.len() == 1,
            is_new_item(r.deep_view().items[0], 0),
            r.deep_view().wf(),
    {
        let mut items: Vec<Item> = Vec::new();
        items.push(Item::new_with_id(0));
        ItemHolder { record, items }
    }

    /// Append one fresh copy, its id one past the largest id held, or 0
    /// when no copy is held.
    pub fn add_item(&mut self)
        requires
            old(self).deep_view().wf(),
            old(self).deep_view().next_copy_id() <= i64::MAX,
        ensures
            final(self).deep_view().record == old(self).deep_view().record,
            final(self).deep_view().items.len() == old(self).deep_view().items.len() + 1,
            final(self).deep_view().items.drop_last() =~= old(self).deep_view().items,
            is_new_item(
                final(self).deep_view().items.last(),
                old(self).deep_view().next_copy_id(),
            ),
            final(self).deep_view().wf(),
    {
        let next_id: i64 = if self.items.len() == 0 {
            0
        } else {
            let ghost hv = self.deep_view();
            let last = &self.items[self.items.len() - 1];
            proof {
                assert(hv.items.last() == self.items@.last().deep_view());
            }
            last.id + 1
        };
        let fresh = Item::new_with_id(next_id);
        let ghost freshv = fresh.deep_view();
        self.items.push(fresh);
        proof {
            let oldv = old(self).deep_view();
            let newv = self.deep_view();
            assert(newv.items =~= oldv.items.push(freshv));
            assert forall|i: int, j: int|
                0 <= i < j < newv.items.len() implies newv.items[i].id < newv.items[j].id by {
                if j < oldv.items.len() {
                } else {
                    assert(newv.items[j] == freshv);
                    if i < oldv.items.len() - 1 {
                        assert(oldv.items[i].id < oldv.items[oldv.items.len() - 1].id);
                    }
                }
            }
        }
    }

    /// The holder as a fresh on-screen value: same record and copies,
    /// nothing selected, detail text scrolled to the top.
    pub fn to_stateful(self) -> (r: StatefulItemHolder)
        ensures
            r.record.deep_view() == self.deep_view().record,
            r.detail_offset == 0,
            r.list.state is None,
            r.list.items@.len() == self.deep_view().items.len(),
            forall|i: int|
                0 <= i < r.list.items@.len() ==> {
                    &&& (#[trigger] r.list.items@[i]).item.deep_view()
                        == self.deep_view().items[i]
                    &&& r.list.items@[i].input is None
                },
    {
        let stateful = items_to_stateful(&self.items);
        StatefulItemHolder {
            record: self.record,
            detail_offset: 0,
            list: StatefulList::with_items(stateful),
        }
    }

    /// An element-wise copy whose view equals this one's.
    pub fn duplicate(&self) -> (r: ItemHolder)
        ensures
            r.deep_view() == self.deep_view(),
    {
        let r = ItemHolder { record: self.record.duplicate(), items: duplicate_items(&self.items) };
        proof {
            assert(r.deep_view() =~= self.deep_view());
        }
        r
    }
}

#[verifier::ext_equal]
pub struct StatefulItemV {
    pub item: ItemV,
    pub input: Option<ItemEventType>,
}

#[verifier::ext_equal]
pub struct StatefulItemHolderV {
    pub record: RecordV,
    pub detail_offset: int,
    pub state: Option<usize>,
    pub items: Seq<StatefulItemV>,
}

impl DeepView for StatefulItem {
    type V = StatefulItemV;

    open spec fn deep_view(&self) -> StatefulItemV {
        StatefulItemV { item: self.item.deep_view(), input: self.input }
    }
}

impl DeepView for StatefulItemHolder {
    type V = StatefulItemHolderV;

    open spec fn deep_view(&self) -> StatefulItemHolderV {
        StatefulItemHolderV {
            record: self.record.deep_view(),
            detail_offset: self.detail_offset as int,
            state: self.list.state,
            items: self.list.items.deep_view(),
        }
    }
}

/// A holder as it first appears on screen: nothing selected, detail
/// text at the top, no side modal pending on any copy.
pub open spec fn fresh_stateful(h: ItemHolderV) -> StatefulItemHolderV {
    StatefulItemHolderV {
        record: h.record,
        detail_offset: 0,
        state: None,
        items: h.items.map_values(|iv: ItemV| StatefulItemV { item: iv, input: None }),
    }
}

} // verus!
