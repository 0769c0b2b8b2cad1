//! The records of an oracle in the order of their indices.

use std::collections::BTreeMap;

use vstd::prelude::*;

use crate::state::ChunkRecord;

verus! {

/// Whether `list` holds each record once, in the order of the indices.
pub open spec fn is_listing(list: Seq<ChunkRecord>, chunks: Map<u64, ChunkRecord>) -> bool {
    &&& forall|i: int, j: int| 0 <= i < j < list.len() ==> list[i].index < list[j].index
    &&& forall|i: int|
        #![trigger list[i]]
        0 <= i < list.len() ==> chunks.contains_key(list[i].addr) && chunks[list[i].addr] == list[i]
    &&& forall|addr: u64| #[trigger] chunks.contains_key(addr) ==> list.contains(chunks[addr])
}

/// The records in the order of their indices.
pub open spec fn by_index(chunks: Map<u64, ChunkRecord>) -> Seq<ChunkRecord> {
    choose|list: Seq<ChunkRecord>| is_listing(list, chunks)
}

/// Whether each record stands under its own address.
pub open spec fn keyed(chunks: Map<u64, ChunkRecord>) -> bool {
    forall|addr: u64| #[trigger] chunks.contains_key(addr) ==> chunks[addr].addr == addr
}

/// Whether no two records have the same index.
pub open spec fn distinct(chunks: Map<u64, ChunkRecord>) -> bool {
    forall|a: u64, b: u64|
        #![trigger chunks[a], chunks[b]]
        chunks.contains_key(a) && chunks.contains_key(b) && a != b ==> chunks[a].index
            != chunks[b].index
}

/// There is only one listing.
proof fn lemma_listing_unique(
    a: Seq<ChunkRecord>,
    b: Seq<ChunkRecord>,
    chunks: Map<u64, ChunkRecord>,
)
    requires
        keyed(chunks),
        is_listing(a, chunks),
        is_listing(b, chunks),
    ensures
        a == b,
    decreases a.len(),
{
    if a.len() == 0 {
        if b.len() > 0 {
            assert(a.contains(chunks[b[0].addr]));
        }
        assert(a =~= b);
    } else {
        let x = a.last();
        assert(chunks.contains_key(x.addr));
        assert(b.contains(x));
        let y = b.last();
        assert(chunks.contains_key(y.addr));
        assert(a.contains(y));
        let k = choose|k: int| 0 <= k < a.len() && a[k] == y;
        let j = choose|j: int| 0 <= j < b.len() && b[j] == x;
        assert(k == a.len() - 1) by {
            if k < a.len() - 1 {
                assert(a[k].index < a[a.len() - 1].index);
                if j < b.len() - 1 {
                    assert(b[j].index < b[b.len() - 1].index);
                }
            }
        }
        assert(x == y);
        let rest = chunks.remove(x.addr);
        lemma_listing_shorter(a, chunks);
        lemma_listing_shorter(b, chunks);
        lemma_listing_unique(a.drop_last(), b.drop_last(), rest);
        assert(a =~= a.drop_last().push(x));
        assert(b =~= b.drop_last().push(x));
    }
}

/// A listing without its last record lists the other records.
proof fn lemma_listing_shorter(list: Seq<ChunkRecord>, chunks: Map<u64, ChunkRecord>)
    requires
        keyed(chunks),
        is_listing(list, chunks),
        list.len() > 0,
    ensures
        is_listing(list.drop_last(), chunks.remove(list.last().addr)),
{
    let x = list.last();
    let rest = chunks.remove(x.addr);
    let shorter = list.drop_last();
    assert forall|i: int| #![trigger shorter[i]] 0 <= i < shorter.len() implies rest.contains_key(
        shorter[i].addr,
    ) && rest[shorter[i].addr] == shorter[i] by {
        assert(shorter[i] == list[i]);
        assert(list[i].index < list[list.len() - 1].index);
    }
    assert forall|addr: u64| #[trigger] rest.contains_key(addr) implies shorter.contains(
        rest[addr],
    ) by {
        assert(chunks.contains_key(addr));
        let i = choose|i: int| 0 <= i < list.len() && list[i] == chunks[addr];
        assert(i < list.len() - 1);
        assert(shorter[i] == rest[addr]);
    }
}

/// A listing with one more record at its place lists that record too.
proof fn lemma_listing_insert(
    list: Seq<ChunkRecord>,
    chunks: Map<u64, ChunkRecord>,
    record: ChunkRecord,
    at: int,
)
    requires
        is_listing(list, chunks),
        !chunks.contains_key(record.addr),
        0 <= at <= list.len(),
        forall|i: int| 0 <= i < at ==> list[i].index < record.index,
        forall|i: int| at <= i < list.len() ==> list[i].index > record.index,
    ensures
        is_listing(list.insert(at, record), chunks.insert(record.addr, record)),
{
    let longer = list.insert(at, record);
    let more = chunks.insert(record.addr, record);
    assert forall|addr: u64| #[trigger] more.contains_key(addr) implies longer.contains(
        more[addr],
    ) by {
        if addr == record.addr {
            assert(longer[at] == record);
        } else {
            assert(chunks.contains_key(addr));
            let i = choose|i: int| 0 <= i < list.len() && list[i] == chunks[addr];
            if i < at {
                assert(longer[i] == list[i]);
            } else {
                assert(longer[i + 1] == list[i]);
            }
        }
    }
    assert forall|i: int, j: int| 0 <= i < j < longer.len() implies longer[i].index
        < longer[j].index by {
        assert(longer[i] == if i < at { list[i] } else if i == at { record } else { list[i - 1] });
        assert(longer[j] == if j < at { list[j] } else if j == at { record } else { list[j - 1] });
    }
}

/// The place of an index that no record of an ordered list has.
proof fn lemma_place(list: Seq<ChunkRecord>, index: usize) -> (at: int)
    requires
        forall|i: int, j: int| 0 <= i < j < list.len() ==> list[i].index < list[j].index,
        forall|i: int| 0 <= i < list.len() ==> (#[trigger] list[i]).index != index,
    ensures
        0 <= at <= list.len(),
        forall|i: int| 0 <= i < at ==> list[i].index < index,
        forall|i: int| at <= i < list.len() ==> list[i].index > index,
    decreases list.len(),
{
    if list.len() == 0 || list.last().index < index {
        list.len() as int
    } else {
        let front = list.drop_last();
        assert forall|i: int| 0 <= i < front.len() implies (#[trigger] front[i]).index != index by {
            assert(front[i] == list[i]);
        }
        let at = lemma_place(front, index);
        assert forall|i: int| 0 <= i < at implies list[i].index < index by {
            assert(list[i] == front[i]);
        }
        assert forall|i: int| at <= i < list.len() implies list[i].index > index by {
            if i < front.len() {
                assert(list[i] == front[i]);
            }
        }
        at
    }
}

/// A listing of a map.
proof fn lemma_listing_exists(chunks: Map<u64, ChunkRecord>) -> (list: Seq<ChunkRecord>)
    requires
        chunks.dom().finite(),
        keyed(chunks),
        distinct(chunks),
    ensures
        is_listing(list, chunks),
    decreases chunks.dom().len(),
{
    if chunks.dom().len() == 0 {
        assert(chunks.dom() =~= Set::empty());
        assert forall|addr: u64| !#[trigger] chunks.contains_key(addr) by {
            assert(!chunks.dom().contains(addr));
        }
        Seq::empty()
    } else {
        let addr = chunks.dom().choose();
        let record = chunks[addr];
        let rest = chunks.remove(addr);
        let list = lemma_listing_exists(rest);
        assert forall|i: int| 0 <= i < list.len() implies (#[trigger] list[i]).index
            != record.index by {
            assert(rest.contains_key(list[i].addr));
            assert(chunks[list[i].addr].index != chunks[addr].index);
        }
        let at = lemma_place(list, record.index);
        lemma_listing_insert(list, rest, record, at);
        assert(rest.insert(record.addr, record) =~= chunks);
        list.insert(at, record)
    }
}

/// Records that stand under their own addresses and have different indices can be put
/// in the order of their indices, in one way only.
pub proof fn law_by_index(chunks: Map<u64, ChunkRecord>)
    requires
        chunks.dom().finite(),
        keyed(chunks),
        distinct(chunks),
    ensures
        is_listing(by_index(chunks), chunks),
        forall|list: Seq<ChunkRecord>| is_listing(list, chunks) ==> list == by_index(chunks),
{
    let list = lemma_listing_exists(chunks);
    assert(is_listing(by_index(chunks), chunks));
    assert forall|other: Seq<ChunkRecord>| is_listing(other, chunks) implies other == by_index(
        chunks,
    ) by {
        lemma_listing_unique(other, by_index(chunks), chunks);
    }
}

/// In the order of the indices every record stands once, each before those with a
/// larger index.
pub proof fn law_in_order(chunks: Map<u64, ChunkRecord>)
    requires
        chunks.dom().finite(),
        keyed(chunks),
        distinct(chunks),
    ensures
        ({
            let list = by_index(chunks);
            &&& list.len() == chunks.dom().len()
            &&& forall|i: int, j: int| 0 <= i < j < list.len() ==> list[i].index < list[j].index
            &&& forall|addr: u64|
                chunks.contains_key(addr) <==> exists|i: int|
                    0 <= i < list.len() && #[trigger] list[i] == chunks[addr] && list[i].addr
                        == addr
        }),
{
    law_by_index(chunks);
    let list = by_index(chunks);
    lemma_listing_len(list, chunks);
    assert forall|addr: u64| chunks.contains_key(addr) implies exists|i: int|
        0 <= i < list.len() && #[trigger] list[i] == chunks[addr] && list[i].addr == addr by {
        let i = choose|i: int| 0 <= i < list.len() && list[i] == chunks[addr];
        assert(list[i].addr == addr);
    }
}

proof fn lemma_listing_len(list: Seq<ChunkRecord>, chunks: Map<u64, ChunkRecord>)
    requires
        chunks.dom().finite(),
        keyed(chunks),
        is_listing(list, chunks),
    ensures
        list.len() == chunks.dom().len(),
    decreases list.len(),
{
    if list.len() == 0 {
        assert forall|addr: u64| !chunks.dom().contains(addr) by {
            if chunks.contains_key(addr) {
                assert(list.contains(chunks[addr]));
            }
        }
        assert(chunks.dom() =~= Set::empty());
    } else {
        let addr = list.last().addr;
        assert(chunks.contains_key(addr));
        lemma_listing_shorter(list, chunks);
        lemma_listing_len(list.drop_last(), chunks.remove(addr));
    }
}

/// The addresses of the records, by index.
fn addresses_by_index(chunks: &BTreeMap<u64, ChunkRecord>) -> (order: BTreeMap<usize, u64>)
    requires
        distinct(chunks@),
    ensures
        forall|index: usize| #[trigger]
            order@.contains_key(index) ==> chunks@.contains_key(order@[index])
                && chunks@[order@[index]].index == index,
        forall|addr: u64| #[trigger]
            chunks@.contains_key(addr) ==> order@.contains_key(chunks@[addr].index)
                && order@[chunks@[addr].index] == addr,
{
    let mut order: BTreeMap<usize, u64> = BTreeMap::new();
    for entry in entries: chunks.iter()
        invariant
            distinct(chunks@),
            forall|i: int|
                0 <= i < entries.seq().len() ==> chunks@.contains_key(*entries.seq()[i].0)
                    && chunks@[*entries.seq()[i].0] == *(#[trigger] entries.seq()[i]).1,
            forall|addr: u64| #[trigger]
                chunks@.contains_key(addr) ==> entries.seq().contains((&addr, &chunks@[addr])),
            forall|index: usize| #[trigger]
                order@.contains_key(index) ==> chunks@.contains_key(order@[index])
                    && chunks@[order@[index]].index == index,
            forall|i: int|
                0 <= i < entries.index() ==> order@.contains_key(
                    (#[trigger] entries.seq()[i]).1.index,
                ),
    {
        assert(entries.seq()[entries.index() as int] == entry);
        order.insert(entry.1.index, *entry.0);
    }
    proof {
        assert forall|addr: u64| #[trigger] chunks@.contains_key(addr) implies order@.contains_key(
            chunks@[addr].index,
        ) && order@[chunks@[addr].index] == addr by {
            let index = chunks@[addr].index;
            assert(order@.contains_key(index));
            if order@[index] != addr {
                assert(chunks@[order@[index]].index != chunks@[addr].index);
            }
        }
    }
    order
}

/// Keys in the order of a map go up.
proof fn lemma_keys_go_up(keys: Seq<usize>)
    requires
        vstd::std_specs::btree::increasing_seq(keys),
    ensures
        forall|i: int, j: int| 0 <= i < j < keys.len() ==> keys[i] < keys[j],
{
    assert forall|i: int, j: int| 0 <= i < j < keys.len() implies keys[i] < keys[j] by {
        assert(vstd::std_specs::cmp::OrdSpec::cmp_spec(&keys[i], &keys[j]) is Less);
    }
}

/// The records of a map, in the order of their indices.
pub fn records_by_index(chunks: &BTreeMap<u64, ChunkRecord>) -> (list: Vec<&ChunkRecord>)
    requires
        keyed(chunks@),
        distinct(chunks@),
    ensures
        is_listing(list@.unref(), chunks@),
        list@.unref() == by_index(chunks@),
{
    let order = addresses_by_index(chunks);
    let mut list: Vec<&ChunkRecord> = Vec::new();
    for entry in places: order.iter()
        invariant
            vstd::std_specs::btree::increasing_seq(
                places.seq().map_values(|place: (&usize, &u64)| *place.0),
            ),
            forall|index: usize| #[trigger]
                order@.contains_key(index) ==> chunks@.contains_key(order@[index])
                    && chunks@[order@[index]].index == index,
            forall|i: int|
                0 <= i < places.seq().len() ==> order@.contains_key(*places.seq()[i].0)
                    && order@[*places.seq()[i].0] == *(#[trigger] places.seq()[i]).1,
            forall|index: usize| #[trigger]
                order@.contains_key(index) ==> places.seq().contains((&index, &order@[index])),
            keyed(chunks@),
            list@.len() == places.index(),
            forall|i: int|
                0 <= i < list@.len() ==> list@.unref()[i] == chunks@[*(
                #[trigger] places.seq()[i]).1],
            forall|i: int, j: int|
                0 <= i < j < list@.len() ==> list@.unref()[i].index < list@.unref()[j].index,
            forall|i: int|
                #![trigger list@.unref()[i]]
                0 <= i < list@.len() ==> chunks@.contains_key(list@.unref()[i].addr)
                    && chunks@[list@.unref()[i].addr] == list@.unref()[i],
    {
        let ghost k = places.index() as int;
        let ghost before = list@.unref();
        assert(places.seq()[k] == entry);
        if let Some(record) = chunks.get(entry.1) {
            list.push(record);
            proof {
                let keys = places.seq().map_values(|place: (&usize, &u64)| *place.0);
                lemma_keys_go_up(keys);
                assert(list@.unref() =~= before.push(*record));
                assert forall|i: int| 0 <= i < k implies before[i].index < record.index by {
                    assert(keys[i] < keys[k]);
                    assert(order@.contains_key(*places.seq()[i].0));
                }
            }
        }
    }
    proof {
        let listed = list@.unref();
        assert forall|addr: u64| #[trigger] chunks@.contains_key(addr) implies listed.contains(
            chunks@[addr],
        ) by {
            assert(order@.contains_key(chunks@[addr].index));
        }
        lemma_listing_unique(listed, by_index(chunks@), chunks@);
    }
    list
}

} // verus!
