//! What holds of a mission dataset as a whole: where its data come from, and
//! what merging makes of the vehicles' settings.

use vstd::prelude::*;

use crate::blocks::{citation_order, lemma_citation_order, BlockRef, CitationView};
use crate::dataset::{
    agreed, cited_blocks, journal_fold, last_leaf, leaf_keys, lemma_last_leaf_concat, line_value,
    listed_keys, marked, marked_citations, merged, merged_upto, record_vehicles, section_citations,
    settled, side_key, sides, time_key, value_for, DatumView, Gathered, LeafView, RecordView,
};
use crate::sorting::{
    distinct_items_rise, in_order, rising, sorted_by, sorting_is_stable, sorting_orders, with_key,
};
use crate::text_map::{increasing, lemma_before_total, sorted_texts, sorted_texts_hold_each_once,
    text_before};

verus! {

/// A torn line adds nothing and takes nothing away.
pub proof fn torn_lines_are_skipped(
    g: Gathered,
    block: int,
    lines: Seq<Seq<u8>>,
    torn: Seq<u8>,
)
    requires
        line_value(torn) is None,
    ensures
        journal_fold(g, block, lines.push(torn), lines.len() + 1) == journal_fold(
            g,
            block,
            lines,
            lines.len(),
        ),
{
    lemma_fold_prefix(g, block, lines, torn, lines.len());
}

proof fn lemma_fold_prefix(
    g: Gathered,
    block: int,
    lines: Seq<Seq<u8>>,
    more: Seq<u8>,
    n: nat,
)
    requires
        n <= lines.len(),
    ensures
        journal_fold(g, block, lines.push(more), n) == journal_fold(g, block, lines, n),
    decreases n,
{
    if n > 0 {
        lemma_fold_prefix(g, block, lines, more, (n - 1) as nat);
        assert(lines.push(more)[n - 1] == lines[n - 1]);
    }
}

/// Finishing a dataset puts its data in time order, loses none, and leaves the
/// data of one instant in the order they came in.
pub proof fn finished_data_are_in_time_order(data: Seq<DatumView>, t: int)
    ensures
        in_order(sorted_by(data, time_key()), time_key()),
        sorted_by(data, time_key()).to_multiset() == data.to_multiset(),
        with_key(sorted_by(data, time_key()), time_key(), t) == with_key(data, time_key(), t),
{
    sorting_orders(data, time_key());
    sorting_is_stable(data, time_key(), t);
}

/// A section cites the Blocks of the data it draws on and no others, each once
/// and in the order of citations; and nothing outside the provenance of the
/// whole artifact.
pub proof fn sections_cite_what_they_draw_on(
    blocks: Seq<BlockRef>,
    data: Seq<DatumView>,
    flags: Seq<bool>,
)
    requires
        flags.len() == data.len(),
        forall|i: int| 0 <= i < data.len() ==> 0 <= (#[trigger] data[i]).block < blocks.len(),
    ensures
        rising(section_citations(blocks, data, flags), citation_order()),
        forall|c: CitationView| #[trigger]
            section_citations(blocks, data, flags).contains(c) <==> exists|i: int|
                0 <= i < data.len() && #[trigger] flags[i] && c == blocks[data[i].block].cited(),
        forall|c: CitationView| #[trigger]
            section_citations(blocks, data, flags).contains(c) ==> cited_blocks(blocks).contains(c),
{
    let m = marked_citations(blocks, data, flags, blocks.len());
    let all = blocks.map_values(|b: BlockRef| b.cited());
    lemma_citation_order();
    distinct_items_rise(m, citation_order());
    distinct_items_rise(all, citation_order());
    assert forall|c: CitationView| #[trigger]
        section_citations(blocks, data, flags).contains(c) <==> exists|i: int|
            0 <= i < data.len() && #[trigger] flags[i] && c == blocks[data[i].block].cited() by {
        if m.contains(c) {
            let k = choose|k: int| 0 <= k < m.len() && m[k] == c;
            lemma_marked_from(blocks, data, flags, blocks.len(), k);
            let b = choose|b: int|
                0 <= b < blocks.len() && marked(data, flags, b) && #[trigger] blocks[b].cited()
                    == m[k];
            let i = choose|i: int|
                0 <= i < data.len() && #[trigger] flags[i] && data[i].block == b;
            assert(flags[i]);
        }
        if exists|i: int|
            0 <= i < data.len() && #[trigger] flags[i] && c == blocks[data[i].block].cited() {
            let i = choose|i: int|
                0 <= i < data.len() && #[trigger] flags[i] && c == blocks[data[i].block].cited();
            assert(marked(data, flags, data[i].block));
            lemma_marked_has(blocks, data, flags, blocks.len(), data[i].block);
        }
    }
    assert forall|c: CitationView| #[trigger]
        section_citations(blocks, data, flags).contains(c) implies cited_blocks(blocks).contains(
        c,
    ) by {
        let i = choose|i: int|
            0 <= i < data.len() && #[trigger] flags[i] && c == blocks[data[i].block].cited();
        assert(all[data[i].block] == c);
        assert(all.contains(c));
    }
}

proof fn lemma_marked_has(
    blocks: Seq<BlockRef>,
    data: Seq<DatumView>,
    flags: Seq<bool>,
    n: nat,
    b: int,
)
    requires
        n <= blocks.len(),
        0 <= b < n,
        marked(data, flags, b),
    ensures
        marked_citations(blocks, data, flags, n).contains(blocks[b].cited()),
    decreases n,
{
    let m = marked_citations(blocks, data, flags, n);
    if b == n - 1 {
        assert(m[m.len() - 1] == blocks[b].cited());
    } else {
        lemma_marked_has(blocks, data, flags, (n - 1) as nat, b);
        let before = marked_citations(blocks, data, flags, (n - 1) as nat);
        let k = choose|k: int| 0 <= k < before.len() && before[k] == blocks[b].cited();
        assert(m[k] == blocks[b].cited());
    }
}

proof fn lemma_marked_from(
    blocks: Seq<BlockRef>,
    data: Seq<DatumView>,
    flags: Seq<bool>,
    n: nat,
    k: int,
)
    requires
        n <= blocks.len(),
        0 <= k < marked_citations(blocks, data, flags, n).len(),
    ensures
        exists|b: int|
            0 <= b < blocks.len() && marked(data, flags, b) && #[trigger] blocks[b].cited()
                == marked_citations(blocks, data, flags, n)[k],
    decreases n,
{
    if n > 0 {
        let before = marked_citations(blocks, data, flags, (n - 1) as nat);
        if k < before.len() {
            lemma_marked_from(blocks, data, flags, (n - 1) as nat, k);
        } else {
            assert(blocks[n - 1].cited() == marked_citations(blocks, data, flags, n)[k]);
        }
    }
}

proof fn lemma_side_key_has_at(key: Seq<char>, vehicle: Seq<char>)
    ensures
        side_key(key, vehicle).contains('@'),
        side_key(key, vehicle)[key.len() as int] == '@',
        side_key(key, vehicle).len() == key.len() + 1 + vehicle.len(),
{
    reveal_strlit("@");
    assert(side_key(key, vehicle)[key.len() as int] == '@');
}

proof fn lemma_side_keys_differ(
    k1: Seq<char>,
    v1: Seq<char>,
    k2: Seq<char>,
    v2: Seq<char>,
)
    requires
        !k1.contains('@'),
        !k2.contains('@'),
        side_key(k1, v1) == side_key(k2, v2),
    ensures
        k1 == k2,
        v1 == v2,
{
    lemma_side_key_has_at(k1, v1);
    lemma_side_key_has_at(k2, v2);
    let s = side_key(k1, v1);
    if k1.len() < k2.len() {
        assert(k2[k1.len() as int] == s[k1.len() as int]);
    } else if k2.len() < k1.len() {
        assert(k1[k2.len() as int] == s[k2.len() as int]);
    }
    assert(k1 =~= s.take(k1.len() as int));
    assert(k2 =~= s.take(k2.len() as int));
    assert(v1 =~= s.skip((k1.len() + 1) as int));
    assert(v2 =~= s.skip((k2.len() + 1) as int));
}

proof fn lemma_sides_miss(
    records: Seq<RecordView>,
    vehicles: Seq<Seq<char>>,
    key: Seq<char>,
    n: nat,
    sought: Seq<char>,
)
    requires
        forall|i: int| 0 <= i < vehicles.len() ==> side_key(key, #[trigger] vehicles[i]) != sought,
    ensures
        last_leaf(sides(records, vehicles, key, n), sought) is None,
    decreases n,
{
    if n > 0 && n <= vehicles.len() {
        lemma_sides_miss(records, vehicles, key, (n - 1) as nat, sought);
        assert(side_key(key, vehicles[n - 1]) != sought);
        let before = sides(records, vehicles, key, (n - 1) as nat);
        match value_for(records, vehicles[n - 1], key) {
            Some(v) => {
                assert(before.push((side_key(key, vehicles[n - 1]), v)).drop_last() =~= before);
            },
            None => {},
        }
    }
}

proof fn lemma_sides_hit(
    records: Seq<RecordView>,
    vehicles: Seq<Seq<char>>,
    key: Seq<char>,
    n: nat,
    i: int,
)
    requires
        increasing(vehicles),
        0 <= i < n <= vehicles.len(),
        value_for(records, vehicles[i], key) is Some,
    ensures
        last_leaf(sides(records, vehicles, key, n), side_key(key, vehicles[i])) == value_for(
            records,
            vehicles[i],
            key,
        ),
    decreases n,
{
    let before = sides(records, vehicles, key, (n - 1) as nat);
    let sought = side_key(key, vehicles[i]);
    if i == n - 1 {
    } else {
        lemma_sides_hit(records, vehicles, key, (n - 1) as nat, i);
        assert(text_before(vehicles[i], vehicles[n - 1]));
        lemma_before_total(vehicles[i], vehicles[i]);
        if side_key(key, vehicles[n - 1]) == sought {
            let s = sought;
            reveal_strlit("@");
            assert(vehicles[i] =~= s.skip((key.len() + 1) as int));
            assert(vehicles[n - 1] =~= s.skip((key.len() + 1) as int));
        }
        match value_for(records, vehicles[n - 1], key) {
            Some(v) => {
                assert(before.push((side_key(key, vehicles[n - 1]), v)).drop_last() =~= before);
            },
            None => {},
        }
    }
}

/// If only the settings of one key can hold `sought`, they decide it.
proof fn lemma_merged_decides(
    records: Seq<RecordView>,
    vehicles: Seq<Seq<char>>,
    keys: Seq<Seq<char>>,
    n: nat,
    p: int,
    sought: Seq<char>,
)
    requires
        0 <= p < n <= keys.len(),
        last_leaf(settled(records, vehicles, keys[p]), sought) is Some,
        forall|i: int|
            0 <= i < keys.len() && i != p ==> last_leaf(
                settled(records, vehicles, #[trigger] keys[i]),
                sought,
            ) is None,
    ensures
        last_leaf(merged_upto(records, vehicles, keys, n), sought) == last_leaf(
            settled(records, vehicles, keys[p]),
            sought,
        ),
    decreases n,
{
    lemma_last_leaf_concat(
        merged_upto(records, vehicles, keys, (n - 1) as nat),
        settled(records, vehicles, keys[n - 1]),
        sought,
    );
    if p < n - 1 {
        assert(last_leaf(settled(records, vehicles, keys[n - 1]), sought) is None);
        lemma_merged_decides(records, vehicles, keys, (n - 1) as nat, p, sought);
    }
}

proof fn lemma_value_is_listed(records: Seq<RecordView>, vehicle: Seq<char>, key: Seq<char>)
    requires
        value_for(records, vehicle, key) is Some,
    ensures
        listed_keys(records).contains(key),
    decreases records.len(),
{
    let l = records.last().leaves;
    let front = listed_keys(records.drop_last());
    let all = listed_keys(records);
    if records.last().vehicle == vehicle && last_leaf(l, key) is Some {
        lemma_leaf_is_listed(l, key);
        let k = choose|k: int| 0 <= k < leaf_keys(l).len() && leaf_keys(l)[k] == key;
        assert(all[front.len() + k] == key);
    } else {
        lemma_value_is_listed(records.drop_last(), vehicle, key);
        let k = choose|k: int| 0 <= k < front.len() && front[k] == key;
        assert(all[k] == key);
    }
}

proof fn lemma_leaf_is_listed(l: Seq<LeafView>, key: Seq<char>)
    requires
        last_leaf(l, key) is Some,
    ensures
        leaf_keys(l).contains(key),
    decreases l.len(),
{
    if l.last().0 == key {
        assert(leaf_keys(l)[l.len() - 1] == key);
    } else {
        lemma_leaf_is_listed(l.drop_last(), key);
        let k = choose|k: int|
            0 <= k < leaf_keys(l.drop_last()).len() && leaf_keys(l.drop_last())[k] == key;
        assert(leaf_keys(l)[k] == key);
    }
}

proof fn lemma_no_agreed_side(
    records: Seq<RecordView>,
    vehicles: Seq<Seq<char>>,
    key: Seq<char>,
    sought: Seq<char>,
)
    requires
        key != sought,
        forall|i: int| 0 <= i < vehicles.len() ==> side_key(key, #[trigger] vehicles[i]) != sought,
    ensures
        last_leaf(settled(records, vehicles, key), sought) is None,
{
    lemma_sides_miss(records, vehicles, key, vehicles.len(), sought);
    let one = settled(records, vehicles, key);
    if agreed(records, vehicles, key) && vehicles.len() > 0 {
        assert(one.last().0 == key);
        assert(one.drop_last() =~= Seq::empty());
        assert(last_leaf(one.drop_last(), sought) is None);
    }
}

/// A setting that every vehicle declares with the same value is stored once,
/// under its own key. (Keys with `@` in them may be taken for one vehicle's
/// side of another key.)
pub proof fn agreeing_settings_collapse(records: Seq<RecordView>, key: Seq<char>)
    requires
        records.len() > 0,
        agreed(records, record_vehicles(records), key),
        !key.contains('@'),
    ensures
        last_leaf(merged(records), key) == value_for(records, record_vehicles(records)[0], key),
        value_for(records, record_vehicles(records)[0], key) is Some,
{
    let vehicles = record_vehicles(records);
    let all = records.map_values(|r: RecordView| r.vehicle);
    sorted_texts_hold_each_once(all);
    assert(all.contains(all[0]));
    assert(vehicles.contains(all[0]));
    assert(vehicles.len() > 0);
    assert(value_for(records, vehicles[0], key) is Some);
    lemma_value_is_listed(records, vehicles[0], key);
    let keys = sorted_texts(listed_keys(records));
    sorted_texts_hold_each_once(listed_keys(records));
    assert(keys.contains(key));
    let p = choose|p: int| 0 <= p < keys.len() && keys[p] == key;
    let one = settled(records, vehicles, key);
    assert(one.last().0 == key);
    assert forall|i: int| 0 <= i < keys.len() && i != p implies last_leaf(
        settled(records, vehicles, #[trigger] keys[i]),
        key,
    ) is None by {
        lemma_before_total(key, key);
        if i < p {
            assert(text_before(keys[i], keys[p]));
        } else {
            assert(text_before(keys[p], keys[i]));
        }
        assert forall|j: int| 0 <= j < vehicles.len() implies side_key(
            keys[i],
            #[trigger] vehicles[j],
        ) != key by {
            lemma_side_key_has_at(keys[i], vehicles[j]);
        }
        lemma_no_agreed_side(records, vehicles, keys[i], key);
    }
    lemma_merged_decides(records, vehicles, keys, keys.len(), p, key);
}

/// A setting on which vehicles disagree, or some are silent, is stored once
/// for each vehicle that declares it, under `key@vehicle`, where no key has an
/// `@` of its own.
pub proof fn disagreeing_settings_split(
    records: Seq<RecordView>,
    vehicle: Seq<char>,
    key: Seq<char>,
)
    requires
        !agreed(records, record_vehicles(records), key),
        value_for(records, vehicle, key) is Some,
        forall|k: Seq<char>| #[trigger] listed_keys(records).contains(k) ==> !k.contains('@'),
    ensures
        last_leaf(merged(records), side_key(key, vehicle)) == value_for(records, vehicle, key),
{
    let vehicles = record_vehicles(records);
    let all = records.map_values(|r: RecordView| r.vehicle);
    sorted_texts_hold_each_once(all);
    lemma_value_has_vehicle(records, vehicle, key);
    assert(vehicles.contains(vehicle));
    let vi = choose|i: int| 0 <= i < vehicles.len() && vehicles[i] == vehicle;
    lemma_value_is_listed(records, vehicle, key);
    let keys = sorted_texts(listed_keys(records));
    sorted_texts_hold_each_once(listed_keys(records));
    assert(keys.contains(key));
    let p = choose|p: int| 0 <= p < keys.len() && keys[p] == key;
    let sought = side_key(key, vehicle);
    lemma_sides_hit(records, vehicles, key, vehicles.len(), vi);
    assert forall|i: int| 0 <= i < keys.len() && i != p implies last_leaf(
        settled(records, vehicles, #[trigger] keys[i]),
        sought,
    ) is None by {
        assert(keys.contains(keys[i]));
        assert(!keys[i].contains('@'));
        lemma_before_total(key, key);
        if i < p {
            assert(text_before(keys[i], keys[p]));
        } else {
            assert(text_before(keys[p], keys[i]));
        }
        lemma_side_key_has_at(key, vehicle);
        assert forall|j: int| 0 <= j < vehicles.len() implies side_key(
            keys[i],
            #[trigger] vehicles[j],
        ) != sought by {
            if side_key(keys[i], vehicles[j]) == sought {
                lemma_side_keys_differ(keys[i], vehicles[j], key, vehicle);
            }
        }
        lemma_no_agreed_side(records, vehicles, keys[i], sought);
    }
    lemma_merged_decides(records, vehicles, keys, keys.len(), p, sought);
}

proof fn lemma_value_has_vehicle(records: Seq<RecordView>, vehicle: Seq<char>, key: Seq<char>)
    requires
        value_for(records, vehicle, key) is Some,
    ensures
        records.map_values(|r: RecordView| r.vehicle).contains(vehicle),
    decreases records.len(),
{
    let all = records.map_values(|r: RecordView| r.vehicle);
    if records.last().vehicle == vehicle && last_leaf(records.last().leaves, key) is Some {
        assert(all[records.len() - 1] == vehicle);
    } else {
        lemma_value_has_vehicle(records.drop_last(), vehicle, key);
        let front = records.drop_last().map_values(|r: RecordView| r.vehicle);
        let k = choose|k: int| 0 <= k < front.len() && front[k] == vehicle;
        assert(all[k] == vehicle);
    }
}

} // verus!
