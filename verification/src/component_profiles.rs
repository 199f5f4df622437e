//! The identity of all execution profiles of a locked graph together.

use vstd::prelude::*;
use vstd::utf8::*;

use crate::config_documents;
use crate::graph_sources;
use crate::graph_sources::text_before;
use crate::plan;
use crate::plan::{append_identity_text, copy_input, PlanInput};
use crate::seqs;
use crate::text::text_equal;

verus! {

/// An input is the last one with its name.
pub open spec fn is_last_named(inputs: Seq<PlanInput<Seq<char>>>, index: int) -> bool {
    forall|j: int|
        index < j < inputs.len() ==> (#[trigger] inputs[j]).name != inputs[index].name
}

/// An entry is the last input with its name.
pub open spec fn is_entry_of(
    entry: PlanInput<Seq<char>>,
    inputs: Seq<PlanInput<Seq<char>>>,
) -> bool {
    exists|i: int|
        0 <= i < inputs.len() && #[trigger] inputs[i] == entry && is_last_named(inputs, i)
}

/// Some entry has this name.
pub open spec fn has_entry(table: Seq<PlanInput<Seq<char>>>, name: Seq<char>) -> bool {
    exists|k: int| 0 <= k < table.len() && (#[trigger] table[k]).name == name
}

/// The inputs by their names, in the order of the names' bytes; of several inputs with one
/// name the last counts.
pub open spec fn is_table_of(
    table: Seq<PlanInput<Seq<char>>>,
    inputs: Seq<PlanInput<Seq<char>>>,
) -> bool {
    &&& forall|j: int, k: int|
        0 <= j < k < table.len() ==> graph_sources::text_less(
            (#[trigger] table[j]).name,
            (#[trigger] table[k]).name,
        )
    &&& forall|k: int| 0 <= k < table.len() ==> is_entry_of(#[trigger] table[k], inputs)
    &&& forall|i: int|
        0 <= i < inputs.len() ==> has_entry(table, (#[trigger] inputs[i]).name)
}

/// The names and digests of a table, one after the other.
pub open spec fn flattened(table: Seq<PlanInput<Seq<char>>>) -> Seq<Seq<char>>
    decreases table.len(),
{
    if table.len() == 0 {
        Seq::empty()
    } else {
        flattened(table.drop_last()).push(table.last().name).push(table.last().digest)
    }
}

/// The bytes whose digest identifies the profiles of a table.
pub open spec fn profiles_preimage_of(table: Seq<PlanInput<Seq<char>>>) -> Seq<u8> {
    config_documents::domain("malm-locked-component-profiles-v1"@) + plan::framed_all(
        flattened(table),
    )
}

proof fn lemma_framed_push(values: Seq<Seq<char>>, value: Seq<char>)
    ensures
        plan::framed_all(values.push(value)) == plan::framed_all(values) + plan::framed(value),
    decreases values.len(),
{
    let all = values.push(value);
    if values.len() == 0 {
        assert(all.skip(1) =~= Seq::<Seq<char>>::empty());
        assert(plan::framed_all(all.skip(1)) =~= Seq::<u8>::empty());
        assert(plan::framed_all(all) =~= plan::framed(value));
        assert(plan::framed_all(values) + plan::framed(value) =~= plan::framed(value));
    } else {
        assert(all.skip(1) =~= values.skip(1).push(value));
        lemma_framed_push(values.skip(1), value);
        assert(plan::framed_all(all) =~= plan::framed_all(values) + plan::framed(value));
    }
}

/// Puts an input into a table, in place of one with its name.
fn put(table: &mut Vec<PlanInput>, input: &PlanInput, Ghost(inputs): Ghost<Seq<PlanInput<Seq<char>>>>)
    requires
        is_table_of(seqs::views(old(table)@), inputs),
    ensures
        is_table_of(seqs::views(final(table)@), inputs.push(input@)),
{
    let ghost before = seqs::views(table@);
    let ghost fresh = input@;
    let ghost all = inputs.push(fresh);
    let mut position: usize = 0;
    while position < table.len() && text_before(
        table[position].name.as_str(),
        input.name.as_str(),
    )
        invariant
            position <= table.len(),
            before == seqs::views(table@),
            fresh == input@,
            forall|k: int|
                0 <= k < position ==> graph_sources::text_less(
                    (#[trigger] before[k]).name,
                    fresh.name,
                ),
        decreases table.len() - position,
    {
        proof {
            assert(before[position as int] == table@[position as int]@);
        }
        position = position + 1;
    }
    let ghost p = position as int;
    let replaced = position < table.len() && text_equal(
        table[position].name.as_str(),
        input.name.as_str(),
    );
    proof {
        if p < before.len() {
            assert(before[p] == table@[p]@);
        }
        assert forall|k: int| 0 <= k < before.len() && (k != p || !replaced) implies (
        #[trigger] before[k]).name != fresh.name by {
            graph_sources::lemma_text_order(fresh.name, before[k].name, before[k].name);
            if k > p {
                graph_sources::lemma_text_order(before[p].name, before[k].name, before[p].name);
                assert(graph_sources::text_less(before[p].name, before[k].name));
                if before[k].name == fresh.name {
                    assert(!graph_sources::text_less(before[p].name, fresh.name));
                }
            }
        }
        assert forall|k: int| 0 <= k < before.len() && (k != p || !replaced) implies is_entry_of(
            #[trigger] before[k],
            all,
        ) by {
            assert(is_entry_of(before[k], inputs));
            let i = choose|i: int|
                0 <= i < inputs.len() && #[trigger] inputs[i] == before[k] && is_last_named(
                    inputs,
                    i,
                );
            assert(all[i] == before[k]);
            assert(is_last_named(all, i)) by {
                assert forall|j: int| i < j < all.len() implies (#[trigger] all[j]).name
                    != all[i].name by {
                    if j < inputs.len() {
                        assert(inputs[j].name != inputs[i].name);
                    }
                }
            }
        }
        assert(is_entry_of(fresh, all)) by {
            assert(all[inputs.len() as int] == fresh);
            assert(is_last_named(all, inputs.len() as int));
        }
    }
    if replaced {
        table.set(position, copy_input(input));
        proof {
            let after = seqs::views(table@);
            assert(after =~= before.update(p, fresh));
            assert forall|j: int, k: int| 0 <= j < k < after.len() implies graph_sources::text_less(
                (#[trigger] after[j]).name,
                (#[trigger] after[k]).name,
            ) by {
                assert(graph_sources::text_less(before[j].name, before[k].name));
                assert(after[j].name == before[j].name);
                assert(after[k].name == before[k].name);
            }
            assert forall|i: int| 0 <= i < all.len() implies has_entry(
                after,
                (#[trigger] all[i]).name,
            ) by {
                if i < inputs.len() {
                    assert(has_entry(before, inputs[i].name));
                    let k = choose|k: int|
                        0 <= k < before.len() && (#[trigger] before[k]).name == inputs[i].name;
                    assert(after[k].name == before[k].name);
                } else {
                    assert(after[p].name == all[i].name);
                }
            }
        }
    } else {
        table.insert(position, copy_input(input));
        proof {
            let after = seqs::views(table@);
            assert(after =~= before.insert(p, fresh));
            assert forall|k: int| p <= k < before.len() implies graph_sources::text_less(
                fresh.name,
                (#[trigger] before[k]).name,
            ) by {
                graph_sources::lemma_text_order(fresh.name, before[p].name, before[k].name);
                if k > p {
                    assert(graph_sources::text_less(before[p].name, before[k].name));
                }
            }
            assert forall|j: int, k: int| 0 <= j < k < after.len() implies graph_sources::text_less(
                (#[trigger] after[j]).name,
                (#[trigger] after[k]).name,
            ) by {
                let jj = if j < p { j } else { j - 1 };
                let kk = if k < p { k } else { k - 1 };
                if j != p && k != p {
                    assert(graph_sources::text_less(before[jj].name, before[kk].name));
                } else if j == p {
                    assert(graph_sources::text_less(fresh.name, before[kk].name));
                } else {
                    assert(graph_sources::text_less(before[jj].name, fresh.name));
                }
            }
            assert forall|k: int| 0 <= k < after.len() implies is_entry_of(
                #[trigger] after[k],
                all,
            ) by {
                if k != p {
                    let kk = if k < p { k } else { k - 1 };
                    assert(is_entry_of(before[kk], all));
                }
            }
            assert forall|i: int| 0 <= i < all.len() implies has_entry(
                after,
                (#[trigger] all[i]).name,
            ) by {
                if i < inputs.len() {
                    assert(has_entry(before, inputs[i].name));
                    let k = choose|k: int|
                        0 <= k < before.len() && (#[trigger] before[k]).name == inputs[i].name;
                    let kk = if k < p { k } else { k + 1 };
                    assert(after[kk] == before[k]);
                } else {
                    assert(after[p].name == all[i].name);
                }
            }
        }
    }
}

/// Builds the bytes whose digest identifies all execution profiles together.
pub fn profiles_preimage(inputs: &Vec<PlanInput>) -> (bytes: Vec<u8>)
    ensures
        exists|table: Seq<PlanInput<Seq<char>>>| #[trigger]
            is_table_of(table, seqs::views(inputs@)) && bytes@ == profiles_preimage_of(table),
{
    let ghost all = seqs::views(inputs@);
    let mut table: Vec<PlanInput> = Vec::new();
    let mut i: usize = 0;
    while i < inputs.len()
        invariant
            i <= inputs.len(),
            all == seqs::views(inputs@),
            is_table_of(seqs::views(table@), all.take(i as int)),
        decreases inputs.len() - i,
    {
        proof {
            assert(all[i as int] == inputs@[i as int]@);
            assert(all.take(i + 1) =~= all.take(i as int).push(all[i as int]));
        }
        put(&mut table, &inputs[i], Ghost(all.take(i as int)));
        i = i + 1;
    }
    let ghost entries = seqs::views(table@);
    proof {
        assert(all.take(all.len() as int) =~= all);
    }
    let mut bytes: Vec<u8> = Vec::new();
    bytes.extend_from_slice("malm-locked-component-profiles-v1".as_bytes());
    bytes.push(0);
    let ghost start = config_documents::domain("malm-locked-component-profiles-v1"@);
    let mut i: usize = 0;
    proof {
        assert(entries.take(0) =~= Seq::<PlanInput<Seq<char>>>::empty());
        assert(bytes@ =~= start + plan::framed_all(flattened(entries.take(0))));
    }
    while i < table.len()
        invariant
            i <= table.len(),
            entries == seqs::views(table@),
            bytes@ == start + plan::framed_all(flattened(entries.take(i as int))),
        decreases table.len() - i,
    {
        let ghost before = bytes@;
        proof {
            assert(entries.take(i + 1).drop_last() =~= entries.take(i as int));
            assert(entries.take(i + 1).last() == table@[i as int]@);
            let values = flattened(entries.take(i as int));
            let entry = entries[i as int];
            lemma_framed_push(values, entry.name);
            lemma_framed_push(values.push(entry.name), entry.digest);
        }
        append_identity_text(&mut bytes, table[i].name.as_str());
        append_identity_text(&mut bytes, table[i].digest.as_str());
        proof {
            assert(bytes@ =~= start + plan::framed_all(flattened(entries.take(i + 1))));
        }
        i = i + 1;
    }
    proof {
        assert(entries.take(entries.len() as int) =~= entries);
        assert(is_table_of(entries, all));
    }
    bytes
}

proof fn lemma_table_has_a_twin(
    left: Seq<PlanInput<Seq<char>>>,
    right: Seq<PlanInput<Seq<char>>>,
    inputs: Seq<PlanInput<Seq<char>>>,
    index: int,
) -> (twin: int)
    requires
        is_table_of(left, inputs),
        is_table_of(right, inputs),
        0 <= index < left.len(),
    ensures
        0 <= twin < right.len(),
        right[twin] == left[index],
{
    assert(is_entry_of(left[index], inputs));
    let i = choose|i: int|
        0 <= i < inputs.len() && #[trigger] inputs[i] == left[index] && is_last_named(inputs, i);
    assert(has_entry(right, inputs[i].name));
    let k = choose|k: int|
        0 <= k < right.len() && (#[trigger] right[k]).name == inputs[i].name;
    assert(is_entry_of(right[k], inputs));
    let j = choose|j: int|
        0 <= j < inputs.len() && #[trigger] inputs[j] == right[k] && is_last_named(inputs, j);
    if i < j {
        assert(inputs[j].name != inputs[i].name);
    } else if j < i {
        assert(inputs[i].name != inputs[j].name);
    }
    k
}

proof fn lemma_tables_start_alike(
    left: Seq<PlanInput<Seq<char>>>,
    right: Seq<PlanInput<Seq<char>>>,
    inputs: Seq<PlanInput<Seq<char>>>,
    count: int,
)
    requires
        is_table_of(left, inputs),
        is_table_of(right, inputs),
        0 <= count <= left.len(),
    ensures
        count <= right.len(),
        forall|k: int| 0 <= k < count ==> #[trigger] left[k] == right[k],
    decreases count,
{
    if count > 0 {
        let last = count - 1;
        lemma_tables_start_alike(left, right, inputs, last);
        let q = lemma_table_has_a_twin(left, right, inputs, last);
        graph_sources::lemma_text_order(left[last].name, left[last].name, left[last].name);
        if q < last {
            assert(left[q] == right[q]);
            assert(graph_sources::text_less(left[q].name, left[last].name));
        }
        let p = lemma_table_has_a_twin(right, left, inputs, last);
        graph_sources::lemma_text_order(right[last].name, right[last].name, right[last].name);
        if p < last {
            assert(left[p] == right[p]);
            assert(graph_sources::text_less(right[p].name, right[last].name));
        }
        if q > last && p > last {
            assert(graph_sources::text_less(right[last].name, right[q].name));
            assert(graph_sources::text_less(left[last].name, left[p].name));
            graph_sources::lemma_text_order(left[last].name, right[last].name, left[last].name);
        }
    }
}

/// The inputs determine their table, so that one graph has one identity of its profiles.
pub proof fn lemma_table_is_determined(
    left: Seq<PlanInput<Seq<char>>>,
    right: Seq<PlanInput<Seq<char>>>,
    inputs: Seq<PlanInput<Seq<char>>>,
)
    requires
        is_table_of(left, inputs),
        is_table_of(right, inputs),
    ensures
        left == right,
{
    lemma_tables_start_alike(left, right, inputs, left.len() as int);
    lemma_tables_start_alike(right, left, inputs, right.len() as int);
    assert(left =~= right);
}

/// The list of a table holds the name and the digest of each of its entries, in their order, and
/// nothing else.
pub proof fn lemma_flattened_table_holds_names_and_digests(table: Seq<PlanInput<Seq<char>>>)
    ensures
        flattened(table).len() == 2 * table.len(),
        forall|k: int|
            0 <= k < table.len() ==> flattened(table)[2 * k] == (#[trigger] table[k]).name
                && flattened(table)[2 * k + 1] == table[k].digest,
    decreases table.len(),
{
    if table.len() > 0 {
        lemma_flattened_table_holds_names_and_digests(table.drop_last());
        assert forall|k: int| 0 <= k < table.len() implies flattened(table)[2 * k] == (
        #[trigger] table[k]).name && flattened(table)[2 * k + 1] == table[k].digest by {
            if k < table.len() - 1 {
                assert(table.drop_last()[k] == table[k]);
            }
        }
    }
}

} // verus!
