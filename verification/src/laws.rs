//! Laws of the manager as a whole, stated over its model: how any sequence
//! of additions shapes the three containers, and in what order popping
//! returns the added records.

use vstd::prelude::*;

use crate::item::ItemModel;
use crate::manager::{add_step, empty_model, ManagerModel};

verus! {

/// The model reached from `s` by adding every record of `adds` in order.
pub open spec fn add_all(s: ManagerModel, adds: Seq<ItemModel>) -> ManagerModel
    decreases adds.len(),
{
    if adds.len() == 0 {
        s
    } else {
        add_step(add_all(s, adds.drop_last()), adds.last())
    }
}

/// The codes of the added records, in insertion order.
pub open spec fn code_seq(adds: Seq<ItemModel>) -> Seq<Seq<char>> {
    adds.map_values(|m: ItemModel| m.code)
}

/// The set of distinct codes among the added records.
pub open spec fn codes_of(adds: Seq<ItemModel>) -> Set<Seq<char>> {
    code_seq(adds).to_set()
}

/// After any sequence of additions, starting from an empty manager, the
/// history stack and the arrival queue both hold exactly the added records
/// in insertion order; in particular each has one entry per `add_item`
/// call, duplicated codes included.
pub proof fn lemma_logs_after_adds(adds: Seq<ItemModel>)
    ensures
        add_all(empty_model(), adds).stack == adds,
        add_all(empty_model(), adds).queue == adds,
    decreases adds.len(),
{
    if adds.len() == 0 {
        assert(add_all(empty_model(), adds).stack =~= adds);
        assert(add_all(empty_model(), adds).queue =~= adds);
    } else {
        lemma_logs_after_adds(adds.drop_last());
        assert(adds.drop_last().push(adds.last()) =~= adds);
    }
}

/// After any sequence of additions, starting from an empty manager, the
/// table's keys are exactly the distinct codes added: a later addition with
/// an already used code overwrites instead of duplicating, so the table's
/// size is the number of distinct codes.
pub proof fn lemma_table_after_adds(adds: Seq<ItemModel>)
    ensures
        add_all(empty_model(), adds).table.dom() == codes_of(adds),
        add_all(empty_model(), adds).table.dom().finite(),
        add_all(empty_model(), adds).table.dom().len() == codes_of(adds).len(),
    decreases adds.len(),
{
    broadcast use vstd::seq_lib::seq_to_set_is_finite;

    if adds.len() == 0 {
        assert(add_all(empty_model(), adds).table.dom() =~= codes_of(adds));
    } else {
        let prev = adds.drop_last();
        lemma_table_after_adds(prev);
        let cs = code_seq(adds);
        let csp = code_seq(prev);
        assert(cs =~= csp.push(adds.last().code));
        csp.lemma_push_to_set_commute(adds.last().code);
        assert(csp.to_set().insert(adds.last().code) =~= cs.to_set());
        assert(add_all(empty_model(), adds).table.dom() =~= codes_of(adds));
    }
}

/// After any sequence of additions, starting from an empty manager, the
/// table maps each added code to the record of the last addition carrying
/// it: a later addition with the same code overwrites the stored record.
pub proof fn lemma_last_write_wins(adds: Seq<ItemModel>, i: int)
    requires
        0 <= i < adds.len(),
        forall|j: int| i < j < adds.len() ==> adds[j].code != adds[i].code,
    ensures
        add_all(empty_model(), adds).table.contains_pair(adds[i].code, adds[i]),
    decreases adds.len(),
{
    if i < adds.len() - 1 {
        let prev = adds.drop_last();
        assert(prev[i] == adds[i]);
        assert forall|j: int| i < j < prev.len() implies prev[j].code != prev[i].code by {
            assert(prev[j] == adds[j]);
        }
        lemma_last_write_wins(prev, i);
    }
}

/// The history stack after `adds` additions and `k` pops.
pub open spec fn stack_after_pops(adds: Seq<ItemModel>, k: int) -> Seq<ItemModel> {
    adds.take(adds.len() - k)
}

/// The arrival queue after `adds` additions and `k` dequeues.
pub open spec fn queue_after_pops(adds: Seq<ItemModel>, k: int) -> Seq<ItemModel> {
    adds.skip(k)
}

/// Popping returns the added records in exact reverse insertion order, and
/// dequeuing returns them in exact insertion order: after `k` pops the next
/// `pop_stack` returns the `(k+1)`-th record from the end and leaves the
/// stack as after `k + 1` pops, and after `k` dequeues the next `pop_queue`
/// returns the `(k+1)`-th record added and leaves the queue as after
/// `k + 1` dequeues.
pub proof fn lemma_pop_order(adds: Seq<ItemModel>, k: int)
    requires
        0 <= k < adds.len(),
    ensures
        stack_after_pops(adds, k).len() > 0,
        stack_after_pops(adds, k).last() == adds[adds.len() - 1 - k],
        stack_after_pops(adds, k).drop_last() == stack_after_pops(adds, k + 1),
        queue_after_pops(adds, k).len() > 0,
        queue_after_pops(adds, k).first() == adds[k],
        queue_after_pops(adds, k).drop_first() == queue_after_pops(adds, k + 1),
{
    assert(stack_after_pops(adds, k).drop_last() =~= stack_after_pops(adds, k + 1));
    assert(queue_after_pops(adds, k).drop_first() =~= queue_after_pops(adds, k + 1));
}

} // verus!
