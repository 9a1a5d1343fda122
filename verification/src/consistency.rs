use vstd::prelude::*;

use crate::model::{available_units, is_active, total_units, LendingView};
use crate::types::{Item, Loan, LoanStatus};

verus! {

/// `l` keeps one unit of the item with id `item_id` out.
pub open spec fn holds_unit_of(l: Loan, item_id: u64) -> bool {
    l.status == LoanStatus::Active && l.item_id == item_id
}

/// The number of loans that keep a unit of the item with id `item_id` out.
pub open spec fn units_out(loans: Seq<Loan>, item_id: u64) -> nat
    decreases loans.len(),
{
    if loans.len() == 0 {
        0
    } else {
        units_out(loans.drop_last(), item_id) + if holds_unit_of(loans.last(), item_id) {
            1nat
        } else {
            0nat
        }
    }
}

/// Some item of `items` has id `id`.
pub open spec fn has_item(items: Seq<Item>, id: u64) -> bool {
    exists|j: int| 0 <= j < items.len() && #[trigger] items[j].id == id
}

impl LendingView {
    /// What every state reached from a fresh service satisfies:
    /// - before initialization nothing is recorded;
    /// - item ids are distinct and at most the item counter;
    /// - the loan with position `k` has id `k + 1`, and the loan counter is
    ///   the number of loans;
    /// - of each item, the units that are not available are exactly those
    ///   that its active loans keep out;
    /// - every active loan belongs to an item of the inventory, and has no
    ///   return date yet.
    pub open spec fn well_formed(self) -> bool {
        &&& self.admin is None ==> {
            &&& self.items.len() == 0
            &&& self.loans.len() == 0
            &&& self.item_count == 0
            &&& self.loan_count == 0
        }
        &&& forall|i: int| 0 <= i < self.items.len() ==> #[trigger] self.items[i].id <= self.item_count
        &&& forall|i: int, j: int|
            0 <= i < j < self.items.len() ==> #[trigger] self.items[i].id != #[trigger] self.items[j].id
        &&& self.loan_count == self.loans.len()
        &&& forall|k: int| 0 <= k < self.loans.len() ==> #[trigger] self.loans[k].id == k + 1
        &&& forall|i: int|
            0 <= i < self.items.len() ==> {
                &&& #[trigger] self.items[i].available_quantity <= self.items[i].total_quantity
                &&& self.items[i].total_quantity - self.items[i].available_quantity == units_out(
                    self.loans,
                    self.items[i].id,
                )
            }
        &&& forall|k: int|
            0 <= k < self.loans.len() && #[trigger] self.loans[k].status == LoanStatus::Active
                ==> has_item(self.items, self.loans[k].item_id) && self.loans[k].actual_return_date
                == 0
    }
}

pub proof fn lemma_units_out_push(loans: Seq<Loan>, l: Loan, item_id: u64)
    ensures
        units_out(loans.push(l), item_id) == units_out(loans, item_id) + if holds_unit_of(
            l,
            item_id,
        ) {
            1nat
        } else {
            0nat
        },
{
    assert(loans.push(l).drop_last() =~= loans);
}

/// Replacing the loan at position `k` changes the count by what the old
/// and the new loan contribute.
pub proof fn lemma_units_out_update(loans: Seq<Loan>, k: int, l: Loan, item_id: u64)
    requires
        0 <= k < loans.len(),
    ensures
        units_out(loans.update(k, l), item_id) + (if holds_unit_of(loans[k], item_id) {
            1nat
        } else {
            0nat
        }) == units_out(loans, item_id) + (if holds_unit_of(l, item_id) {
            1nat
        } else {
            0nat
        }),
    decreases loans.len(),
{
    let updated = loans.update(k, l);
    if k == loans.len() - 1 {
        assert(updated.drop_last() =~= loans.drop_last());
    } else {
        assert(updated.drop_last() =~= loans.drop_last().update(k, l));
        lemma_units_out_update(loans.drop_last(), k, l, item_id);
    }
}

/// An item that no loan keeps a unit of has no units out.
pub proof fn lemma_units_out_none(loans: Seq<Loan>, item_id: u64)
    requires
        forall|k: int| 0 <= k < loans.len() ==> !holds_unit_of(#[trigger] loans[k], item_id),
    ensures
        units_out(loans, item_id) == 0,
    decreases loans.len(),
{
    if loans.len() > 0 {
        assert(!holds_unit_of(loans[loans.len() - 1], item_id));
        lemma_units_out_none(loans.drop_last(), item_id);
    }
}

/// An item that some loan keeps a unit of has a unit out.
pub proof fn lemma_units_out_some(loans: Seq<Loan>, k: int, item_id: u64)
    requires
        0 <= k < loans.len(),
        holds_unit_of(loans[k], item_id),
    ensures
        units_out(loans, item_id) >= 1,
{
    let other = Loan { status: LoanStatus::Completed, ..loans[k] };
    lemma_units_out_update(loans, k, other, item_id);
}

/// The units that active loans keep out, summed over the items of `items`.
pub open spec fn units_out_of_items(items: Seq<Item>, loans: Seq<Loan>) -> nat
    decreases items.len(),
{
    if items.len() == 0 {
        0
    } else {
        units_out_of_items(items.drop_last(), loans) + units_out(loans, items.last().id)
    }
}

/// The number of items of `items` with id `id`.
pub open spec fn occurrences(items: Seq<Item>, id: u64) -> nat
    decreases items.len(),
{
    if items.len() == 0 {
        0
    } else {
        occurrences(items.drop_last(), id) + if items.last().id == id {
            1nat
        } else {
            0nat
        }
    }
}

/// When each item's missing units are those its loans keep out, all the
/// units are the available ones plus those kept out.
pub proof fn lemma_units_split(items: Seq<Item>, loans: Seq<Loan>)
    requires
        forall|i: int|
            0 <= i < items.len() ==> {
                &&& #[trigger] items[i].available_quantity <= items[i].total_quantity
                &&& items[i].total_quantity - items[i].available_quantity == units_out(
                    loans,
                    items[i].id,
                )
            },
    ensures
        total_units(items) == available_units(items) + units_out_of_items(items, loans),
    decreases items.len(),
{
    if items.len() > 0 {
        let rest = items.drop_last();
        assert forall|i: int| 0 <= i < rest.len() implies {
            &&& #[trigger] rest[i].available_quantity <= rest[i].total_quantity
            &&& rest[i].total_quantity - rest[i].available_quantity == units_out(loans, rest[i].id)
        } by {
            assert(rest[i] == items[i]);
        }
        lemma_units_split(rest, loans);
        assert(items[items.len() - 1].available_quantity <= items[items.len() - 1].total_quantity);
    }
}

/// A new loan adds, to the sum over the items, one unit per item with its
/// item id when it is active.
pub proof fn lemma_units_out_of_items_push(items: Seq<Item>, loans: Seq<Loan>, l: Loan)
    ensures
        units_out_of_items(items, loans.push(l)) == units_out_of_items(items, loans) + if l.status
            == LoanStatus::Active {
            occurrences(items, l.item_id)
        } else {
            0nat
        },
    decreases items.len(),
{
    if items.len() > 0 {
        lemma_units_out_of_items_push(items.drop_last(), loans, l);
        lemma_units_out_push(loans, l, items.last().id);
    }
}

/// With distinct ids, an id occurs once if some item has it, else never.
pub proof fn lemma_occurrences(items: Seq<Item>, id: u64)
    requires
        forall|i: int, j: int|
            0 <= i < j < items.len() ==> #[trigger] items[i].id != #[trigger] items[j].id,
    ensures
        occurrences(items, id) == if has_item(items, id) {
            1nat
        } else {
            0nat
        },
    decreases items.len(),
{
    if items.len() > 0 {
        let rest = items.drop_last();
        let last = items.len() - 1;
        assert forall|i: int, j: int| 0 <= i < j < rest.len() implies #[trigger] rest[i].id
            != #[trigger] rest[j].id by {
            assert(rest[i] == items[i] && rest[j] == items[j]);
        }
        lemma_occurrences(rest, id);
        if has_item(rest, id) {
            let j = choose|j: int| 0 <= j < rest.len() && #[trigger] rest[j].id == id;
            assert(items[j].id == id);
            assert(items[j].id != items[last].id);
        }
        if has_item(items, id) {
            let j = choose|j: int| 0 <= j < items.len() && #[trigger] items[j].id == id;
            if j < last {
                assert(rest[j].id == id);
            }
        } else {
            assert(items[last].id != id);
            if has_item(rest, id) {
                let j = choose|j: int| 0 <= j < rest.len() && #[trigger] rest[j].id == id;
                assert(items[j].id == id);
            }
        }
    }
}

/// With distinct item ids, and each active loan belonging to an item, the
/// units kept out over all items are as many as the active loans.
pub proof fn lemma_units_out_of_items_counts_active(items: Seq<Item>, loans: Seq<Loan>)
    requires
        forall|i: int, j: int|
            0 <= i < j < items.len() ==> #[trigger] items[i].id != #[trigger] items[j].id,
        forall|k: int|
            0 <= k < loans.len() && #[trigger] loans[k].status == LoanStatus::Active ==> has_item(
                items,
                loans[k].item_id,
            ),
    ensures
        units_out_of_items(items, loans) == loans.filter(is_active()).len(),
    decreases loans.len(),
{
    if loans.len() == 0 {
        assert(units_out_of_items(items, loans) == 0) by {
            lemma_units_out_of_items_empty(items, loans);
        }
        assert(loans.filter(is_active()) =~= loans) by {
            reveal(Seq::filter);
        }
    } else {
        let rest = loans.drop_last();
        let l = loans.last();
        assert forall|k: int|
            0 <= k < rest.len() && #[trigger] rest[k].status == LoanStatus::Active implies has_item(
            items,
            rest[k].item_id,
        ) by {
            assert(loans[k] == rest[k]);
        }
        lemma_units_out_of_items_counts_active(items, rest);
        assert(loans =~= rest.push(l));
        lemma_units_out_of_items_push(items, rest, l);
        rest.lemma_filter_push(l, is_active());
        lemma_occurrences(items, l.item_id);
        assert(loans[loans.len() - 1] == l);
    }
}

pub proof fn lemma_units_out_of_items_empty(items: Seq<Item>, loans: Seq<Loan>)
    requires
        loans.len() == 0,
    ensures
        units_out_of_items(items, loans) == 0,
    decreases items.len(),
{
    if items.len() > 0 {
        lemma_units_out_of_items_empty(items.drop_last(), loans);
    }
}

} // verus!
