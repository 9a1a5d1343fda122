use vstd::prelude::*;

use crate::consistency::{
    has_item, holds_unit_of, lemma_units_out_none, lemma_units_out_of_items_counts_active,
    lemma_units_out_push, lemma_units_out_some, lemma_units_out_update, lemma_units_split,
    units_out,
};
use crate::model::{
    add_item_outcome, admin_check, available_units, borrow_item_outcome, extend_loan_outcome,
    first_position, fresh_service, initialize_outcome, is_active, is_first_position, item_ids,
    lemma_first_position_is, loan_ids, remove_item_outcome, return_item_outcome, statistics_outcome,
    total_units, update_item_quantity_outcome, update_item_status_outcome, LendingView,
    MAX_EXTENSION_DAYS, MAX_LOAN_DAYS, has_available_units, taken_by,
};
use crate::types::{Abort, Address, Item, Loan, ItemCategory, ItemStatus, LoanStatus, Reply, Statistics};

verus! {

/// A fresh service is well formed.
pub proof fn fresh_service_is_well_formed()
    ensures
        fresh_service().well_formed(),
{
}

/// Initializing keeps the service well formed.
pub proof fn initialize_preserves_well_formed(s: LendingView, admin: Address)
    requires
        s.well_formed(),
    ensures
        initialize_outcome(s, admin).0.well_formed(),
{
}

/// Adding an item keeps the service well formed: the new id is fresh, and
/// no loan holds a unit of it.
pub proof fn add_item_preserves_well_formed(
    s: LendingView,
    caller: Address,
    name: String,
    category: ItemCategory,
    description: String,
    location: String,
    quantity: u32,
)
    requires
        s.well_formed(),
    ensures
        add_item_outcome(s, caller, name, category, description, location, quantity).0.well_formed(),
{
    let t = add_item_outcome(s, caller, name, category, description, location, quantity).0;
    if t != s {
        let id = (s.item_count + 1) as u64;
        assert forall|k: int| 0 <= k < s.loans.len() implies !holds_unit_of(
            #[trigger] s.loans[k],
            id,
        ) by {
            if holds_unit_of(s.loans[k], id) {
                let j = choose|j: int| 0 <= j < s.items.len() && #[trigger] s.items[j].id == id;
                assert(s.items[j].id <= s.item_count);
            }
        }
        lemma_units_out_none(s.loans, id);
        assert forall|k: int|
            0 <= k < t.loans.len() && #[trigger] t.loans[k].status == LoanStatus::Active
            implies has_item(t.items, t.loans[k].item_id) by {
            let j = choose|j: int|
                0 <= j < s.items.len() && #[trigger] s.items[j].id == s.loans[k].item_id;
            assert(t.items[j] == s.items[j]);
        }
    }
}

/// Setting an item's status keeps the service well formed.
pub proof fn update_item_status_preserves_well_formed(
    s: LendingView,
    caller: Address,
    item_id: u64,
    new_status: ItemStatus,
)
    requires
        s.well_formed(),
    ensures
        update_item_status_outcome(s, caller, item_id, new_status).0.well_formed(),
{
    let t = update_item_status_outcome(s, caller, item_id, new_status).0;
    if t != s {
        assert forall|k: int|
            0 <= k < t.loans.len() && #[trigger] t.loans[k].status == LoanStatus::Active
            implies has_item(t.items, t.loans[k].item_id) by {
            let j = choose|j: int|
                0 <= j < s.items.len() && #[trigger] s.items[j].id == s.loans[k].item_id;
            assert(t.items[j].id == s.items[j].id);
        }
    }
}

/// Adding units to an item keeps the service well formed.
pub proof fn update_item_quantity_preserves_well_formed(
    s: LendingView,
    caller: Address,
    item_id: u64,
    additional: u32,
)
    requires
        s.well_formed(),
    ensures
        update_item_quantity_outcome(s, caller, item_id, additional).0.well_formed(),
{
    let t = update_item_quantity_outcome(s, caller, item_id, additional).0;
    if t != s {
        assert forall|k: int|
            0 <= k < t.loans.len() && #[trigger] t.loans[k].status == LoanStatus::Active
            implies has_item(t.items, t.loans[k].item_id) by {
            let j = choose|j: int|
                0 <= j < s.items.len() && #[trigger] s.items[j].id == s.loans[k].item_id;
            assert(t.items[j].id == s.items[j].id);
        }
    }
}

/// Removing an item keeps the service well formed: an item with all its
/// units available has no active loan, so no active loan loses its item.
pub proof fn remove_item_preserves_well_formed(s: LendingView, caller: Address, item_id: u64)
    requires
        s.well_formed(),
    ensures
        remove_item_outcome(s, caller, item_id).0.well_formed(),
{
    let t = remove_item_outcome(s, caller, item_id).0;
    if t != s {
        let i = first_position(item_ids(s.items), item_id)->0;
        let gone = s.items[i].id;
        assert(s.items[i].available_quantity <= s.items[i].total_quantity);
        assert(units_out(s.loans, gone) == 0);
        assert forall|k: int|
            0 <= k < t.loans.len() && #[trigger] t.loans[k].status == LoanStatus::Active
            implies has_item(t.items, t.loans[k].item_id) by {
            let j = choose|j: int|
                0 <= j < s.items.len() && #[trigger] s.items[j].id == s.loans[k].item_id;
            if j == i {
                lemma_units_out_some(s.loans, k, gone);
            } else if j < i {
                assert(t.items[j] == s.items[j]);
            } else {
                assert(t.items[j - 1] == s.items[j]);
            }
        }
        assert forall|a: int, b: int| 0 <= a < b < t.items.len() implies #[trigger] t.items[a].id
            != #[trigger] t.items[b].id by {
            let a0 = if a < i { a } else { a + 1 };
            let b0 = if b < i { b } else { b + 1 };
            assert(t.items[a] == s.items[a0]);
            assert(t.items[b] == s.items[b0]);
        }
    }
}

/// Borrowing keeps the service well formed: the item has one unit fewer
/// available, and the new active loan keeps exactly that unit out.
pub proof fn borrow_item_preserves_well_formed(
    s: LendingView,
    borrower: Address,
    item_id: u64,
    purpose: String,
    duration_days: u64,
    now: u64,
)
    requires
        s.well_formed(),
    ensures
        borrow_item_outcome(s, borrower, item_id, purpose, duration_days, now).0.well_formed(),
{
    let t = borrow_item_outcome(s, borrower, item_id, purpose, duration_days, now).0;
    if t != s {
        let i = first_position(item_ids(s.items), item_id)->0;
        let loan = t.loans[s.loans.len() as int];
        assert(t.loans =~= s.loans.push(loan));
        assert(s.items[i].id == item_id);
        assert forall|j: int| 0 <= j < t.items.len() implies {
            &&& #[trigger] t.items[j].available_quantity <= t.items[j].total_quantity
            &&& t.items[j].total_quantity - t.items[j].available_quantity == units_out(
                t.loans,
                t.items[j].id,
            )
        } by {
            lemma_units_out_push(s.loans, loan, s.items[j].id);
            if j != i {
                assert(s.items[j].id != item_id);
            }
        }
        assert forall|k: int|
            0 <= k < t.loans.len() && #[trigger] t.loans[k].status == LoanStatus::Active
            implies has_item(t.items, t.loans[k].item_id) by {
            if k < s.loans.len() {
                let j = choose|j: int|
                    0 <= j < s.items.len() && #[trigger] s.items[j].id == s.loans[k].item_id;
                assert(t.items[j].id == s.items[j].id);
            } else {
                assert(t.items[i].id == item_id);
            }
        }
    }
}

/// Under consistency, the loan being returned belongs to an item that has
/// a unit out: the item exists, and its available count is below its total.
pub proof fn returned_unit_has_its_item(s: LendingView, k: int)
    requires
        s.well_formed(),
        0 <= k < s.loans.len(),
        s.loans[k].status == LoanStatus::Active,
    ensures
        first_position(item_ids(s.items), s.loans[k].item_id) matches Some(i) && {
            &&& 0 <= i < s.items.len()
            &&& s.items[i].id == s.loans[k].item_id
            &&& s.items[i].available_quantity < s.items[i].total_quantity
        },
{
    let y = s.loans[k].item_id;
    let j = choose|j: int| 0 <= j < s.items.len() && #[trigger] s.items[j].id == y;
    assert(item_ids(s.items)[j] == y);
    crate::model::lemma_first_position_exists(item_ids(s.items), y, j);
    let i = first_position(item_ids(s.items), y)->0;
    assert(item_ids(s.items)[i] == s.items[i].id);
    lemma_units_out_some(s.loans, k, y);
}

/// A well-formed service never aborts a return: the returned unit always
/// fits in its item's available count.
pub proof fn return_item_never_aborts(s: LendingView, borrower: Address, loan_id: u64, now: u64)
    requires
        s.well_formed(),
    ensures
        return_item_outcome(s, borrower, loan_id, now).1 is Ok,
{
    if let Some(k) = first_position(loan_ids(s.loans), loan_id) {
        if s.loans[k].status == LoanStatus::Active {
            returned_unit_has_its_item(s, k);
        }
    }
}

/// Returning keeps the service well formed: the loan stops holding its
/// unit, and the unit is available again.
pub proof fn return_item_preserves_well_formed(
    s: LendingView,
    borrower: Address,
    loan_id: u64,
    now: u64,
)
    requires
        s.well_formed(),
    ensures
        return_item_outcome(s, borrower, loan_id, now).0.well_formed(),
{
    let t = return_item_outcome(s, borrower, loan_id, now).0;
    if t != s {
        let k = first_position(loan_ids(s.loans), loan_id)->0;
        let l = s.loans[k];
        let y = l.item_id;
        returned_unit_has_its_item(s, k);
        let i = first_position(item_ids(s.items), y)->0;
        let back = t.loans[k];
        assert(t.loans =~= s.loans.update(k, back));
        assert(!holds_unit_of(back, y));
        assert forall|j: int| 0 <= j < t.items.len() implies {
            &&& #[trigger] t.items[j].available_quantity <= t.items[j].total_quantity
            &&& t.items[j].total_quantity - t.items[j].available_quantity == units_out(
                t.loans,
                t.items[j].id,
            )
        } by {
            lemma_units_out_update(s.loans, k, back, s.items[j].id);
            if j != i {
                assert(s.items[j].id != y);
            }
        }
        assert forall|m: int|
            0 <= m < t.loans.len() && #[trigger] t.loans[m].status == LoanStatus::Active
            implies has_item(t.items, t.loans[m].item_id) by {
            let j = choose|j: int|
                0 <= j < s.items.len() && #[trigger] s.items[j].id == s.loans[m].item_id;
            assert(t.items[j].id == s.items[j].id);
        }
    }
}

/// Extending keeps the service well formed: the loan keeps its unit, its
/// item and its id.
pub proof fn extend_loan_preserves_well_formed(
    s: LendingView,
    borrower: Address,
    loan_id: u64,
    additional_days: u64,
    now: u64,
)
    requires
        s.well_formed(),
    ensures
        extend_loan_outcome(s, borrower, loan_id, additional_days, now).0.well_formed(),
{
    let t = extend_loan_outcome(s, borrower, loan_id, additional_days, now).0;
    if t != s {
        let k = first_position(loan_ids(s.loans), loan_id)->0;
        let longer = t.loans[k];
        assert(t.loans =~= s.loans.update(k, longer));
        assert forall|j: int| 0 <= j < t.items.len() implies t.items[j].total_quantity
            - t.items[j].available_quantity == units_out(t.loans, #[trigger] t.items[j].id) by {
            lemma_units_out_update(s.loans, k, longer, s.items[j].id);
        }
        assert forall|m: int|
            0 <= m < t.loans.len() && #[trigger] t.loans[m].status == LoanStatus::Active
            implies has_item(t.items, t.loans[m].item_id) by {
            assert(s.loans[m].status == LoanStatus::Active);
            assert(s.loans[m].item_id == t.loans[m].item_id);
        }
    }
}

/// In a well-formed service every unit of the inventory is either
/// available or kept out by exactly one active loan.
pub proof fn units_are_available_or_on_loan(s: LendingView)
    requires
        s.well_formed(),
    ensures
        total_units(s.items) == available_units(s.items) + s.loans.filter(is_active()).len(),
{
    lemma_units_split(s.items, s.loans);
    lemma_units_out_of_items_counts_active(s.items, s.loans);
}

/// In a well-formed service the statistics never find fewer units than
/// available ones, and their borrowed units are the active loans.
pub proof fn statistics_count_borrowed_units_as_active_loans(s: LendingView, now: u64)
    requires
        s.well_formed(),
    ensures
        statistics_outcome(s, now) != Err::<Statistics, Abort>(Abort::SubtractOverflow),
        statistics_outcome(s, now) matches Ok(st) ==> st.borrowed_units == s.loans.filter(
            is_active(),
        ).len(),
{
    units_are_available_or_on_loan(s);
}

/// Initialization happens once: a second call is refused and changes nothing.
pub proof fn initialize_only_once(s: LendingView, first: Address, second: Address)
    ensures
        initialize_outcome(initialize_outcome(s, first).0, second) == (
            initialize_outcome(s, first).0,
            Reply::AlreadyInitialized,
        ),
{
}

/// A loan is extended at most once: right after a successful extension,
/// a valid request to extend the same loan again is refused as already
/// extended, whatever the time.
pub proof fn extension_only_once(
    s: LendingView,
    borrower: Address,
    loan_id: u64,
    days: u64,
    now: u64,
    more_days: u64,
    later: u64,
)
    requires
        extend_loan_outcome(s, borrower, loan_id, days, now).1 == Ok::<Reply, Abort>(
            Reply::LoanExtended,
        ),
        1 <= more_days <= MAX_EXTENSION_DAYS,
    ensures
        extend_loan_outcome(
            extend_loan_outcome(s, borrower, loan_id, days, now).0,
            borrower,
            loan_id,
            more_days,
            later,
        ).1 == Ok::<Reply, Abort>(Reply::AlreadyExtended),
{
    let t = extend_loan_outcome(s, borrower, loan_id, days, now).0;
    let k = first_position(loan_ids(s.loans), loan_id)->0;
    assert(loan_ids(t.loans) =~= loan_ids(s.loans));
}

/// In a well-formed service, returning the unit of a loan just made (by its
/// borrower, at any later time) succeeds, and leaves every item with the
/// quantities it had before the loan; the loan ends completed, or overdue
/// when returned after its planned return date.
pub proof fn return_undoes_borrow(
    s: LendingView,
    borrower: Address,
    item_id: u64,
    purpose: String,
    duration_days: u64,
    now: u64,
    later: u64,
)
    requires
        s.well_formed(),
        borrow_item_outcome(s, borrower, item_id, purpose, duration_days, now).1 == Ok::<
            Reply,
            Abort,
        >(Reply::ItemBorrowed),
    ensures
        ({
            let lent = borrow_item_outcome(s, borrower, item_id, purpose, duration_days, now).0;
            let back = return_item_outcome(lent, borrower, (s.loan_count + 1) as u64, later);
            &&& back.1 == Ok::<Reply, Abort>(Reply::ItemReturned)
            &&& back.0.items.len() == s.items.len()
            &&& forall|i: int|
                0 <= i < s.items.len() ==> {
                    &&& #[trigger] back.0.items[i].id == s.items[i].id
                    &&& back.0.items[i].total_quantity == s.items[i].total_quantity
                    &&& back.0.items[i].available_quantity == s.items[i].available_quantity
                }
            &&& back.0.loans.len() == s.loans.len() + 1
            &&& back.0.loans[s.loans.len() as int].status == if later
                > lent.loans[s.loans.len() as int].planned_return_date {
                LoanStatus::Overdue
            } else {
                LoanStatus::Completed
            }
        }),
{
    let lent = borrow_item_outcome(s, borrower, item_id, purpose, duration_days, now).0;
    let n = s.loans.len() as int;
    let id = (s.loan_count + 1) as u64;
    let i = first_position(item_ids(s.items), item_id)->0;
    assert(lent.loans[n].id == id);
    assert(is_first_position(loan_ids(lent.loans), id, n));
    lemma_first_position_is(loan_ids(lent.loans), id, n);
    assert(item_ids(lent.items) =~= item_ids(s.items));
    assert(lent.items[i].available_quantity < u32::MAX);
}

/// In a well-formed service, the admin's removal of an item is refused
/// exactly when an active loan keeps one of its units out.
pub proof fn removal_refused_while_on_loan(s: LendingView, caller: Address, item_id: u64)
    requires
        s.well_formed(),
        admin_check(s, caller) is Ok,
        first_position(item_ids(s.items), item_id) is Some,
    ensures
        ({
            let i = first_position(item_ids(s.items), item_id)->0;
            remove_item_outcome(s, caller, item_id).1 == Ok::<Reply, Abort>(
                Reply::UnitsStillBorrowed,
            ) <==> units_out(s.loans, s.items[i].id) > 0
        }),
{
}

/// In a well-formed service, the item with id `item_id` is the first one
/// with that id.
proof fn item_is_first_with_its_id(s: LendingView, i: int)
    requires
        s.well_formed(),
        0 <= i < s.items.len(),
    ensures
        first_position(item_ids(s.items), s.items[i].id) == Some(i),
{
    assert forall|j: int| 0 <= j < i implies item_ids(s.items)[j] != s.items[i].id by {
        assert(s.items[j].id != s.items[i].id);
    }
    lemma_first_position_is(item_ids(s.items), s.items[i].id, i);
}

/// In a well-formed service, the loan at position `k` is the first one with
/// its id.
proof fn loan_is_first_with_its_id(s: LendingView, k: int)
    requires
        s.well_formed(),
        0 <= k < s.loans.len(),
    ensures
        first_position(loan_ids(s.loans), s.loans[k].id) == Some(k),
{
    assert forall|j: int| 0 <= j < k implies loan_ids(s.loans)[j] != s.loans[k].id by {
        assert(s.loans[j].id == j + 1);
    }
    lemma_first_position_is(loan_ids(s.loans), s.loans[k].id, k);
}

/// An item under maintenance is never lent out: in a well-formed service,
/// a valid request to borrow it is refused and changes nothing. It is
/// refused as under maintenance, unless it has no available unit at all,
/// in which case it is refused as unavailable.
pub proof fn borrowing_under_maintenance_is_refused(
    s: LendingView,
    borrower: Address,
    i: int,
    purpose: String,
    duration_days: u64,
    now: u64,
)
    requires
        s.well_formed(),
        0 <= i < s.items.len(),
        s.items[i].status == ItemStatus::UnderMaintenance,
        1 <= duration_days <= MAX_LOAN_DAYS,
    ensures
        ({
            let out = borrow_item_outcome(s, borrower, s.items[i].id, purpose, duration_days, now);
            &&& out.0 == s
            &&& out.1 == Ok::<Reply, Abort>(
                if s.items[i].available_quantity == 0 {
                    Reply::ItemUnavailable
                } else {
                    Reply::ItemUnderMaintenance
                },
            )
        }),
{
    item_is_first_with_its_id(s, i);
}

/// A return records its time: in a well-formed service, after a successful
/// return of the loan at position `k` at time `now`, that loan's return date
/// is `now`, it is overdue exactly when `now` is past its planned return
/// date and completed otherwise, and nothing else of it changes.
pub proof fn return_records_its_time(s: LendingView, borrower: Address, k: int, now: u64)
    requires
        s.well_formed(),
        0 <= k < s.loans.len(),
        return_item_outcome(s, borrower, s.loans[k].id, now).1 == Ok::<Reply, Abort>(
            Reply::ItemReturned,
        ),
    ensures
        ({
            let after = return_item_outcome(s, borrower, s.loans[k].id, now).0;
            let l = s.loans[k];
            &&& after.loans.len() == s.loans.len()
            &&& after.loans[k].actual_return_date == now
            &&& after.loans[k].status == if now > l.planned_return_date {
                LoanStatus::Overdue
            } else {
                LoanStatus::Completed
            }
            &&& after.loans[k].id == l.id
            &&& after.loans[k].item_id == l.item_id
            &&& after.loans[k].borrower == l.borrower
            &&& after.loans[k].planned_return_date == l.planned_return_date
            &&& after.loans[k].extended == l.extended
            &&& forall|m: int| 0 <= m < s.loans.len() && m != k ==> after.loans[m] == s.loans[m]
        }),
{
    loan_is_first_with_its_id(s, k);
}

/// The admin sets an item's status to whatever is asked, any status: in a
/// well-formed service, the admin's request to set the status of the item
/// at position `i` succeeds, that item then has the new status and is
/// otherwise unchanged, and no other item changes.
pub proof fn status_update_sets_the_status(
    s: LendingView,
    caller: Address,
    i: int,
    new_status: ItemStatus,
)
    requires
        s.well_formed(),
        admin_check(s, caller) is Ok,
        0 <= i < s.items.len(),
    ensures
        ({
            let out = update_item_status_outcome(s, caller, s.items[i].id, new_status);
            &&& out.1 == Ok::<Reply, Abort>(Reply::ItemStatusUpdated)
            &&& out.0.items.len() == s.items.len()
            &&& out.0.items[i].status == new_status
            &&& out.0.items[i].id == s.items[i].id
            &&& out.0.items[i].total_quantity == s.items[i].total_quantity
            &&& out.0.items[i].available_quantity == s.items[i].available_quantity
            &&& forall|j: int| 0 <= j < s.items.len() && j != i ==> out.0.items[j] == s.items[j]
            &&& out.0.loans == s.loans
        }),
{
    item_is_first_with_its_id(s, i);
}

/// The available items are exactly the items with at least one available
/// unit, whatever the other units do.
pub proof fn available_items_are_those_with_a_free_unit(items: Seq<Item>)
    ensures
        forall|j: int|
            0 <= j < items.filter(has_available_units()).len() ==> {
                &&& #[trigger] items.filter(has_available_units())[j].available_quantity > 0
                &&& items.contains(items.filter(has_available_units())[j])
            },
        forall|i: int|
            0 <= i < items.len() && #[trigger] items[i].available_quantity > 0 ==> items.filter(
                has_available_units(),
            ).contains(items[i]),
{
    let listed = items.filter(has_available_units());
    assert forall|j: int| 0 <= j < listed.len() implies {
        &&& #[trigger] listed[j].available_quantity > 0
        &&& items.contains(listed[j])
    } by {
        items.lemma_filter_pred(has_available_units(), j);
        assert(listed.contains(listed[j]));
        items.lemma_filter_contains_rev(has_available_units(), listed[j]);
    }
    assert forall|i: int|
        0 <= i < items.len() && #[trigger] items[i].available_quantity > 0 implies listed.contains(
        items[i],
    ) by {
        items.lemma_filter_contains(has_available_units(), i);
    }
}

/// A user's loans are exactly the loans that user took, whatever their
/// status: active, completed and overdue loans all stay in the history.
pub proof fn user_loans_are_all_loans_they_took(loans: Seq<Loan>, borrower: Seq<char>)
    ensures
        forall|j: int|
            0 <= j < loans.filter(taken_by(borrower)).len() ==> {
                &&& (#[trigger] loans.filter(taken_by(borrower))[j]).borrower@ == borrower
                &&& loans.contains(loans.filter(taken_by(borrower))[j])
            },
        forall|k: int|
            0 <= k < loans.len() && (#[trigger] loans[k]).borrower@ == borrower ==> loans.filter(
                taken_by(borrower),
            ).contains(loans[k]),
{
    let listed = loans.filter(taken_by(borrower));
    assert forall|j: int| 0 <= j < listed.len() implies {
        &&& (#[trigger] listed[j]).borrower@ == borrower
        &&& loans.contains(listed[j])
    } by {
        loans.lemma_filter_pred(taken_by(borrower), j);
        assert(listed.contains(listed[j]));
        loans.lemma_filter_contains_rev(taken_by(borrower), listed[j]);
    }
    assert forall|k: int|
        0 <= k < loans.len() && (#[trigger] loans[k]).borrower@ == borrower implies listed.contains(
        loans[k],
    ) by {
        loans.lemma_filter_contains(taken_by(borrower), k);
    }
}

} // verus!
