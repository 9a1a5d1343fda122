use vstd::prelude::*;

use crate::types::{
    Abort, Address, Item, ItemCategory, ItemStatus, Loan, LoanStatus, Reply, Statistics,
};

verus! {

/// Length of a day in seconds.
pub const SECONDS_PER_DAY: u64 = 86400;

/// Longest loan, in days.
pub const MAX_LOAN_DAYS: u64 = 30;

/// Longest extension of a loan, in days.
pub const MAX_EXTENSION_DAYS: u64 = 7;

/// The state of the lending service: the admin once there is one, the
/// inventory, the loan records, and the counters that number new items
/// and new loans.
pub struct LendingView {
    pub admin: Option<Address>,
    pub items: Seq<Item>,
    pub loans: Seq<Loan>,
    pub item_count: u64,
    pub loan_count: u64,
}

/// The state of a service that has not been initialized.
pub open spec fn fresh_service() -> LendingView {
    LendingView {
        admin: None,
        items: Seq::empty(),
        loans: Seq::empty(),
        item_count: 0,
        loan_count: 0,
    }
}

/// What a request does: the state after it, and its reply or abort.
/// An abort leaves the state as it was.
pub type Outcome = (LendingView, Result<Reply, Abort>);

/// The request was carried out: it was neither aborted nor refused.
pub open spec fn accepted(r: Result<Reply, Abort>) -> bool {
    r matches Ok(reply) && !reply.spec_is_error()
}

pub open spec fn item_ids(items: Seq<Item>) -> Seq<u64> {
    items.map_values(|it: Item| it.id)
}

pub open spec fn loan_ids(loans: Seq<Loan>) -> Seq<u64> {
    loans.map_values(|l: Loan| l.id)
}

/// `i` is the first position at which `id` occurs in `ids`.
pub open spec fn is_first_position(ids: Seq<u64>, id: u64, i: int) -> bool {
    &&& 0 <= i < ids.len()
    &&& ids[i] == id
    &&& forall|j: int| 0 <= j < i ==> ids[j] != id
}

/// The first position of `id` in `ids`, if `id` occurs there.
pub open spec fn first_position(ids: Seq<u64>, id: u64) -> Option<int> {
    if exists|i: int| is_first_position(ids, id, i) {
        Some(choose|i: int| is_first_position(ids, id, i))
    } else {
        None
    }
}

pub proof fn lemma_first_position_is(ids: Seq<u64>, id: u64, i: int)
    requires
        is_first_position(ids, id, i),
    ensures
        first_position(ids, id) == Some(i),
{
    let k = choose|k: int| is_first_position(ids, id, k);
    assert(is_first_position(ids, id, k));
    if k < i {
        assert(ids[k] != id);
    }
    if i < k {
        assert(ids[i] != id);
    }
}

pub proof fn lemma_first_position_absent(ids: Seq<u64>, id: u64)
    requires
        forall|j: int| 0 <= j < ids.len() ==> ids[j] != id,
    ensures
        first_position(ids, id) is None,
{
    if exists|i: int| is_first_position(ids, id, i) {
        let k = choose|k: int| is_first_position(ids, id, k);
        assert(ids[k] != id);
    }
}

/// Whenever `id` occurs in `ids`, it has a first position.
pub proof fn lemma_first_position_exists(ids: Seq<u64>, id: u64, i: int)
    requires
        0 <= i < ids.len(),
        ids[i] == id,
    ensures
        first_position(ids, id) is Some,
        first_position(ids, id) matches Some(k) && is_first_position(ids, id, k),
    decreases i,
{
    if forall|j: int| 0 <= j < i ==> ids[j] != id {
        lemma_first_position_is(ids, id, i);
    } else {
        let j = choose|j: int| 0 <= j < i && ids[j] == id;
        lemma_first_position_exists(ids, id, j);
    }
}

/// The admin check of admin actions: the service must have an admin, and
/// the caller must be that admin.
pub open spec fn admin_check(s: LendingView, caller: Address) -> Result<(), Abort> {
    match s.admin {
        None => Err(Abort::NotInitialized),
        Some(a) => if a@ == caller@ {
            Ok(())
        } else {
            Err(Abort::NotAdmin)
        },
    }
}

/// Setting the admin: allowed once; it also resets both counters.
pub open spec fn initialize_outcome(s: LendingView, admin: Address) -> (LendingView, Reply) {
    if s.admin is Some {
        (s, Reply::AlreadyInitialized)
    } else {
        (LendingView { admin: Some(admin), item_count: 0, loan_count: 0, ..s }, Reply::Initialized)
    }
}

/// Adding an item with `quantity` units, all of them available; its id is
/// the next value of the item counter.
pub open spec fn add_item_outcome(
    s: LendingView,
    caller: Address,
    name: String,
    category: ItemCategory,
    description: String,
    location: String,
    quantity: u32,
) -> Outcome {
    match admin_check(s, caller) {
        Err(e) => (s, Err(e)),
        Ok(_) => if quantity == 0 {
            (s, Err(Abort::ZeroQuantity))
        } else if s.item_count == u64::MAX {
            (s, Err(Abort::AddOverflow))
        } else {
            let id = (s.item_count + 1) as u64;
            let item = Item {
                id,
                name,
                category,
                description,
                location,
                status: ItemStatus::Available,
                total_quantity: quantity,
                available_quantity: quantity,
            };
            (LendingView { items: s.items.push(item), item_count: id, ..s }, Ok(Reply::ItemAdded))
        },
    }
}

/// Setting the status of the (first) item with id `item_id`.
pub open spec fn update_item_status_outcome(
    s: LendingView,
    caller: Address,
    item_id: u64,
    new_status: ItemStatus,
) -> Outcome {
    match admin_check(s, caller) {
        Err(e) => (s, Err(e)),
        Ok(_) => match first_position(item_ids(s.items), item_id) {
            None => (s, Ok(Reply::ItemNotFound)),
            Some(i) => {
                let item = Item { status: new_status, ..s.items[i] };
                (LendingView { items: s.items.update(i, item), ..s }, Ok(Reply::ItemStatusUpdated))
            },
        },
    }
}

/// Adding `additional` units to the (first) item with id `item_id`; the
/// item becomes available when it then has an available unit.
pub open spec fn update_item_quantity_outcome(
    s: LendingView,
    caller: Address,
    item_id: u64,
    additional: u32,
) -> Outcome {
    match admin_check(s, caller) {
        Err(e) => (s, Err(e)),
        Ok(_) => match first_position(item_ids(s.items), item_id) {
            None => (s, Ok(Reply::ItemNotFound)),
            Some(i) => {
                let it = s.items[i];
                if it.total_quantity + additional > u32::MAX || it.available_quantity + additional
                    > u32::MAX {
                    (s, Err(Abort::AddOverflow))
                } else {
                    let available = (it.available_quantity + additional) as u32;
                    let item = Item {
                        total_quantity: (it.total_quantity + additional) as u32,
                        available_quantity: available,
                        status: if available > 0 {
                            ItemStatus::Available
                        } else {
                            it.status
                        },
                        ..it
                    };
                    (
                        LendingView { items: s.items.update(i, item), ..s },
                        Ok(Reply::ItemQuantityUpdated),
                    )
                }
            },
        },
    }
}

/// Removing the (first) item with id `item_id`, refused while some of its
/// units are out.
pub open spec fn remove_item_outcome(s: LendingView, caller: Address, item_id: u64) -> Outcome {
    match admin_check(s, caller) {
        Err(e) => (s, Err(e)),
        Ok(_) => match first_position(item_ids(s.items), item_id) {
            None => (s, Ok(Reply::ItemNotFound)),
            Some(i) => if s.items[i].available_quantity < s.items[i].total_quantity {
                (s, Ok(Reply::UnitsStillBorrowed))
            } else {
                (LendingView { items: s.items.remove(i), ..s }, Ok(Reply::ItemRemoved))
            },
        },
    }
}

/// The loan that borrowing creates.
pub open spec fn new_loan(
    id: u64,
    item_id: u64,
    borrower: Address,
    purpose: String,
    duration_days: u64,
    now: u64,
) -> Loan {
    Loan {
        id,
        item_id,
        borrower,
        purpose,
        borrow_date: now,
        planned_return_date: (now + duration_days * SECONDS_PER_DAY) as u64,
        actual_return_date: 0,
        status: LoanStatus::Active,
        extended: false,
    }
}

/// Borrowing one unit of the (first) item with id `item_id` for
/// `duration_days` days from `now`.
pub open spec fn borrow_item_outcome(
    s: LendingView,
    borrower: Address,
    item_id: u64,
    purpose: String,
    duration_days: u64,
    now: u64,
) -> Outcome {
    if duration_days < 1 || duration_days > MAX_LOAN_DAYS {
        (s, Err(Abort::InvalidLoanDuration))
    } else {
        match first_position(item_ids(s.items), item_id) {
            None => (s, Ok(Reply::ItemNotFound)),
            Some(i) => {
                let it = s.items[i];
                if it.available_quantity == 0 {
                    (s, Ok(Reply::ItemUnavailable))
                } else if it.status == ItemStatus::UnderMaintenance {
                    (s, Ok(Reply::ItemUnderMaintenance))
                } else if s.loan_count == u64::MAX || now + duration_days * SECONDS_PER_DAY
                    > u64::MAX {
                    (s, Err(Abort::AddOverflow))
                } else {
                    let available = (it.available_quantity - 1) as u32;
                    let item = Item {
                        available_quantity: available,
                        status: if available == 0 {
                            ItemStatus::Borrowed
                        } else {
                            it.status
                        },
                        ..it
                    };
                    let id = (s.loan_count + 1) as u64;
                    let loan = new_loan(id, item_id, borrower, purpose, duration_days, now);
                    (
                        LendingView {
                            items: s.items.update(i, item),
                            loans: s.loans.push(loan),
                            loan_count: id,
                            ..s
                        },
                        Ok(Reply::ItemBorrowed),
                    )
                }
            },
        }
    }
}

/// Returning the unit of the (first) loan with id `loan_id` at time `now`:
/// only its borrower may, only once, and a return after the planned
/// return date marks the loan overdue. The unit goes back to the (first)
/// item with the loan's item id, if there is one.
pub open spec fn return_item_outcome(
    s: LendingView,
    borrower: Address,
    loan_id: u64,
    now: u64,
) -> Outcome {
    match first_position(loan_ids(s.loans), loan_id) {
        None => (s, Ok(Reply::LoanNotFound)),
        Some(k) => {
            let l = s.loans[k];
            if l.borrower@ != borrower@ {
                (s, Ok(Reply::NotAuthorizedBorrower))
            } else if l.status != LoanStatus::Active {
                (s, Ok(Reply::LoanAlreadyCompleted))
            } else {
                let loan = Loan {
                    actual_return_date: now,
                    status: if now > l.planned_return_date {
                        LoanStatus::Overdue
                    } else {
                        LoanStatus::Completed
                    },
                    ..l
                };
                let loans = s.loans.update(k, loan);
                match first_position(item_ids(s.items), l.item_id) {
                    None => (LendingView { loans, ..s }, Ok(Reply::ItemReturned)),
                    Some(i) => {
                        let it = s.items[i];
                        if it.available_quantity == u32::MAX {
                            (s, Err(Abort::AddOverflow))
                        } else {
                            let item = Item {
                                available_quantity: (it.available_quantity + 1) as u32,
                                status: if it.status == ItemStatus::Borrowed {
                                    ItemStatus::Available
                                } else {
                                    it.status
                                },
                                ..it
                            };
                            (
                                LendingView { loans, items: s.items.update(i, item), ..s },
                                Ok(Reply::ItemReturned),
                            )
                        }
                    },
                }
            }
        },
    }
}

/// Extending the (first) loan with id `loan_id` by `additional_days` days:
/// only its borrower may, only while it is active and not past its
/// deadline, and only once.
pub open spec fn extend_loan_outcome(
    s: LendingView,
    borrower: Address,
    loan_id: u64,
    additional_days: u64,
    now: u64,
) -> Outcome {
    if additional_days < 1 || additional_days > MAX_EXTENSION_DAYS {
        (s, Err(Abort::InvalidExtension))
    } else {
        match first_position(loan_ids(s.loans), loan_id) {
            None => (s, Ok(Reply::LoanNotFound)),
            Some(k) => {
                let l = s.loans[k];
                if l.borrower@ != borrower@ {
                    (s, Ok(Reply::NotAuthorizedBorrower))
                } else if l.status != LoanStatus::Active {
                    (s, Ok(Reply::LoanNotActive))
                } else if l.extended {
                    (s, Ok(Reply::AlreadyExtended))
                } else if now > l.planned_return_date {
                    (s, Ok(Reply::DeadlinePassed))
                } else if l.planned_return_date + additional_days * SECONDS_PER_DAY > u64::MAX {
                    (s, Err(Abort::AddOverflow))
                } else {
                    let loan = Loan {
                        planned_return_date: (l.planned_return_date + additional_days
                            * SECONDS_PER_DAY) as u64,
                        extended: true,
                        ..l
                    };
                    (LendingView { loans: s.loans.update(k, loan), ..s }, Ok(Reply::LoanExtended))
                }
            },
        }
    }
}

/// Items with at least one available unit.
pub open spec fn has_available_units() -> spec_fn(Item) -> bool {
    |it: Item| it.available_quantity > 0
}

/// Items of category `category`.
pub open spec fn in_category(category: ItemCategory) -> spec_fn(Item) -> bool {
    |it: Item| it.category == category
}

/// Loans taken by the account `borrower`.
pub open spec fn taken_by(borrower: Seq<char>) -> spec_fn(Loan) -> bool {
    |l: Loan| l.borrower@ == borrower
}

/// Loans whose unit is still out.
pub open spec fn is_active() -> spec_fn(Loan) -> bool {
    |l: Loan| l.status == LoanStatus::Active
}

/// Loans whose unit is out and not yet due at `now`.
pub open spec fn is_running(now: u64) -> spec_fn(Loan) -> bool {
    |l: Loan| l.status == LoanStatus::Active && now <= l.planned_return_date
}

/// Loans whose unit came back in time.
pub open spec fn is_completed() -> spec_fn(Loan) -> bool {
    |l: Loan| l.status == LoanStatus::Completed
}

/// Loans that are overdue at `now`: out past their deadline, or returned late.
pub open spec fn is_overdue(now: u64) -> spec_fn(Loan) -> bool {
    |l: Loan|
        (l.status == LoanStatus::Active && now > l.planned_return_date) || l.status
            == LoanStatus::Overdue
}

/// The number of units of all items.
pub open spec fn total_units(items: Seq<Item>) -> nat
    decreases items.len(),
{
    if items.len() == 0 {
        0
    } else {
        total_units(items.drop_last()) + items.last().total_quantity as nat
    }
}

/// The number of available units of all items.
pub open spec fn available_units(items: Seq<Item>) -> nat
    decreases items.len(),
{
    if items.len() == 0 {
        0
    } else {
        available_units(items.drop_last()) + items.last().available_quantity as nat
    }
}

pub proof fn lemma_units_step(items: Seq<Item>, i: int)
    requires
        0 <= i < items.len(),
    ensures
        total_units(items.take(i + 1)) == total_units(items.take(i)) + items[i].total_quantity,
        available_units(items.take(i + 1)) == available_units(items.take(i))
            + items[i].available_quantity,
{
    assert(items.take(i + 1).drop_last() =~= items.take(i));
}

/// The units of a prefix of the inventory are at most those of the whole.
pub proof fn lemma_units_of_prefix(items: Seq<Item>, i: int)
    requires
        0 <= i <= items.len(),
    ensures
        total_units(items.take(i)) <= total_units(items),
        available_units(items.take(i)) <= available_units(items),
    decreases items.len() - i,
{
    if i < items.len() {
        lemma_units_step(items, i);
        lemma_units_of_prefix(items, i + 1);
    } else {
        assert(items.take(i) =~= items);
    }
}

/// The statistics at time `now`; the unit counts are `u32`s, so a count
/// beyond `u32::MAX` aborts, as does an available count above the total.
pub open spec fn statistics_outcome(s: LendingView, now: u64) -> Result<Statistics, Abort> {
    let total = total_units(s.items);
    let available = available_units(s.items);
    if total > u32::MAX || available > u32::MAX {
        Err(Abort::AddOverflow)
    } else if available > total {
        Err(Abort::SubtractOverflow)
    } else {
        Ok(
            Statistics {
                total_item_types: s.items.len() as u32,
                total_units: total as u32,
                available_units: available as u32,
                borrowed_units: (total - available) as u32,
                total_loans: s.loans.len() as u32,
                active_loans: s.loans.filter(is_running(now)).len() as u32,
                completed_loans: s.loans.filter(is_completed()).len() as u32,
                overdue_loans: s.loans.filter(is_overdue(now)).len() as u32,
            },
        )
    }
}

} // verus!
