use vstd::prelude::*;

use crate::model::{
    accepted, add_item_outcome, admin_check, available_units, borrow_item_outcome,
    extend_loan_outcome, first_position, fresh_service, has_available_units, in_category,
    initialize_outcome, is_active, is_completed, is_overdue, is_running, item_ids,
    lemma_first_position_absent, lemma_first_position_is, lemma_units_of_prefix, lemma_units_step,
    loan_ids, remove_item_outcome, return_item_outcome, statistics_outcome, taken_by, total_units,
    update_item_quantity_outcome, update_item_status_outcome, LendingView, MAX_EXTENSION_DAYS,
    MAX_LOAN_DAYS, SECONDS_PER_DAY,
};
use crate::laws::{
    add_item_preserves_well_formed, borrow_item_preserves_well_formed,
    extend_loan_preserves_well_formed, initialize_preserves_well_formed,
    remove_item_preserves_well_formed, return_item_never_aborts, return_item_preserves_well_formed,
    statistics_count_borrowed_units_as_active_loans, update_item_quantity_preserves_well_formed,
    update_item_status_preserves_well_formed, available_items_are_those_with_a_free_unit,
    user_loans_are_all_loans_they_took,
};
use crate::types::{
    Abort, Address, Item, ItemCategory, ItemStatus, Loan, LoanStatus, Reply, Statistics,
};

verus! {

/// The campus lending service: its admin, its inventory, its loan records
/// and the counters that number new items and loans.
pub struct CampusLending {
    admin: Option<Address>,
    items: Vec<Item>,
    loans: Vec<Loan>,
    item_count: u64,
    loan_count: u64,
}

impl View for CampusLending {
    type V = LendingView;

    closed spec fn view(&self) -> LendingView {
        LendingView {
            admin: self.admin,
            items: self.items@,
            loans: self.loans@,
            item_count: self.item_count,
            loan_count: self.loan_count,
        }
    }
}

/// The position `r` as an integer.
pub open spec fn position(r: Option<usize>) -> Option<int> {
    match r {
        Some(i) => Some(i as int),
        None => None,
    }
}

impl CampusLending {
    /// A service that has not been initialized: no admin, no items, no loans.
    pub fn new() -> (c: Self)
        ensures
            c@ == fresh_service(),
            c@.well_formed(),
    {
        CampusLending {
            admin: None,
            items: Vec::new(),
            loans: Vec::new(),
            item_count: 0,
            loan_count: 0,
        }
    }

    /// The service whose stored state is made of these parts.
    pub fn from_storage(
        admin: Option<Address>,
        items: Vec<Item>,
        loans: Vec<Loan>,
        item_count: u64,
        loan_count: u64,
    ) -> (c: Self)
        ensures
            c@ == (LendingView { admin, items: items@, loans: loans@, item_count, loan_count }),
    {
        CampusLending { admin, items, loans, item_count, loan_count }
    }

    /// The admin, once the service is initialized.
    pub fn admin(&self) -> (a: &Option<Address>)
        ensures
            *a == self@.admin,
    {
        &self.admin
    }

    /// The id of the last item added (0 before the first).
    pub fn item_count(&self) -> (n: u64)
        ensures
            n == self@.item_count,
    {
        self.item_count
    }

    /// The id of the last loan made (0 before the first).
    pub fn loan_count(&self) -> (n: u64)
        ensures
            n == self@.loan_count,
    {
        self.loan_count
    }

    /// The position of the first item with id `item_id`.
    fn find_item(&self, item_id: u64) -> (r: Option<usize>)
        ensures
            position(r) == first_position(item_ids(self@.items), item_id),
    {
        let mut i: usize = 0;
        while i < self.items.len()
            invariant
                0 <= i <= self.items@.len(),
                forall|j: int| 0 <= j < i ==> self.items@[j].id != item_id,
            decreases self.items@.len() - i,
        {
            if self.items[i].id == item_id {
                proof {
                    lemma_first_position_is(item_ids(self.items@), item_id, i as int);
                }
                return Some(i);
            }
            i = i + 1;
        }
        proof {
            lemma_first_position_absent(item_ids(self.items@), item_id);
        }
        None
    }

    /// The position of the first loan with id `loan_id`.
    fn find_loan(&self, loan_id: u64) -> (r: Option<usize>)
        ensures
            position(r) == first_position(loan_ids(self@.loans), loan_id),
    {
        let mut k: usize = 0;
        while k < self.loans.len()
            invariant
                0 <= k <= self.loans@.len(),
                forall|j: int| 0 <= j < k ==> self.loans@[j].id != loan_id,
            decreases self.loans@.len() - k,
        {
            if self.loans[k].id == loan_id {
                proof {
                    lemma_first_position_is(loan_ids(self.loans@), loan_id, k as int);
                }
                return Some(k);
            }
            k = k + 1;
        }
        proof {
            lemma_first_position_absent(loan_ids(self.loans@), loan_id);
        }
        None
    }

    /// Sets the admin. Only the first call does so; a later one is refused.
    pub fn initialize(&mut self, admin: Address) -> (r: Reply)
        ensures
            (final(self)@, r) == initialize_outcome(old(self)@, admin),
            r.is_error() ==> final(self)@ == old(self)@,
            old(self)@.well_formed() ==> final(self)@.well_formed(),
    {
        proof {
            if old(self)@.well_formed() {
                initialize_preserves_well_formed(old(self)@, admin);
            }
        }
        if self.admin.is_some() {
            return Reply::AlreadyInitialized;
        }
        self.admin = Some(admin);
        self.item_count = 0;
        self.loan_count = 0;
        Reply::Initialized
    }

    /// Checks that `caller` is the admin: aborts when there is no admin
    /// yet, or when the caller is someone else.
    pub fn require_admin(&self, caller: &Address) -> (r: Result<(), Abort>)
        ensures
            r == admin_check(self@, *caller),
    {
        match &self.admin {
            None => Err(Abort::NotInitialized),
            Some(a) => if a.same_as(caller) {
                Ok(())
            } else {
                Err(Abort::NotAdmin)
            },
        }
    }

    /// Adds a new item to the inventory with `quantity` units, all of them
    /// available (admin only). The item's id is the previous item count plus one.
    pub fn add_item(
        &mut self,
        admin: &Address,
        name: String,
        category: ItemCategory,
        description: String,
        location: String,
        quantity: u32,
    ) -> (r: Result<Reply, Abort>)
        ensures
            (final(self)@, r) == add_item_outcome(
                old(self)@,
                *admin,
                name,
                category,
                description,
                location,
                quantity,
            ),
            !accepted(r) ==> final(self)@ == old(self)@,
            old(self)@.well_formed() ==> final(self)@.well_formed(),
    {
        proof {
            if old(self)@.well_formed() {
                add_item_preserves_well_formed(
                    old(self)@,
                    *admin,
                    name,
                    category,
                    description,
                    location,
                    quantity,
                );
            }
        }
        if let Err(e) = self.require_admin(admin) {
            return Err(e);
        }
        if quantity == 0 {
            return Err(Abort::ZeroQuantity);
        }
        if self.item_count == u64::MAX {
            return Err(Abort::AddOverflow);
        }
        let id = self.item_count + 1;
        let item = Item {
            id,
            name,
            category,
            description,
            location,
            status: ItemStatus::Available,
            total_quantity: quantity,
            available_quantity: quantity,
        };
        self.items.push(item);
        self.item_count = id;
        Ok(Reply::ItemAdded)
    }

    /// Sets the status of the item with id `item_id` (admin only).
    pub fn update_item_status(
        &mut self,
        admin: &Address,
        item_id: u64,
        new_status: ItemStatus,
    ) -> (r: Result<Reply, Abort>)
        ensures
            (final(self)@, r) == update_item_status_outcome(old(self)@, *admin, item_id, new_status),
            !accepted(r) ==> final(self)@ == old(self)@,
            old(self)@.well_formed() ==> final(self)@.well_formed(),
    {
        proof {
            if old(self)@.well_formed() {
                update_item_status_preserves_well_formed(old(self)@, *admin, item_id, new_status);
            }
        }
        if let Err(e) = self.require_admin(admin) {
            return Err(e);
        }
        match self.find_item(item_id) {
            None => Ok(Reply::ItemNotFound),
            Some(i) => {
                self.items[i].status = new_status;
                Ok(Reply::ItemStatusUpdated)
            },
        }
    }

    /// Adds `additional_quantity` units to the item with id `item_id`
    /// (admin only); the item is available again when it has an available unit.
    pub fn update_item_quantity(
        &mut self,
        admin: &Address,
        item_id: u64,
        additional_quantity: u32,
    ) -> (r: Result<Reply, Abort>)
        ensures
            (final(self)@, r) == update_item_quantity_outcome(
                old(self)@,
                *admin,
                item_id,
                additional_quantity,
            ),
            !accepted(r) ==> final(self)@ == old(self)@,
            old(self)@.well_formed() ==> final(self)@.well_formed(),
    {
        proof {
            if old(self)@.well_formed() {
                update_item_quantity_preserves_well_formed(
                    old(self)@,
                    *admin,
                    item_id,
                    additional_quantity,
                );
            }
        }
        if let Err(e) = self.require_admin(admin) {
            return Err(e);
        }
        match self.find_item(item_id) {
            None => Ok(Reply::ItemNotFound),
            Some(i) => {
                let total = self.items[i].total_quantity;
                let available = self.items[i].available_quantity;
                if total > u32::MAX - additional_quantity || available > u32::MAX
                    - additional_quantity {
                    return Err(Abort::AddOverflow);
                }
                let mut item = self.items[i].clone();
                item.total_quantity = total + additional_quantity;
                item.available_quantity = available + additional_quantity;
                if item.available_quantity > 0 {
                    item.status = ItemStatus::Available;
                }
                self.items.set(i, item);
                Ok(Reply::ItemQuantityUpdated)
            },
        }
    }

    /// Removes the item with id `item_id` from the inventory (admin only),
    /// unless some of its units are still out.
    pub fn remove_item(&mut self, admin: &Address, item_id: u64) -> (r: Result<Reply, Abort>)
        ensures
            (final(self)@, r) == remove_item_outcome(old(self)@, *admin, item_id),
            !accepted(r) ==> final(self)@ == old(self)@,
            old(self)@.well_formed() ==> final(self)@.well_formed(),
    {
        proof {
            if old(self)@.well_formed() {
                remove_item_preserves_well_formed(old(self)@, *admin, item_id);
            }
        }
        if let Err(e) = self.require_admin(admin) {
            return Err(e);
        }
        match self.find_item(item_id) {
            None => Ok(Reply::ItemNotFound),
            Some(i) => {
                if self.items[i].available_quantity < self.items[i].total_quantity {
                    return Ok(Reply::UnitsStillBorrowed);
                }
                self.items.remove(i);
                Ok(Reply::ItemRemoved)
            },
        }
    }
    /// Lends one unit of the item with id `item_id` to `borrower` for
    /// `duration_days` days (1 to 30) from `now`, and records the loan.
    pub fn borrow_item(
        &mut self,
        borrower: Address,
        item_id: u64,
        purpose: String,
        duration_days: u64,
        now: u64,
    ) -> (r: Result<Reply, Abort>)
        ensures
            (final(self)@, r) == borrow_item_outcome(
                old(self)@,
                borrower,
                item_id,
                purpose,
                duration_days,
                now,
            ),
            !accepted(r) ==> final(self)@ == old(self)@,
            old(self)@.well_formed() ==> final(self)@.well_formed(),
    {
        proof {
            if old(self)@.well_formed() {
                borrow_item_preserves_well_formed(
                    old(self)@,
                    borrower,
                    item_id,
                    purpose,
                    duration_days,
                    now,
                );
            }
        }
        if duration_days < 1 || duration_days > MAX_LOAN_DAYS {
            return Err(Abort::InvalidLoanDuration);
        }
        let i = match self.find_item(item_id) {
            None => {
                return Ok(Reply::ItemNotFound);
            },
            Some(i) => i,
        };
        if self.items[i].available_quantity == 0 {
            return Ok(Reply::ItemUnavailable);
        }
        if self.items[i].status == ItemStatus::UnderMaintenance {
            return Ok(Reply::ItemUnderMaintenance);
        }
        if self.loan_count == u64::MAX || now > u64::MAX - duration_days * SECONDS_PER_DAY {
            return Err(Abort::AddOverflow);
        }
        let mut item = self.items[i].clone();
        item.available_quantity = item.available_quantity - 1;
        if item.available_quantity == 0 {
            item.status = ItemStatus::Borrowed;
        }
        self.items.set(i, item);
        let id = self.loan_count + 1;
        let loan = Loan {
            id,
            item_id,
            borrower,
            purpose,
            borrow_date: now,
            planned_return_date: now + duration_days * SECONDS_PER_DAY,
            actual_return_date: 0,
            status: LoanStatus::Active,
            extended: false,
        };
        self.loans.push(loan);
        self.loan_count = id;
        Ok(Reply::ItemBorrowed)
    }

    /// Takes back the unit of the loan with id `loan_id` at time `now`
    /// (its borrower only, once); a return after the planned return date
    /// marks the loan overdue, otherwise it is completed.
    pub fn return_item(&mut self, borrower: &Address, loan_id: u64, now: u64) -> (r: Result<
        Reply,
        Abort,
    >)
        ensures
            (final(self)@, r) == return_item_outcome(old(self)@, *borrower, loan_id, now),
            !accepted(r) ==> final(self)@ == old(self)@,
            old(self)@.well_formed() ==> final(self)@.well_formed(),
            old(self)@.well_formed() ==> r is Ok,
    {
        proof {
            if old(self)@.well_formed() {
                return_item_preserves_well_formed(old(self)@, *borrower, loan_id, now);
                return_item_never_aborts(old(self)@, *borrower, loan_id, now);
            }
        }
        let k = match self.find_loan(loan_id) {
            None => {
                return Ok(Reply::LoanNotFound);
            },
            Some(k) => k,
        };
        if !self.loans[k].borrower.same_as(borrower) {
            return Ok(Reply::NotAuthorizedBorrower);
        }
        if self.loans[k].status != LoanStatus::Active {
            return Ok(Reply::LoanAlreadyCompleted);
        }
        let target = self.find_item(self.loans[k].item_id);
        if let Some(i) = target {
            if self.items[i].available_quantity == u32::MAX {
                return Err(Abort::AddOverflow);
            }
        }
        let mut loan = self.loans[k].clone();
        loan.actual_return_date = now;
        if now > loan.planned_return_date {
            loan.status = LoanStatus::Overdue;
        } else {
            loan.status = LoanStatus::Completed;
        }
        self.loans.set(k, loan);
        if let Some(i) = target {
            let mut item = self.items[i].clone();
            item.available_quantity = item.available_quantity + 1;
            if item.status == ItemStatus::Borrowed && item.available_quantity > 0 {
                item.status = ItemStatus::Available;
            }
            self.items.set(i, item);
        }
        Ok(Reply::ItemReturned)
    }

    /// Extends the loan with id `loan_id` by `additional_days` days (1 to 7):
    /// its borrower only, while it is active and not past its deadline at
    /// `now`, and only once.
    pub fn extend_loan(
        &mut self,
        borrower: &Address,
        loan_id: u64,
        additional_days: u64,
        now: u64,
    ) -> (r: Result<Reply, Abort>)
        ensures
            (final(self)@, r) == extend_loan_outcome(
                old(self)@,
                *borrower,
                loan_id,
                additional_days,
                now,
            ),
            !accepted(r) ==> final(self)@ == old(self)@,
            old(self)@.well_formed() ==> final(self)@.well_formed(),
    {
        proof {
            if old(self)@.well_formed() {
                extend_loan_preserves_well_formed(
                    old(self)@,
                    *borrower,
                    loan_id,
                    additional_days,
                    now,
                );
            }
        }
        if additional_days < 1 || additional_days > MAX_EXTENSION_DAYS {
            return Err(Abort::InvalidExtension);
        }
        let k = match self.find_loan(loan_id) {
            None => {
                return Ok(Reply::LoanNotFound);
            },
            Some(k) => k,
        };
        if !self.loans[k].borrower.same_as(borrower) {
            return Ok(Reply::NotAuthorizedBorrower);
        }
        if self.loans[k].status != LoanStatus::Active {
            return Ok(Reply::LoanNotActive);
        }
        if self.loans[k].extended {
            return Ok(Reply::AlreadyExtended);
        }
        if now > self.loans[k].planned_return_date {
            return Ok(Reply::DeadlinePassed);
        }
        if self.loans[k].planned_return_date > u64::MAX - additional_days * SECONDS_PER_DAY {
            return Err(Abort::AddOverflow);
        }
        let mut loan = self.loans[k].clone();
        loan.planned_return_date = loan.planned_return_date + additional_days * SECONDS_PER_DAY;
        loan.extended = true;
        self.loans.set(k, loan);
        Ok(Reply::LoanExtended)
    }
    /// All items of the inventory.
    pub fn get_all_items(&self) -> (r: Vec<Item>)
        ensures
            r@ == self@.items,
    {
        self.items.clone()
    }

    /// The items that have at least one available unit.
    pub fn get_available_items(&self) -> (r: Vec<Item>)
        ensures
            r@ == self@.items.filter(has_available_units()),
            forall|j: int|
                0 <= j < r@.len() ==> (#[trigger] r@[j]).available_quantity > 0
                    && self@.items.contains(r@[j]),
            forall|i: int|
                0 <= i < self@.items.len() && (#[trigger] self@.items[i]).available_quantity > 0
                    ==> r@.contains(self@.items[i]),
    {
        proof {
            available_items_are_those_with_a_free_unit(self@.items);
        }
        let mut result: Vec<Item> = Vec::new();
        let mut i: usize = 0;
        while i < self.items.len()
            invariant
                0 <= i <= self.items@.len(),
                result@ == self.items@.take(i as int).filter(has_available_units()),
            decreases self.items@.len() - i,
        {
            proof {
                let prefix = self.items@.take(i as int);
                assert(self.items@.take(i + 1) =~= prefix.push(self.items@[i as int]));
                prefix.lemma_filter_push(self.items@[i as int], has_available_units());
            }
            if self.items[i].available_quantity > 0 {
                result.push(self.items[i].clone());
            }
            i = i + 1;
        }
        proof {
            assert(self.items@.take(self.items@.len() as int) =~= self.items@);
        }
        result
    }

    /// The items of category `category`.
    pub fn get_items_by_category(&self, category: ItemCategory) -> (r: Vec<Item>)
        ensures
            r@ == self@.items.filter(in_category(category)),
    {
        let mut result: Vec<Item> = Vec::new();
        let mut i: usize = 0;
        while i < self.items.len()
            invariant
                0 <= i <= self.items@.len(),
                result@ == self.items@.take(i as int).filter(in_category(category)),
            decreases self.items@.len() - i,
        {
            proof {
                let prefix = self.items@.take(i as int);
                assert(self.items@.take(i + 1) =~= prefix.push(self.items@[i as int]));
                prefix.lemma_filter_push(self.items@[i as int], in_category(category));
            }
            if self.items[i].category == category {
                result.push(self.items[i].clone());
            }
            i = i + 1;
        }
        proof {
            assert(self.items@.take(self.items@.len() as int) =~= self.items@);
        }
        result
    }

    /// All loan records.
    pub fn get_all_loans(&self) -> (r: Vec<Loan>)
        ensures
            r@ == self@.loans,
    {
        self.loans.clone()
    }

    /// The loans taken by `borrower`.
    pub fn get_loans_by_user(&self, borrower: &Address) -> (r: Vec<Loan>)
        ensures
            r@ == self@.loans.filter(taken_by(borrower@)),
            forall|j: int|
                0 <= j < r@.len() ==> (#[trigger] r@[j]).borrower@ == borrower@
                    && self@.loans.contains(r@[j]),
            forall|k: int|
                0 <= k < self@.loans.len() && (#[trigger] self@.loans[k]).borrower@ == borrower@
                    ==> r@.contains(self@.loans[k]),
    {
        proof {
            user_loans_are_all_loans_they_took(self@.loans, borrower@);
        }
        let mut result: Vec<Loan> = Vec::new();
        let mut k: usize = 0;
        while k < self.loans.len()
            invariant
                0 <= k <= self.loans@.len(),
                result@ == self.loans@.take(k as int).filter(taken_by(borrower@)),
            decreases self.loans@.len() - k,
        {
            proof {
                let prefix = self.loans@.take(k as int);
                assert(self.loans@.take(k + 1) =~= prefix.push(self.loans@[k as int]));
                prefix.lemma_filter_push(self.loans@[k as int], taken_by(borrower@));
            }
            if self.loans[k].borrower.same_as(borrower) {
                result.push(self.loans[k].clone());
            }
            k = k + 1;
        }
        proof {
            assert(self.loans@.take(self.loans@.len() as int) =~= self.loans@);
        }
        result
    }

    /// The loans whose unit is still out.
    pub fn get_active_loans(&self) -> (r: Vec<Loan>)
        ensures
            r@ == self@.loans.filter(is_active()),
    {
        let mut result: Vec<Loan> = Vec::new();
        let mut k: usize = 0;
        while k < self.loans.len()
            invariant
                0 <= k <= self.loans@.len(),
                result@ == self.loans@.take(k as int).filter(is_active()),
            decreases self.loans@.len() - k,
        {
            proof {
                let prefix = self.loans@.take(k as int);
                assert(self.loans@.take(k + 1) =~= prefix.push(self.loans@[k as int]));
                prefix.lemma_filter_push(self.loans@[k as int], is_active());
            }
            if self.loans[k].status == LoanStatus::Active {
                result.push(self.loans[k].clone());
            }
            k = k + 1;
        }
        proof {
            assert(self.loans@.take(self.loans@.len() as int) =~= self.loans@);
        }
        result
    }

    /// The loans that are overdue at `now`: out past their deadline, or returned late.
    pub fn get_overdue_loans(&self, now: u64) -> (r: Vec<Loan>)
        ensures
            r@ == self@.loans.filter(is_overdue(now)),
    {
        let mut result: Vec<Loan> = Vec::new();
        let mut k: usize = 0;
        while k < self.loans.len()
            invariant
                0 <= k <= self.loans@.len(),
                result@ == self.loans@.take(k as int).filter(is_overdue(now)),
            decreases self.loans@.len() - k,
        {
            proof {
                let prefix = self.loans@.take(k as int);
                assert(self.loans@.take(k + 1) =~= prefix.push(self.loans@[k as int]));
                prefix.lemma_filter_push(self.loans@[k as int], is_overdue(now));
            }
            if (self.loans[k].status == LoanStatus::Active && now > self.loans[k].planned_return_date)
                || self.loans[k].status == LoanStatus::Overdue {
                result.push(self.loans[k].clone());
            }
            k = k + 1;
        }
        proof {
            assert(self.loans@.take(self.loans@.len() as int) =~= self.loans@);
        }
        result
    }
    /// The statistics of the service at time `now`: items and units in the
    /// inventory, and loans by state. Aborts when a unit count leaves the
    /// `u32` range, or when fewer units exist than are available.
    pub fn get_statistics(&self, now: u64) -> (r: Result<Statistics, Abort>)
        requires
            self@.items.len() <= u32::MAX,
            self@.loans.len() <= u32::MAX,
        ensures
            r == statistics_outcome(self@, now),
            self@.well_formed() ==> r != Err::<Statistics, Abort>(Abort::SubtractOverflow),
            self@.well_formed() ==> (r matches Ok(st) ==> st.borrowed_units == self@.loans.filter(
                is_active(),
            ).len()),
    {
        proof {
            if self@.well_formed() {
                statistics_count_borrowed_units_as_active_loans(self@, now);
            }
        }
        let mut total: u32 = 0;
        let mut available: u32 = 0;
        let mut i: usize = 0;
        while i < self.items.len()
            invariant
                0 <= i <= self.items@.len(),
                total == total_units(self.items@.take(i as int)),
                available == available_units(self.items@.take(i as int)),
            decreases self.items@.len() - i,
        {
            proof {
                lemma_units_step(self.items@, i as int);
                lemma_units_of_prefix(self.items@, i + 1);
            }
            if total > u32::MAX - self.items[i].total_quantity {
                return Err(Abort::AddOverflow);
            }
            total = total + self.items[i].total_quantity;
            if available > u32::MAX - self.items[i].available_quantity {
                return Err(Abort::AddOverflow);
            }
            available = available + self.items[i].available_quantity;
            i = i + 1;
        }
        proof {
            assert(self.items@.take(self.items@.len() as int) =~= self.items@);
        }
        if available > total {
            return Err(Abort::SubtractOverflow);
        }
        let mut running: u32 = 0;
        let mut completed: u32 = 0;
        let mut overdue: u32 = 0;
        let mut k: usize = 0;
        while k < self.loans.len()
            invariant
                0 <= k <= self.loans@.len(),
                self.loans@.len() <= u32::MAX,
                running == self.loans@.take(k as int).filter(is_running(now)).len(),
                completed == self.loans@.take(k as int).filter(is_completed()).len(),
                overdue == self.loans@.take(k as int).filter(is_overdue(now)).len(),
            decreases self.loans@.len() - k,
        {
            let ghost prefix = self.loans@.take(k as int);
            let ghost l = self.loans@[k as int];
            proof {
                assert(self.loans@.take(k + 1) =~= prefix.push(l));
                prefix.lemma_filter_push(l, is_running(now));
                prefix.lemma_filter_push(l, is_completed());
                prefix.lemma_filter_push(l, is_overdue(now));
                prefix.lemma_filter_len(is_running(now));
                prefix.lemma_filter_len(is_completed());
                prefix.lemma_filter_len(is_overdue(now));
            }
            match self.loans[k].status {
                LoanStatus::Active => {
                    if now > self.loans[k].planned_return_date {
                        overdue = overdue + 1;
                    } else {
                        running = running + 1;
                    }
                },
                LoanStatus::Completed => {
                    completed = completed + 1;
                },
                LoanStatus::Overdue => {
                    overdue = overdue + 1;
                },
            }
            k = k + 1;
        }
        proof {
            assert(self.loans@.take(self.loans@.len() as int) =~= self.loans@);
        }
        Ok(
            Statistics {
                total_item_types: self.items.len() as u32,
                total_units: total,
                available_units: available,
                borrowed_units: total - available,
                total_loans: self.loans.len() as u32,
                active_loans: running,
                completed_loans: completed,
                overdue_loans: overdue,
            },
        )
    }
}

} // verus!
