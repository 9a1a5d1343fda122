use vstd::prelude::*;

verus! {

/// Categories of campus assets available for lending.
#[derive(Clone, Copy, Debug, PartialEq, Eq, Structural)]
pub enum ItemCategory {
    /// Projectors, laptops, microphones.
    Electronics,
    /// Balls, rackets, mats.
    Sports,
    /// Halls, labs, meeting rooms.
    Rooms,
    /// Toolkits, drawing tools, cameras.
    Equipment,
}

/// Current status of an inventory item.
#[derive(Clone, Copy, Debug, PartialEq, Eq, Structural)]
pub enum ItemStatus {
    Available,
    Borrowed,
    UnderMaintenance,
}

/// Status of a loan (borrowing transaction).
#[derive(Clone, Copy, Debug, PartialEq, Eq, Structural)]
pub enum LoanStatus {
    Active,
    Completed,
    Overdue,
}

/// A wallet address of a student, a staff member or the admin,
/// held as its strkey text (the `G...`/`C...` form of the address).
/// Two addresses are the same account exactly when their strkeys are equal.
#[derive(Debug)]
pub struct Address {
    pub strkey: String,
}

impl View for Address {
    type V = Seq<char>;

    open spec fn view(&self) -> Seq<char> {
        self.strkey@
    }
}

impl Address {
    /// The address whose strkey is `strkey`.
    pub fn new(strkey: String) -> (a: Address)
        ensures
            a.strkey == strkey,
    {
        Address { strkey }
    }

    /// Whether `self` and `other` name the same account.
    pub fn same_as(&self, other: &Address) -> (b: bool)
        ensures
            b == (self@ == other@),
    {
        self.strkey == other.strkey
    }
}

impl Clone for Address {
    fn clone(&self) -> (a: Self)
        ensures
            a == *self,
    {
        Address { strkey: self.strkey.clone() }
    }
}

/// A campus asset in the inventory.
#[derive(Debug)]
pub struct Item {
    pub id: u64,
    pub name: String,
    pub category: ItemCategory,
    pub description: String,
    /// For example "Building A, Floor 2, Room 205".
    pub location: String,
    pub status: ItemStatus,
    pub total_quantity: u32,
    pub available_quantity: u32,
}

impl Clone for Item {
    fn clone(&self) -> (it: Self)
        ensures
            it == *self,
    {
        Item {
            id: self.id,
            name: self.name.clone(),
            category: self.category,
            description: self.description.clone(),
            location: self.location.clone(),
            status: self.status,
            total_quantity: self.total_quantity,
            available_quantity: self.available_quantity,
        }
    }
}

/// A loan record: one unit of an item lent to a borrower.
#[derive(Debug)]
pub struct Loan {
    pub id: u64,
    pub item_id: u64,
    /// The student or staff member who borrowed the unit.
    pub borrower: Address,
    pub purpose: String,
    /// Unix timestamp of the borrowing.
    pub borrow_date: u64,
    /// Unix timestamp by which the unit is due back.
    pub planned_return_date: u64,
    /// Unix timestamp of the return; 0 while the unit is not returned.
    pub actual_return_date: u64,
    pub status: LoanStatus,
    /// Whether the loan has been extended (at most once).
    pub extended: bool,
}

impl Clone for Loan {
    fn clone(&self) -> (l: Self)
        ensures
            l == *self,
    {
        Loan {
            id: self.id,
            item_id: self.item_id,
            borrower: self.borrower.clone(),
            purpose: self.purpose.clone(),
            borrow_date: self.borrow_date,
            planned_return_date: self.planned_return_date,
            actual_return_date: self.actual_return_date,
            status: self.status,
            extended: self.extended,
        }
    }
}

/// Overall figures of the lending service (dashboard data).
#[derive(Clone, Copy, Debug, PartialEq, Eq, Structural)]
pub struct Statistics {
    pub total_item_types: u32,
    pub total_units: u32,
    pub available_units: u32,
    pub borrowed_units: u32,
    pub total_loans: u32,
    pub active_loans: u32,
    pub completed_loans: u32,
    pub overdue_loans: u32,
}

/// The answer that a request receives: either a confirmation or a refusal
/// (the refusals are the replies whose text starts with "Error").
#[derive(Clone, Copy, Debug, PartialEq, Eq, Structural)]
pub enum Reply {
    Initialized,
    AlreadyInitialized,
    ItemAdded,
    ItemStatusUpdated,
    ItemQuantityUpdated,
    ItemRemoved,
    ItemNotFound,
    UnitsStillBorrowed,
    ItemUnavailable,
    ItemUnderMaintenance,
    ItemBorrowed,
    LoanNotFound,
    NotAuthorizedBorrower,
    LoanAlreadyCompleted,
    ItemReturned,
    LoanNotActive,
    AlreadyExtended,
    DeadlinePassed,
    LoanExtended,
}

impl Reply {
    /// Whether the reply refuses the request (and so nothing was changed).
    pub open spec fn spec_is_error(&self) -> bool {
        match self {
            Reply::Initialized => false,
            Reply::ItemAdded => false,
            Reply::ItemStatusUpdated => false,
            Reply::ItemQuantityUpdated => false,
            Reply::ItemRemoved => false,
            Reply::ItemBorrowed => false,
            Reply::ItemReturned => false,
            Reply::LoanExtended => false,
            _ => true,
        }
    }

    /// The text of the reply.
    pub open spec fn spec_text(&self) -> Seq<char> {
        match self {
            Reply::Initialized => "Contract initialized successfully"@,
            Reply::AlreadyInitialized => "Error: Contract already initialized"@,
            Reply::ItemAdded => "Item added successfully"@,
            Reply::ItemStatusUpdated => "Item status updated successfully"@,
            Reply::ItemQuantityUpdated => "Item quantity updated successfully"@,
            Reply::ItemRemoved => "Item removed successfully"@,
            Reply::ItemNotFound => "Error: Item not found"@,
            Reply::UnitsStillBorrowed => "Error: Some units are still being borrowed"@,
            Reply::ItemUnavailable => "Error: Item is currently unavailable"@,
            Reply::ItemUnderMaintenance => "Error: Item is under maintenance"@,
            Reply::ItemBorrowed => "Item borrowed successfully"@,
            Reply::LoanNotFound => "Error: Loan record not found"@,
            Reply::NotAuthorizedBorrower => "Error: Not the authorized borrower"@,
            Reply::LoanAlreadyCompleted => "Error: Loan is already completed"@,
            Reply::ItemReturned => "Item returned successfully, thank you!"@,
            Reply::LoanNotActive => "Error: Loan is not active"@,
            Reply::AlreadyExtended => "Error: Loan has already been extended once"@,
            Reply::DeadlinePassed => "Error: Loan has passed the deadline"@,
            Reply::LoanExtended => "Loan extended successfully"@,
        }
    }

    #[verifier::when_used_as_spec(spec_is_error)]
    pub fn is_error(&self) -> (b: bool)
        ensures
            b == self.spec_is_error(),
    {
        match self {
            Reply::Initialized => false,
            Reply::ItemAdded => false,
            Reply::ItemStatusUpdated => false,
            Reply::ItemQuantityUpdated => false,
            Reply::ItemRemoved => false,
            Reply::ItemBorrowed => false,
            Reply::ItemReturned => false,
            Reply::LoanExtended => false,
            _ => true,
        }
    }

    /// The text that the request is answered with.
    pub fn text(&self) -> (s: String)
        ensures
            s@ == self.spec_text(),
    {
        match self {
            Reply::Initialized => "Contract initialized successfully".to_owned(),
            Reply::AlreadyInitialized => "Error: Contract already initialized".to_owned(),
            Reply::ItemAdded => "Item added successfully".to_owned(),
            Reply::ItemStatusUpdated => "Item status updated successfully".to_owned(),
            Reply::ItemQuantityUpdated => "Item quantity updated successfully".to_owned(),
            Reply::ItemRemoved => "Item removed successfully".to_owned(),
            Reply::ItemNotFound => "Error: Item not found".to_owned(),
            Reply::UnitsStillBorrowed => "Error: Some units are still being borrowed".to_owned(),
            Reply::ItemUnavailable => "Error: Item is currently unavailable".to_owned(),
            Reply::ItemUnderMaintenance => "Error: Item is under maintenance".to_owned(),
            Reply::ItemBorrowed => "Item borrowed successfully".to_owned(),
            Reply::LoanNotFound => "Error: Loan record not found".to_owned(),
            Reply::NotAuthorizedBorrower => "Error: Not the authorized borrower".to_owned(),
            Reply::LoanAlreadyCompleted => "Error: Loan is already completed".to_owned(),
            Reply::ItemReturned => "Item returned successfully, thank you!".to_owned(),
            Reply::LoanNotActive => "Error: Loan is not active".to_owned(),
            Reply::AlreadyExtended => "Error: Loan has already been extended once".to_owned(),
            Reply::DeadlinePassed => "Error: Loan has passed the deadline".to_owned(),
            Reply::LoanExtended => "Loan extended successfully".to_owned(),
        }
    }
}

/// Why an invocation is aborted. An aborted invocation fails as a whole:
/// the host keeps none of its changes, and the caller receives no reply.
#[derive(Clone, Copy, Debug, PartialEq, Eq, Structural)]
pub enum Abort {
    /// The service has no admin yet.
    NotInitialized,
    /// The caller of an admin action is not the admin.
    NotAdmin,
    /// A new item must have at least one unit.
    ZeroQuantity,
    /// A loan lasts from 1 to 30 days.
    InvalidLoanDuration,
    /// An extension adds from 1 to 7 days.
    InvalidExtension,
    /// An addition leaves the range of its integer type.
    AddOverflow,
    /// A subtraction leaves the range of its integer type.
    SubtractOverflow,
}

impl Abort {
    /// The panic message of the abort.
    pub open spec fn spec_text(&self) -> Seq<char> {
        match self {
            Abort::NotInitialized => "Contract not initialized"@,
            Abort::NotAdmin => "Only admin can perform this action"@,
            Abort::ZeroQuantity => "Quantity must be greater than 0"@,
            Abort::InvalidLoanDuration => "Loan duration must be 1-30 days"@,
            Abort::InvalidExtension => "Extension is limited to 7 days max"@,
            Abort::AddOverflow => "attempt to add with overflow"@,
            Abort::SubtractOverflow => "attempt to subtract with overflow"@,
        }
    }

    /// The panic message of the abort.
    pub fn text(&self) -> (s: String)
        ensures
            s@ == self.spec_text(),
    {
        match self {
            Abort::NotInitialized => "Contract not initialized".to_owned(),
            Abort::NotAdmin => "Only admin can perform this action".to_owned(),
            Abort::ZeroQuantity => "Quantity must be greater than 0".to_owned(),
            Abort::InvalidLoanDuration => "Loan duration must be 1-30 days".to_owned(),
            Abort::InvalidExtension => "Extension is limited to 7 days max".to_owned(),
            Abort::AddOverflow => "attempt to add with overflow".to_owned(),
            Abort::SubtractOverflow => "attempt to subtract with overflow".to_owned(),
        }
    }
}

} // verus!
