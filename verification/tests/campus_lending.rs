use kampus_loan::{Address, CampusLending, ItemCategory, ItemStatus, LoanStatus, Reply};

const START: u64 = 1_700_000_000;

fn account(name: &str) -> Address {
    Address::new(format!("G{}", name))
}

fn setup() -> (u64, Address, Address) {
    (START, account("ADMIN"), account("STUDENT"))
}

fn init_contract(admin: &Address) -> CampusLending {
    let mut lending = CampusLending::new();
    lending.initialize(admin.clone());
    lending
}

fn add(
    lending: &mut CampusLending,
    admin: &Address,
    name: &str,
    category: ItemCategory,
    description: &str,
    location: &str,
    quantity: u32,
) -> Reply {
    lending
        .add_item(
            admin,
            name.to_string(),
            category,
            description.to_string(),
            location.to_string(),
            quantity,
        )
        .unwrap()
}

fn borrow(
    lending: &mut CampusLending,
    borrower: &Address,
    item_id: u64,
    purpose: &str,
    days: u64,
    now: u64,
) -> Reply {
    lending.borrow_item(borrower.clone(), item_id, purpose.to_string(), days, now).unwrap()
}

fn add_sample_items(lending: &mut CampusLending, admin: &Address) {
    add(
        lending,
        admin,
        "Epson EB-X51 Projector",
        ItemCategory::Electronics,
        "3800 lumen projector for presentations",
        "Building A, Floor 1, AV Storage",
        3,
    );
    add(
        lending,
        admin,
        "Basketball",
        ItemCategory::Sports,
        "Size 7 Spalding basketball",
        "Sports Storage, Building C",
        5,
    );
    add(
        lending,
        admin,
        "Multi-Purpose Hall",
        ItemCategory::Rooms,
        "Capacity 200, AC, sound system",
        "Main Building, Floor 1",
        1,
    );
}

#[test]
fn test_initialize_success() {
    let (_, admin, _) = setup();
    let lending = init_contract(&admin);
    let items = lending.get_all_items();
    assert_eq!(items.len(), 0);
}

#[test]
fn test_initialize_twice_fails() {
    let (_, admin, _) = setup();
    let mut lending = init_contract(&admin);
    let result = lending.initialize(admin.clone());
    assert!(result.text().contains("Error"));
}

#[test]
fn test_add_item_success() {
    let (_, admin, _) = setup();
    let mut lending = init_contract(&admin);
    add_sample_items(&mut lending, &admin);

    let items = lending.get_all_items();
    assert_eq!(items.len(), 3);
    assert_eq!(items[0].total_quantity, 3);
    assert_eq!(items[0].available_quantity, 3);
}

#[test]
fn test_item_id_auto_increment() {
    let (_, admin, _) = setup();
    let mut lending = init_contract(&admin);
    add_sample_items(&mut lending, &admin);

    let items = lending.get_all_items();
    assert_eq!(items[0].id, 1);
    assert_eq!(items[1].id, 2);
    assert_eq!(items[2].id, 3);
}

#[test]
fn test_borrow_item_success() {
    let (now, admin, student) = setup();
    let mut lending = init_contract(&admin);
    add_sample_items(&mut lending, &admin);

    let result = borrow(&mut lending, &student, 1, "Final thesis presentation", 3, now);
    assert!(result.text().contains("successfully"));

    let items = lending.get_all_items();
    assert_eq!(items[0].available_quantity, 2);
}

#[test]
fn test_borrow_out_of_stock_fails() {
    let (now, admin, _) = setup();
    let mut lending = init_contract(&admin);

    add(&mut lending, &admin, "DSLR Camera", ItemCategory::Equipment, "Canon EOS 200D", "Multimedia Lab", 1);

    let user1 = account("USER1");
    let user2 = account("USER2");

    borrow(&mut lending, &user1, 1, "Event documentation", 2, now);

    let result = borrow(&mut lending, &user2, 1, "Other purpose", 1, now);
    assert!(result.text().contains("Error"));
    assert!(result.text().contains("unavailable"));
}

#[test]
fn test_borrow_nonexistent_item_fails() {
    let (now, admin, student) = setup();
    let mut lending = init_contract(&admin);

    let result = borrow(&mut lending, &student, 999, "Test", 1, now);
    assert!(result.text().contains("Error"));
}

#[test]
fn test_return_item_on_time() {
    let (now, admin, student) = setup();
    let mut lending = init_contract(&admin);
    add_sample_items(&mut lending, &admin);

    borrow(&mut lending, &student, 2, "Basketball practice", 3, now);

    let result = lending.return_item(&student, 1, now).unwrap();
    assert!(result.text().contains("successfully"));

    let items = lending.get_all_items();
    assert_eq!(items[1].available_quantity, 5);

    let loans = lending.get_all_loans();
    assert_eq!(loans[0].status, LoanStatus::Completed);
}

#[test]
fn test_return_item_overdue() {
    let (now, admin, student) = setup();
    let mut lending = init_contract(&admin);
    add_sample_items(&mut lending, &admin);

    borrow(&mut lending, &student, 1, "Department meeting", 1, now);

    // Three days later, past the deadline
    let later = 1_700_000_000 + (3 * 86400);

    let result = lending.return_item(&student, 1, later).unwrap();
    assert!(result.text().contains("successfully"));

    let loans = lending.get_all_loans();
    assert_eq!(loans[0].status, LoanStatus::Overdue);
}

#[test]
fn test_return_by_different_user_fails() {
    let (now, admin, student) = setup();
    let mut lending = init_contract(&admin);
    add_sample_items(&mut lending, &admin);

    borrow(&mut lending, &student, 1, "Test", 2, now);

    let other_user = account("OTHER");
    let result = lending.return_item(&other_user, 1, now).unwrap();
    assert!(result.text().contains("Error"));
}

#[test]
fn test_extend_loan_success() {
    let (now, admin, student) = setup();
    let mut lending = init_contract(&admin);
    add_sample_items(&mut lending, &admin);

    borrow(&mut lending, &student, 1, "National seminar", 3, now);

    let result = lending.extend_loan(&student, 1, 5, now).unwrap();
    assert!(result.text().contains("successfully"));

    let loans = lending.get_all_loans();
    let loan = &loans[0];
    assert!(loan.extended);
    // Planned return = initial + 3 days + 5 days extension = 8 days total
    let expected = 1_700_000_000 + (8 * 86400);
    assert_eq!(loan.planned_return_date, expected);
}

#[test]
fn test_extend_twice_fails() {
    let (now, admin, student) = setup();
    let mut lending = init_contract(&admin);
    add_sample_items(&mut lending, &admin);

    borrow(&mut lending, &student, 1, "Seminar", 3, now);

    lending.extend_loan(&student, 1, 3, now).unwrap();

    // Second extension should fail
    let result = lending.extend_loan(&student, 1, 2, now).unwrap();
    assert!(result.text().contains("Error"));
    assert!(result.text().contains("already been extended"));
}

#[test]
fn test_extend_past_deadline_fails() {
    let (now, admin, student) = setup();
    let mut lending = init_contract(&admin);
    add_sample_items(&mut lending, &admin);

    borrow(&mut lending, &student, 1, "Test", 1, now);

    let later = 1_700_000_000 + (5 * 86400);

    let result = lending.extend_loan(&student, 1, 3, later).unwrap();
    assert!(result.text().contains("Error"));
    assert!(result.text().contains("passed the deadline"));
}

#[test]
fn test_extend_by_different_user_fails() {
    let (now, admin, student) = setup();
    let mut lending = init_contract(&admin);
    add_sample_items(&mut lending, &admin);

    borrow(&mut lending, &student, 1, "Test", 3, now);

    let other_user = account("OTHER");
    let result = lending.extend_loan(&other_user, 1, 3, now).unwrap();
    assert!(result.text().contains("Error"));
}

#[test]
fn test_get_available_items() {
    let (now, admin, student) = setup();
    let mut lending = init_contract(&admin);

    add(&mut lending, &admin, "Presentation Laptop", ItemCategory::Electronics, "Laptop for presentations", "Secretary Office", 1);
    add(&mut lending, &admin, "Yoga Mat", ItemCategory::Sports, "10mm thick yoga mat", "Sports Storage", 3);

    borrow(&mut lending, &student, 1, "Thesis defense", 1, now);

    let available = lending.get_available_items();
    assert_eq!(available.len(), 1);
    assert_eq!(available[0].id, 2);
}

#[test]
fn test_get_items_by_category() {
    let (_, admin, _) = setup();
    let mut lending = init_contract(&admin);
    add_sample_items(&mut lending, &admin);

    // Add another electronics item
    add(&mut lending, &admin, "Wireless Microphone", ItemCategory::Electronics, "Shure wireless microphone", "AV Storage", 2);

    let electronics = lending.get_items_by_category(ItemCategory::Electronics);
    assert_eq!(electronics.len(), 2);

    let sports = lending.get_items_by_category(ItemCategory::Sports);
    assert_eq!(sports.len(), 1);

    let rooms = lending.get_items_by_category(ItemCategory::Rooms);
    assert_eq!(rooms.len(), 1);

    let equipment = lending.get_items_by_category(ItemCategory::Equipment);
    assert_eq!(equipment.len(), 0);
}

#[test]
fn test_get_loans_by_user() {
    let (now, admin, student) = setup();
    let mut lending = init_contract(&admin);
    add_sample_items(&mut lending, &admin);

    let other_user = account("OTHER");

    borrow(&mut lending, &student, 1, "Purpose 1", 1, now);
    borrow(&mut lending, &student, 2, "Purpose 2", 2, now);
    borrow(&mut lending, &other_user, 3, "Other purpose", 1, now);

    let student_loans = lending.get_loans_by_user(&student);
    assert_eq!(student_loans.len(), 2);

    let other_loans = lending.get_loans_by_user(&other_user);
    assert_eq!(other_loans.len(), 1);
}

#[test]
fn test_get_active_loans() {
    let (now, admin, student) = setup();
    let mut lending = init_contract(&admin);
    add_sample_items(&mut lending, &admin);

    borrow(&mut lending, &student, 1, "Test 1", 3, now);
    borrow(&mut lending, &student, 2, "Test 2", 5, now);

    lending.return_item(&student, 1, now).unwrap();

    let active = lending.get_active_loans();
    assert_eq!(active.len(), 1);
    assert_eq!(active[0].id, 2);
}

#[test]
fn test_get_overdue_loans() {
    let (now, admin, student) = setup();
    let mut lending = init_contract(&admin);
    add_sample_items(&mut lending, &admin);

    borrow(&mut lending, &student, 1, "Test", 1, now);

    let overdue_initial = lending.get_overdue_loans(now);
    assert_eq!(overdue_initial.len(), 0);

    let later = 1_700_000_000 + (5 * 86400);

    let overdue = lending.get_overdue_loans(later);
    assert_eq!(overdue.len(), 1);
}

#[test]
fn test_get_statistics() {
    let (now, admin, student) = setup();
    let mut lending = init_contract(&admin);
    add_sample_items(&mut lending, &admin);

    // Borrow 2 items
    borrow(&mut lending, &student, 1, "Test 1", 3, now);
    borrow(&mut lending, &student, 2, "Test 2", 5, now);

    // Return 1 item
    lending.return_item(&student, 1, now).unwrap();

    let stats = lending.get_statistics(now).unwrap();
    assert_eq!(stats.total_item_types, 3);
    assert_eq!(stats.total_units, 9); // 3 + 5 + 1
    assert_eq!(stats.available_units, 8); // 3 + 4 + 1 (1 still borrowed)
    assert_eq!(stats.borrowed_units, 1);
    assert_eq!(stats.total_loans, 2);
    assert_eq!(stats.active_loans, 1);
    assert_eq!(stats.completed_loans, 1);
    assert_eq!(stats.overdue_loans, 0);
}

#[test]
fn test_update_item_status() {
    let (_, admin, _) = setup();
    let mut lending = init_contract(&admin);
    add_sample_items(&mut lending, &admin);

    let result = lending.update_item_status(&admin, 1, ItemStatus::UnderMaintenance).unwrap();
    assert!(result.text().contains("successfully"));

    let items = lending.get_all_items();
    assert_eq!(items[0].status, ItemStatus::UnderMaintenance);
}

#[test]
fn test_remove_item_success() {
    let (_, admin, _) = setup();
    let mut lending = init_contract(&admin);
    add_sample_items(&mut lending, &admin);

    let result = lending.remove_item(&admin, 2).unwrap();
    assert!(result.text().contains("successfully"));

    let items = lending.get_all_items();
    assert_eq!(items.len(), 2);
}

#[test]
fn test_remove_borrowed_item_fails() {
    let (now, admin, student) = setup();
    let mut lending = init_contract(&admin);

    add(&mut lending, &admin, "Laptop", ItemCategory::Electronics, "Laptop", "Lab", 1);
    borrow(&mut lending, &student, 1, "Thesis defense", 1, now);

    let result = lending.remove_item(&admin, 1).unwrap();
    assert!(result.text().contains("Error"));
}

#[test]
fn test_borrow_under_maintenance_fails() {
    let (now, admin, student) = setup();
    let mut lending = init_contract(&admin);
    add_sample_items(&mut lending, &admin);

    // Set item to under maintenance
    lending.update_item_status(&admin, 1, ItemStatus::UnderMaintenance).unwrap();

    // Attempt to borrow — should fail
    let result = borrow(&mut lending, &student, 1, "Test", 1, now);
    assert!(result.text().contains("Error"));
    assert!(result.text().contains("maintenance"));
}

#[test]
fn test_update_item_quantity() {
    let (_, admin, _) = setup();
    let mut lending = init_contract(&admin);
    add_sample_items(&mut lending, &admin);

    let result = lending.update_item_quantity(&admin, 1, 2).unwrap();
    assert!(result.text().contains("successfully"));

    let items = lending.get_all_items();
    assert_eq!(items[0].total_quantity, 5);
    assert_eq!(items[0].available_quantity, 5);
}
