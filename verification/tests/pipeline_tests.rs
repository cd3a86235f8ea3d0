use estudent::database::SortDirection;
use estudent::index::{Generation, Index, Program};
use estudent::pagination;
use estudent::store::RevisionStore;
use estudent::user::{
    AccountType, RetrievalFilters, RetrievalSorts, User, UserStore, Users, UsersRetrievalOptions,
    UsersWithIndex,
};

fn add_user(
    users: &mut UserStore,
    marker: u64,
    email: &str,
    first: Option<&str>,
    last: Option<&str>,
    kind: AccountType,
) {
    let builder = User::builder(email.to_owned(), "digest".to_owned())
        .with_first_name(first.map(|s| s.to_owned()))
        .with_last_name(last.map(|s| s.to_owned()))
        .with_account_type(kind);
    builder.build().create(users, marker).unwrap();
}

fn three_accounts() -> UserStore {
    let mut users: UserStore = RevisionStore::new();
    add_user(
        &mut users,
        1,
        "anna@example.com",
        Some("Anna"),
        Some("Smith"),
        AccountType::Student,
    );
    add_user(
        &mut users,
        2,
        "anders@example.com",
        Some("Anders"),
        Some("Jones"),
        AccountType::Professor,
    );
    add_user(
        &mut users,
        3,
        "diana@example.com",
        Some("Diana"),
        Some("Smith"),
        AccountType::Student,
    );
    users
}

fn base_rows(users: &UserStore) -> Vec<estudent::user::UserWithIndex> {
    let indices = RevisionStore::new();
    let generations = RevisionStore::new();
    let programs = RevisionStore::new();
    Users::query_new(users, &indices, &generations, &programs)
}

#[test]
fn substring_and_kind_filters_combine() {
    // Filters {firstNameContains: "an", accountKind: Student} against
    // Anna/Anders/Diana keep exactly [Anna, Diana]: Anders is excluded by
    // kind, not by the substring — his name does contain "an".
    let users = three_accounts();
    let rows = base_rows(&users);
    let mut filters = RetrievalFilters::new();
    filters.filter_first_name = Some("an".to_owned());
    filters.filter_account_type = Some(AccountType::Student);
    let kept = Users::query_apply_filters(rows, &filters);
    let names: Vec<&str> = kept
        .iter()
        .map(|r| r.user.first_name.as_deref().unwrap())
        .collect();
    assert_eq!(names, vec!["Anna", "Diana"]);
}

#[test]
fn substring_match_ignores_ascii_case() {
    // The "contains" match identifies ASCII capitals with lowercase, as
    // the backing store's default collation does: "AN" is found in
    // "Anna", "Anders" and "Diana" alike.
    let users = three_accounts();
    let rows = base_rows(&users);
    let mut filters = RetrievalFilters::new();
    filters.filter_first_name = Some("AN".to_owned());
    let kept = Users::query_apply_filters(rows, &filters);
    let names: Vec<&str> = kept
        .iter()
        .map(|r| r.user.first_name.as_deref().unwrap())
        .collect();
    assert_eq!(names, vec!["Anna", "Anders", "Diana"]);
    // A text no field holds under any casing matches nothing.
    let rows = base_rows(&users);
    let mut filters = RetrievalFilters::new();
    filters.filter_first_name = Some("anne".to_owned());
    assert!(Users::query_apply_filters(rows, &filters).is_empty());
}

#[test]
fn filters_commute() {
    // Composing filters {A, B} in either order yields the same result set.
    let users = three_accounts();
    let mut a = RetrievalFilters::new();
    a.filter_first_name = Some("n".to_owned());
    let mut b = RetrievalFilters::new();
    b.filter_account_type = Some(AccountType::Student);

    let ab = Users::query_apply_filters(Users::query_apply_filters(base_rows(&users), &a), &b);
    let ba = Users::query_apply_filters(Users::query_apply_filters(base_rows(&users), &b), &a);
    let emails_ab: Vec<&str> = ab.iter().map(|r| r.user.email.as_str()).collect();
    let emails_ba: Vec<&str> = ba.iter().map(|r| r.user.email.as_str()).collect();
    assert_eq!(emails_ab, emails_ba);
}

#[test]
fn absent_filters_are_a_noop() {
    // compose(q, {}) returns exactly q's rows.
    let users = three_accounts();
    let rows = base_rows(&users);
    let before: Vec<String> = rows.iter().map(|r| r.user.email.clone()).collect();
    let kept = Users::query_apply_filters(rows, &RetrievalFilters::new());
    let after: Vec<String> = kept.iter().map(|r| r.user.email.clone()).collect();
    assert_eq!(before, after);
}

#[test]
fn sort_priority_first_name_before_last_name() {
    // With keys {lastName: Desc, firstName: Asc} and priority
    // [firstName, lastName, ...], rows group by first name ascending and,
    // within one first name, order by last name descending.
    let mut users: UserStore = RevisionStore::new();
    add_user(&mut users, 1, "1@x", Some("Bea"), Some("Adams"), AccountType::Student);
    add_user(&mut users, 2, "2@x", Some("Alf"), Some("Young"), AccountType::Student);
    add_user(&mut users, 3, "3@x", Some("Bea"), Some("Zorn"), AccountType::Student);
    add_user(&mut users, 4, "4@x", Some("Alf"), Some("Best"), AccountType::Student);
    let rows = base_rows(&users);
    let mut sorts = RetrievalSorts::new();
    sorts.sort_by_first_name = Some(SortDirection::Ascending);
    sorts.sort_by_last_name = Some(SortDirection::Descending);
    let sorted = Users::query_apply_sorts(rows, &sorts);
    let pairs: Vec<(&str, &str)> = sorted
        .iter()
        .map(|r| {
            (
                r.user.first_name.as_deref().unwrap(),
                r.user.last_name.as_deref().unwrap(),
            )
        })
        .collect();
    assert_eq!(
        pairs,
        vec![("Alf", "Young"), ("Alf", "Best"), ("Bea", "Zorn"), ("Bea", "Adams")]
    );
}

#[test]
fn unspecified_sort_keeps_given_order() {
    let users = three_accounts();
    let rows = base_rows(&users);
    let before: Vec<String> = rows.iter().map(|r| r.user.email.clone()).collect();
    let sorted = Users::query_apply_sorts(rows, &RetrievalSorts::new());
    let after: Vec<String> = sorted.iter().map(|r| r.user.email.clone()).collect();
    assert_eq!(before, after);
}

#[test]
fn pagination_offset_and_page_count() {
    // offset(maxPerPage=10, page=2) == 20; pageCount(totalRows=20,
    // maxPerPage=10) == 3, per the intentional "+1" rule.
    assert_eq!(pagination::query_offset(10, 2), 20);
    assert_eq!(pagination::number_of_pages(20, 10), Ok(3));
    assert_eq!(pagination::number_of_pages(21, 10), Ok(3));
    assert_eq!(pagination::number_of_pages(0, 10), Ok(1));
    assert_eq!(
        pagination::number_of_pages(20, 0),
        Err(estudent::Error::InvalidPageSize)
    );
}

#[test]
fn pagination_slices_rows() {
    let users = three_accounts();
    let rows = base_rows(&users);
    let page = Users::query_apply_pagination(rows, 2, 1);
    let emails: Vec<&str> = page.iter().map(|r| r.user.email.as_str()).collect();
    assert_eq!(emails, vec!["diana@example.com"]);

    let rows = base_rows(&users);
    let beyond = Users::query_apply_pagination(rows, 2, 5);
    assert!(beyond.is_empty());
}

#[test]
fn full_listing_pipeline() {
    let users = three_accounts();
    let indices = RevisionStore::new();
    let generations = RevisionStore::new();
    let programs = RevisionStore::new();
    let mut options = UsersRetrievalOptions::new(0, 10);
    options.filters.filter_account_type = Some(AccountType::Student);
    options.sorts.sort_by_first_name = Some(SortDirection::Descending);
    let listing =
        UsersWithIndex::get(&users, &indices, &generations, &programs, options).unwrap();
    let names: Vec<&str> = listing
        .0
        .iter()
        .map(|r| r.user.first_name.as_deref().unwrap())
        .collect();
    assert_eq!(names, vec!["Diana", "Anna"]);
    let pages = UsersWithIndex::get_number_of_pages(
        &users,
        &indices,
        &generations,
        &programs,
        RetrievalFilters::new(),
        2,
    )
    .unwrap();
    assert_eq!(pages, 2);
}

#[test]
fn index_join_and_its_filters() {
    let mut users: UserStore = RevisionStore::new();
    add_user(&mut users, 1, "s@x", Some("Stu"), None, AccountType::Student);
    add_user(&mut users, 2, "p@x", Some("Prof"), None, AccountType::Professor);
    let mut generations = RevisionStore::new();
    Generation::create(&mut generations, 1, 2023).unwrap();
    let generation = Generation::get_by_year(&generations, 2023).unwrap();
    let mut programs = RevisionStore::new();
    Program::create(&mut programs, 1, "cs".to_owned(), "Computing".to_owned()).unwrap();
    let program = Program::get_by_short_name(&programs, "cs").unwrap();
    let mut indices = RevisionStore::new();
    Index::create(&mut indices, 2, program.id, generation.id, 77, 1).unwrap();

    let rows = Users::query_new(&users, &indices, &generations, &programs);
    assert_eq!(rows.len(), 2);
    let stu = &rows[0];
    let with_index = stu.index.as_ref().unwrap();
    assert_eq!(with_index.index.number, 77);
    assert_eq!(with_index.generation.year, 2023);
    assert_eq!(with_index.program.short_name, "cs");
    // The professor has no index: an explicit absent value.
    assert!(rows[1].index.is_none());

    // Index-routed filters exclude rows without an index.
    let mut filters = RetrievalFilters::new();
    filters.filter_generation = Some(2023);
    let kept = Users::query_apply_filters(rows, &filters);
    assert_eq!(kept.len(), 1);
    assert_eq!(kept[0].user.email, "s@x");

    let rows = Users::query_new(&users, &indices, &generations, &programs);
    let mut filters = RetrievalFilters::new();
    filters.filter_index_number = Some(78);
    let kept = Users::query_apply_filters(rows, &filters);
    assert!(kept.is_empty());
}
