use estudent::assignment::PointAssignment;
use estudent::collaborators::now_timestamp;
use estudent::components::{
    options_from_form, ControlType, ControlTypeOptions, FormData, FormSortDirection,
    LayoutContext, UserValueDifference,
};
use estudent::database::{Database, SortDirection};
use estudent::forms::{
    post_administrator, post_point, AssignmentCreation, FormDataAdministrator, FormDataPoint,
};
use estudent::helpers::{range_values, ConcatHelper, EqHelper, RangeHelper};
use estudent::localization::Script;
use estudent::login::LoginFormData;
use estudent::models::Session;
use estudent::registration::AccountCreation as RegistrationOutcome;
use estudent::store::RevisionStore;
use estudent::text::{str_contains, str_contains_fold};
use estudent::user::{AccountType, User, UserStore};
use estudent::util::string_to_url;
use estudent::Error;

#[test]
fn script_codes_round() {
    assert_eq!(Script::from_code("latin").unwrap(), Script::Latin);
    assert_eq!(Script::from_code("cyrillic").unwrap(), Script::Cyrillic);
    assert_eq!(
        Script::from_code("Latin").unwrap_err(),
        Error::InvalidLanguageCode
    );
    assert_eq!(Script::from_string("Latin").unwrap(), Script::Latin);
    assert_eq!(Script::from_string("Cyrillic").unwrap(), Script::Cyrillic);
    assert_eq!(
        Script::from_string("latin").unwrap_err(),
        Error::InvalidLanguageCode
    );
}

#[test]
fn login_form_population() {
    let full = LoginFormData {
        username_or_email: "a".to_owned(),
        password: "b".to_owned(),
        timeout: 1,
    };
    assert!(full.all_fields_populated());
    let missing = LoginFormData {
        username_or_email: String::new(),
        password: "b".to_owned(),
        timeout: 1,
    };
    assert!(!missing.all_fields_populated());
}

#[test]
fn helper_names() {
    assert_eq!(ConcatHelper::name(), "concat");
    assert_eq!(EqHelper::name(), "eq");
    assert_eq!(RangeHelper::name(), "range");
}

#[test]
fn range_helper_values() {
    assert_eq!(range_values(0, 2, 5), vec![0, 2, 4]);
    assert_eq!(range_values(1, 1, 4), vec![1, 2, 3]);
    assert!(range_values(5, 1, 5).is_empty());
    assert!(range_values(9, 3, 2).is_empty());
}

#[test]
fn contains_matchers() {
    // The exact matcher distinguishes case; the folded one identifies
    // ASCII capitals with lowercase.
    assert!(str_contains("Anna", "nn"));
    assert!(!str_contains("Anna", "an"));
    assert!(str_contains_fold("Anna", "an"));
    assert!(str_contains_fold("Anders", "AN"));
    assert!(!str_contains_fold("Anders", "annders"));
    assert!(str_contains_fold("x", ""));
}

#[test]
fn url_slugs() {
    assert_eq!(string_to_url("Algebra I"), "algebra_i");
    assert_eq!(string_to_url("Graph Theory 2!?"), "graph_theory_2");
    assert_eq!(string_to_url(""), "");
    assert_eq!(string_to_url("čas"), "as");
}

#[test]
fn clock_reads() {
    // Nothing is promised of the clock's value; it only has to be a
    // plausible Unix timestamp on a configured machine.
    assert!(now_timestamp() > 0);
}

#[test]
fn value_differences() {
    let toggled: UserValueDifference<bool> = UserValueDifference {
        user: 1,
        old_value: false,
        new_value: true,
    };
    assert!(toggled.value_changed());
    assert_eq!(toggled.user(), 1);
    assert_eq!(*toggled.new_value(), true);
    let same: UserValueDifference<Option<u32>> = UserValueDifference {
        user: 2,
        old_value: Some(5),
        new_value: Some(5),
    };
    assert!(!same.value_changed());
    let cleared: UserValueDifference<Option<u32>> = UserValueDifference {
        user: 2,
        old_value: Some(5),
        new_value: None,
    };
    assert!(cleared.value_changed());
}

fn empty_form() -> FormData {
    FormData {
        filter_email: String::new(),
        filter_account_type_enabled: false,
        filter_account_type: AccountType::Student,
        filter_first_name: String::new(),
        filter_last_name: String::new(),
        filter_index_number: None,
        filter_program: String::new(),
        filter_generation: None,
        sort_first_name: FormSortDirection::Unsorted,
        sort_last_name: FormSortDirection::Unsorted,
        sort_email: FormSortDirection::Unsorted,
        sort_account_type: FormSortDirection::Unsorted,
        sort_index: FormSortDirection::Unsorted,
        page: 0,
        max_per_page: 10,
        enrol_dropdowns: Vec::new(),
        point_progresses: Vec::new(),
        grade_progresses: Vec::new(),
    }
}

#[test]
fn form_maps_to_options() {
    let mut form = empty_form();
    form.filter_first_name = "An".to_owned();
    form.filter_account_type_enabled = true;
    form.sort_email = FormSortDirection::Descending;
    form.page = 3;
    form.max_per_page = 25;
    let options = options_from_form(&Some(form));
    assert_eq!(options.filters.filter_first_name.as_deref(), Some("An"));
    assert_eq!(options.filters.filter_email, None);
    assert_eq!(options.filters.filter_account_type, Some(AccountType::Student));
    assert_eq!(options.sorts.sort_by_email, Some(SortDirection::Descending));
    assert_eq!(options.sorts.sort_by_first_name, None);
    assert_eq!(options.page, 3);
    assert_eq!(options.max_per_page, 25);

    let defaults = options_from_form(&None);
    assert_eq!(defaults.page, 0);
    assert_eq!(defaults.max_per_page, 10);
    assert_eq!(defaults.filters.filter_email, None);
}

#[test]
fn listing_context_edit_mode() {
    let mut users: UserStore = RevisionStore::new();
    User::builder("a@x".to_owned(), "d".to_owned())
        .with_first_name(Some("Ann".to_owned()))
        .build()
        .create(&mut users, 1)
        .unwrap();
    let indices = RevisionStore::new();
    let generations = RevisionStore::new();
    let programs = RevisionStore::new();
    let enrolments = RevisionStore::new();
    let gpstore = RevisionStore::new();
    let ppstore = RevisionStore::new();
    let context = LayoutContext::new(
        &users,
        &indices,
        &generations,
        &programs,
        &enrolments,
        &gpstore,
        &ppstore,
        None,
        ControlTypeOptions::Edit,
    )
    .unwrap();
    assert_eq!(context.number_of_pages, 1);
    match context.control_type {
        ControlType::Edit(data) => {
            assert_eq!(data.users.len(), 1);
            assert_eq!(data.users[0].user.email, "a@x");
        }
        _ => panic!("expected the edit mode"),
    }
}

#[test]
fn sessions_table_by_key() {
    let mut db = Database::new();
    let session = Session {
        session_key: vec![1, 2, 3],
        user: 9,
        created_on: 5,
        last_refreshed: 5,
        timeout_duration_seconds: 100,
    };
    db.insert_session(&session).unwrap();
    assert_eq!(
        db.insert_session(&session).unwrap_err(),
        Error::DuplicateEntry
    );
    let found = db.get_session_by_key(&vec![1, 2, 3]).unwrap();
    assert_eq!(found.user, 9);
    assert_eq!(
        db.get_session_by_key(&vec![9, 9]).unwrap_err(),
        Error::EntryNotFound
    );
}

#[test]
fn posted_registration_forms() {
    let mut users: UserStore = RevisionStore::new();
    let form = FormDataAdministrator {
        email: "admin@example.com".to_owned(),
        first_name: "Ada".to_owned(),
        last_name: "Lovelace".to_owned(),
    };
    assert!(matches!(
        post_administrator(&mut users, 1, &form).unwrap(),
        RegistrationOutcome::Created(_)
    ));
    let admin = User::get_by_email(&users, "admin@example.com").unwrap();
    assert_eq!(admin.account_type, AccountType::Administrator);
    assert_eq!(admin.first_name.as_deref(), Some("Ada"));
    assert_eq!(admin.last_name.as_deref(), Some("Lovelace"));
}

#[test]
fn posted_assignment_forms() {
    let mut astore = RevisionStore::new();
    let mut pstore = RevisionStore::new();
    let empty = FormDataPoint {
        name: String::new(),
        max_points: 10,
    };
    assert_eq!(
        post_point(&mut pstore, &mut astore, 1, 4, &empty).unwrap(),
        AssignmentCreation::AllFieldsRequired
    );
    let zero = FormDataPoint {
        name: "Quiz".to_owned(),
        max_points: 0,
    };
    assert_eq!(
        post_point(&mut pstore, &mut astore, 1, 4, &zero).unwrap(),
        AssignmentCreation::AllFieldsRequired
    );
    assert_eq!(astore.len(), 0);
    let form = FormDataPoint {
        name: "Pop Quiz 1".to_owned(),
        max_points: 50,
    };
    assert_eq!(
        post_point(&mut pstore, &mut astore, 2, 4, &form).unwrap(),
        AssignmentCreation::Created
    );
    // The assignment is reachable under the slug of its name.
    let quiz = PointAssignment::get(&pstore, &astore, 4, "pop_quiz_1").unwrap();
    assert_eq!(quiz.base.name, "Pop Quiz 1");
    assert_eq!(quiz.data.max_points, 50);
}
