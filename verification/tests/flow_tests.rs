use estudent::assignment::{
    Assignment, Assignments, BaseAssignment, GradeAssignment, GradeAssignmentGrade,
    GradedAssignment, GradedAssignments, PointAssignment,
};
use estudent::course::{Course, Courses, Enrolment};
use estudent::database::Database;
use estudent::index::{Generation, Generations, Program, Programs};
use estudent::login::LoginFormData;
use estudent::registration::{create_account, create_student_account, AccountCreation};
use estudent::session::{get_user_from_jar, Login, LoginOutcome};
use estudent::store::RevisionStore;
use estudent::user::{AccountType, User, UserStore};
use estudent::Error;

#[test]
fn registration_then_login_round_trip() {
    // The stored digest really matches the generated temporary password,
    // and the minted session cookie really resolves back to the account.
    let mut users: UserStore = RevisionStore::new();
    let outcome = create_account(
        &mut users,
        1,
        "student@example.com",
        "Ann",
        "Lee",
        AccountType::Student,
    )
    .unwrap();
    let password = match outcome {
        AccountCreation::Created(p) => p,
        other => panic!("expected a created account, got {:?}", other),
    };
    assert_eq!(password.len(), 32);
    assert!(password.chars().all(|c| c.is_ascii_alphanumeric()));

    let mut db = Database::new();
    let form = LoginFormData {
        username_or_email: "student@example.com".to_owned(),
        password,
        timeout: 3600,
    };
    let outcome = Login::post(&users, &mut db, &form, 1000).unwrap();
    let cookie = match outcome {
        LoginOutcome::LoggedIn(c) => c,
        other => panic!("expected a login, got {:?}", other),
    };
    assert_eq!(cookie.len(), 64);

    // The cookie authenticates while the session lives...
    let acting = get_user_from_jar(&db, &users, Some(cookie.as_str()), 2000).unwrap();
    assert_eq!(acting.unwrap().email, "student@example.com");
    // ...under the decoder's case-insensitive reading of the hex too...
    let upper = cookie.to_uppercase();
    let acting = get_user_from_jar(&db, &users, Some(upper.as_str()), 2000).unwrap();
    assert_eq!(acting.unwrap().email, "student@example.com");
    // ...and no longer once it timed out.
    let acting = get_user_from_jar(&db, &users, Some(cookie.as_str()), 5000).unwrap();
    assert!(acting.is_none());
    // No cookie, or a cookie that is not an encoding, yields nobody.
    assert!(get_user_from_jar(&db, &users, None, 2000).unwrap().is_none());
    assert!(get_user_from_jar(&db, &users, Some("zz-not-hex"), 2000)
        .unwrap()
        .is_none());
}

#[test]
fn login_rejects_wrong_password_and_unknown_email() {
    let mut users: UserStore = RevisionStore::new();
    create_account(&mut users, 1, "a@b.c", "", "", AccountType::Student).unwrap();
    let mut db = Database::new();
    let wrong = LoginFormData {
        username_or_email: "a@b.c".to_owned(),
        password: "not-the-password".to_owned(),
        timeout: 60,
    };
    assert!(matches!(
        Login::post(&users, &mut db, &wrong, 0).unwrap(),
        LoginOutcome::InvalidLoginInfo
    ));
    let unknown = LoginFormData {
        username_or_email: "nobody@b.c".to_owned(),
        password: "x".to_owned(),
        timeout: 60,
    };
    assert!(matches!(
        Login::post(&users, &mut db, &unknown, 0).unwrap(),
        LoginOutcome::InvalidLoginInfo
    ));
    let empty = LoginFormData {
        username_or_email: String::new(),
        password: "x".to_owned(),
        timeout: 60,
    };
    assert!(matches!(
        Login::post(&users, &mut db, &empty, 0).unwrap(),
        LoginOutcome::AllFieldsRequired
    ));
    assert!(db.sessions.is_empty());
}

#[test]
fn login_with_garbage_digest_is_a_storage_failure() {
    // An account whose stored digest is not a bcrypt hash makes the
    // hasher fail; the core surfaces that as the catch-all failure.
    let mut users: UserStore = RevisionStore::new();
    User::builder("a@b.c".to_owned(), "garbage".to_owned())
        .build()
        .create(&mut users, 1)
        .unwrap();
    let mut db = Database::new();
    let form = LoginFormData {
        username_or_email: "a@b.c".to_owned(),
        password: "x".to_owned(),
        timeout: 60,
    };
    match Login::post(&users, &mut db, &form, 0) {
        Err(e) => assert_eq!(e, Error::StorageFailure),
        Ok(other) => panic!("expected a storage failure, got {:?}", other),
    }
}

#[test]
fn registration_rejections() {
    let mut users: UserStore = RevisionStore::new();
    assert!(matches!(
        create_account(&mut users, 1, "not-an-email", "", "", AccountType::Student).unwrap(),
        AccountCreation::InvalidEmail
    ));
    assert_eq!(users.len(), 0);
    create_account(&mut users, 1, "a@b.c", "", "", AccountType::Professor).unwrap();
    assert!(matches!(
        create_account(&mut users, 2, "a@b.c", "", "", AccountType::Student).unwrap(),
        AccountCreation::DuplicateData
    ));
    assert_eq!(users.len(), 1);
}

#[test]
fn student_registration_creates_account_and_index() {
    let mut users: UserStore = RevisionStore::new();
    let mut indices = RevisionStore::new();
    let mut generations = RevisionStore::new();
    let mut programs = RevisionStore::new();
    Generation::create(&mut generations, 1, 2024).unwrap();
    Program::create(&mut programs, 1, "se".to_owned(), "Software".to_owned()).unwrap();

    // A missing program aborts before anything is written.
    let r = create_student_account(
        &mut users,
        &mut indices,
        &generations,
        &programs,
        2,
        "s@x.y",
        "",
        "",
        "missing",
        2024,
        5,
    );
    assert_eq!(r.unwrap_err(), Error::EntryNotFound);
    assert_eq!(users.len(), 0);
    assert_eq!(indices.len(), 0);

    let r = create_student_account(
        &mut users,
        &mut indices,
        &generations,
        &programs,
        2,
        "s@x.y",
        "",
        "",
        "se",
        2024,
        5,
    )
    .unwrap();
    assert!(matches!(r, AccountCreation::Created(_)));
    let student = User::get_by_email(&users, "s@x.y").unwrap();
    assert_eq!(student.account_type, AccountType::Student);
    assert_eq!(indices.len(), 1);
    let index_row = indices.row(0);
    assert_eq!(index_row.payload.student, student.id);
    assert_eq!(index_row.payload.number, 5);
}

#[test]
fn user_updates_append_revisions() {
    let mut users: UserStore = RevisionStore::new();
    User::builder("old@x.y".to_owned(), "d".to_owned())
        .build()
        .create(&mut users, 1)
        .unwrap();
    let user = User::get_by_email(&users, "old@x.y").unwrap();
    user.update_email(&mut users, 2, "new@x.y").unwrap();
    assert_eq!(users.len(), 2);
    let updated = User::get_by_id(&users, user.id).unwrap();
    assert_eq!(updated.email, "new@x.y");
    assert_eq!(
        User::get_by_email(&users, "old@x.y").unwrap_err(),
        Error::EntryNotFound
    );
    // Soft deletion hides the account; the history stays queryable.
    user.update_deleted(&mut users, 3, true).unwrap();
    assert_eq!(User::get_by_id(&users, user.id).unwrap_err(), Error::EntryNotFound);
    assert_eq!(users.history_indices(user.id).len(), 3);
    // And it can be restored.
    user.update_deleted(&mut users, 4, false).unwrap();
    assert_eq!(User::get_by_id(&users, user.id).unwrap().email, "new@x.y");
}

#[test]
fn account_type_decoding_and_roles() {
    assert_eq!(AccountType::try_from(0).unwrap(), AccountType::Student);
    assert_eq!(AccountType::try_from(1).unwrap(), AccountType::Professor);
    assert_eq!(AccountType::try_from(2).unwrap(), AccountType::Administrator);
    assert_eq!(
        AccountType::try_from(3).unwrap_err(),
        Error::InvalidAccountTypeValue
    );
    let mut users: UserStore = RevisionStore::new();
    User::builder("p@x".to_owned(), "d".to_owned())
        .with_account_type(AccountType::Professor)
        .build()
        .create(&mut users, 1)
        .unwrap();
    let p = User::get_by_email(&users, "p@x").unwrap();
    assert!(p.is_professor());
    assert!(!p.is_administrator());
}

#[test]
fn course_lifecycle_and_authorization() {
    let mut courses = RevisionStore::new();
    let mut discussions = RevisionStore::new();
    Course::create(&mut courses, &mut discussions, 1, 2024, "Algorithms", "algorithms", 9)
        .unwrap();
    assert_eq!(discussions.len(), 1);
    let course = Course::get_by_url(&courses, "algorithms").unwrap();
    assert_eq!(course.year, 2024);
    assert_eq!(course.professor, 9);

    let all = Courses::get_all(&courses).unwrap();
    assert_eq!(all.0.len(), 1);
    let teaching = Courses::get_teaching(&courses, 9).unwrap();
    assert_eq!(teaching.0.len(), 1);
    assert!(Courses::get_teaching(&courses, 8).unwrap().0.is_empty());

    let mut users: UserStore = RevisionStore::new();
    User::builder("prof@x".to_owned(), "d".to_owned())
        .with_account_type(AccountType::Professor)
        .build()
        .create(&mut users, 1)
        .unwrap();
    let prof = User::get_by_email(&users, "prof@x").unwrap();
    // The owning professor and administrators may edit; others may not.
    assert_eq!(course.authorized_to_edit(&prof), prof.id == 9);

    course.delete(&mut courses, 5).unwrap();
    assert_eq!(
        Course::get_by_url(&courses, "algorithms").unwrap_err(),
        Error::EntryNotFound
    );
    assert_eq!(courses.history_indices(course.id).len(), 2);
}

#[test]
fn enrolments_create_get_delete() {
    let mut enrolments = RevisionStore::new();
    Enrolment::create(&mut enrolments, 1, 10, 20).unwrap();
    assert_eq!(
        Enrolment::create(&mut enrolments, 2, 10, 20).unwrap_err(),
        Error::DuplicateEntry
    );
    let e = Enrolment::get(&enrolments, 10, 20).unwrap();
    assert_eq!((e.course, e.student), (10, 20));
    e.delete(&mut enrolments, 3).unwrap();
    assert_eq!(
        Enrolment::get(&enrolments, 10, 20).unwrap_err(),
        Error::EntryNotFound
    );
    // Re-enrolling after a withdrawal works: the pair gets a new identity.
    Enrolment::create(&mut enrolments, 4, 10, 20).unwrap();
    assert!(Enrolment::get(&enrolments, 10, 20).is_ok());

    let mut courses = RevisionStore::new();
    let mut discussions = RevisionStore::new();
    Course::create(&mut courses, &mut discussions, 1, 2024, "C", "c", 1).unwrap();
    let course = Course::get_by_url(&courses, "c").unwrap();
    let mut enrolments = RevisionStore::new();
    Enrolment::create(&mut enrolments, 1, course.id, 20).unwrap();
    let enrolled = Courses::get_enrolled(&courses, &enrolments, 20).unwrap();
    assert_eq!(enrolled.0.len(), 1);
    assert!(Courses::get_enrolled(&courses, &enrolments, 21)
        .unwrap()
        .0
        .is_empty());
}

#[test]
fn assignment_creation_lookup_and_kinds() {
    let mut astore = RevisionStore::new();
    let mut gstore = RevisionStore::new();
    let mut pstore = RevisionStore::new();
    GradeAssignment::create(&mut gstore, &mut astore, 1, 7, "Essay", "essay").unwrap();
    PointAssignment::create(&mut pstore, &mut astore, 2, 7, "Quiz", "quiz", 100).unwrap();

    let base = BaseAssignment::get(&astore, 7, "Essay").unwrap();
    assert_eq!(base.url, "essay");
    let g = GradeAssignment::get(&gstore, &astore, 7, "essay").unwrap();
    assert_eq!(g.base.name, "Essay");
    let p = PointAssignment::get(&pstore, &astore, 7, "quiz").unwrap();
    assert_eq!(p.data.max_points, 100);
    assert_eq!(
        GradeAssignment::get(&gstore, &astore, 8, "essay").unwrap_err(),
        Error::EntryNotFound
    );

    assert!(matches!(
        Assignment::get(&pstore, &gstore, &astore, 7, "quiz").unwrap(),
        Assignment::Point(_)
    ));
    assert!(matches!(
        Assignment::get(&pstore, &gstore, &astore, 7, "essay").unwrap(),
        Assignment::Grade(_)
    ));
    assert_eq!(
        Assignment::get(&pstore, &gstore, &astore, 7, "nope").unwrap_err(),
        Error::EntryNotFound
    );

    // Grade assignments come first, then point assignments.
    let listing = Assignments::get(&gstore, &pstore, &astore, 7).unwrap();
    assert_eq!(listing.0.len(), 2);
    assert!(matches!(listing.0[0], Assignment::Grade(_)));
    assert!(matches!(listing.0[1], Assignment::Point(_)));
}

#[test]
fn grading_upserts_and_graded_listing() {
    let mut astore = RevisionStore::new();
    let mut gstore = RevisionStore::new();
    let mut pstore = RevisionStore::new();
    let mut gpstore = RevisionStore::new();
    let mut ppstore = RevisionStore::new();
    GradeAssignment::create(&mut gstore, &mut astore, 1, 7, "Essay", "essay").unwrap();
    PointAssignment::create(&mut pstore, &mut astore, 2, 7, "Quiz", "quiz", 100).unwrap();
    let g = GradeAssignment::get(&gstore, &astore, 7, "essay").unwrap();
    let p = PointAssignment::get(&pstore, &astore, 7, "quiz").unwrap();

    // No progress yet surfaces as an explicit absent value.
    let graded =
        GradedAssignments::get(&gstore, &pstore, &astore, &gpstore, &ppstore, 7, 55).unwrap();
    assert_eq!(graded.0.len(), 2);
    match &graded.0[0] {
        GradedAssignment::Grade(gg) => assert!(gg.grade.is_none()),
        other => panic!("expected the grade assignment first, got {:?}", other),
    }
    match &graded.0[1] {
        GradedAssignment::Point(gp) => assert!(gp.points.is_none()),
        other => panic!("expected the point assignment second, got {:?}", other),
    }

    // First grading inserts; regrading updates the same pair.
    GradeAssignment::grade(
        &mut gpstore,
        3,
        g.data.id,
        55,
        GradeAssignmentGrade { major: 7, minor: 50 },
    )
    .unwrap();
    GradeAssignment::grade(
        &mut gpstore,
        4,
        g.data.id,
        55,
        GradeAssignmentGrade { major: 9, minor: 0 },
    )
    .unwrap();
    PointAssignment::grade(&mut ppstore, 5, p.data.id, 55, 80).unwrap();
    PointAssignment::grade(&mut ppstore, 6, p.data.id, 55, 95).unwrap();
    assert_eq!(gpstore.current_indices().len(), 1);
    assert_eq!(ppstore.current_indices().len(), 1);

    let graded =
        GradedAssignments::get(&gstore, &pstore, &astore, &gpstore, &ppstore, 7, 55).unwrap();
    match &graded.0[0] {
        GradedAssignment::Grade(gg) => {
            assert_eq!(gg.grade, Some(GradeAssignmentGrade { major: 9, minor: 0 }))
        }
        other => panic!("expected the grade assignment first, got {:?}", other),
    }
    match &graded.0[1] {
        GradedAssignment::Point(gp) => assert_eq!(gp.points, Some(95)),
        other => panic!("expected the point assignment second, got {:?}", other),
    }
    // Another student still has no progress.
    let graded =
        GradedAssignments::get(&gstore, &pstore, &astore, &gpstore, &ppstore, 7, 56).unwrap();
    match &graded.0[0] {
        GradedAssignment::Grade(gg) => assert!(gg.grade.is_none()),
        other => panic!("expected the grade assignment first, got {:?}", other),
    }
}

#[test]
fn generations_and_programs() {
    let mut generations = RevisionStore::new();
    Generation::create(&mut generations, 1, 2023).unwrap();
    Generation::create(&mut generations, 2, 2024).unwrap();
    let g = Generation::get_by_year(&generations, 2023).unwrap();
    assert_eq!(Generation::get_by_id(&generations, g.id).unwrap().year, 2023);
    assert_eq!(
        Generation::get_by_year(&generations, 1999).unwrap_err(),
        Error::EntryNotFound
    );
    assert_eq!(Generations::get(&generations).unwrap().0.len(), 2);
    g.delete(&mut generations, 3).unwrap();
    assert_eq!(Generations::get(&generations).unwrap().0.len(), 1);

    let mut programs = RevisionStore::new();
    Program::create(&mut programs, 1, "cs".to_owned(), "Computing".to_owned()).unwrap();
    let p = Program::get_by_short_name(&programs, "cs").unwrap();
    assert_eq!(p.full_name, "Computing");
    assert_eq!(Program::get_by_id(&programs, p.id).unwrap().short_name, "cs");
    assert_eq!(
        Program::get_by_short_name(&programs, "ee").unwrap_err(),
        Error::EntryNotFound
    );
    assert_eq!(Programs::get(&programs).unwrap().0.len(), 1);
    p.clone().delete(&mut programs, 2).unwrap();
    assert!(Programs::get(&programs).unwrap().0.is_empty());
}
