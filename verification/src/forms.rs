//! The posted forms of the registration and assignment-creation pages,
//! and the decisions they drive. Authorization is the caller's check,
//! before these run.

use vstd::prelude::*;

use crate::assignment::{
    first_assignment_from, AssignmentStore, GradeAssignment, GradeAssignmentLink,
    GradeAssignmentStore, PointAssignment, PointAssignmentLink, PointAssignmentStore,
};
use crate::collaborators::email_address_ok;
use crate::course::CourseId;
use crate::error::Error;
use crate::index::{GenerationStore, IndexStore, ProgramStore};
use crate::registration::{
    create_account, create_student_account, registered_account, AccountCreation,
};
use crate::user::{email_taken, AccountType, UserStore};
use crate::util::spec_string_to_url;

verus! {

/// What the administrator-registration form posts.
#[derive(Debug)]
pub struct FormDataAdministrator {
    pub email: String,
    pub first_name: String,
    pub last_name: String,
}

/// What the professor-registration form posts.
#[derive(Debug)]
pub struct FormDataProfessor {
    pub email: String,
    pub first_name: String,
    pub last_name: String,
}

/// What the student-registration form posts.
#[derive(Debug)]
pub struct FormDataStudent {
    pub email: String,
    pub first_name: String,
    pub last_name: String,
    pub program: String,
    pub generation: u32,
    pub index_number: u32,
}

/// Registers the posted administrator account.
pub fn post_administrator(users: &mut UserStore, marker: u64, form: &FormDataAdministrator) -> (r:
    Result<AccountCreation, Error>)
    ensures
        match r {
            Ok(AccountCreation::InvalidEmail) => !email_address_ok(form.email@)
                && final(users).rows@ == old(users).rows@,
            Ok(AccountCreation::DuplicateData) => email_address_ok(form.email@) && email_taken(
                *old(users),
                form.email@,
            ) && final(users).rows@ == old(users).rows@,
            Ok(AccountCreation::Created(plain)) => plain@.len() == 32 && registered_account(
                *final(users),
                *old(users),
                marker,
                form.email@,
                form.first_name@,
                form.last_name@,
                AccountType::Administrator,
                plain@,
            ),
            Err(e) => e == Error::StorageFailure && final(users).rows@ == old(users).rows@,
        },
{
    create_account(
        users,
        marker,
        form.email.as_str(),
        form.first_name.as_str(),
        form.last_name.as_str(),
        AccountType::Administrator,
    )
}

/// Registers the posted professor account.
pub fn post_professor(users: &mut UserStore, marker: u64, form: &FormDataProfessor) -> (r: Result<
    AccountCreation,
    Error,
>)
    ensures
        match r {
            Ok(AccountCreation::InvalidEmail) => !email_address_ok(form.email@)
                && final(users).rows@ == old(users).rows@,
            Ok(AccountCreation::DuplicateData) => email_address_ok(form.email@) && email_taken(
                *old(users),
                form.email@,
            ) && final(users).rows@ == old(users).rows@,
            Ok(AccountCreation::Created(plain)) => plain@.len() == 32 && registered_account(
                *final(users),
                *old(users),
                marker,
                form.email@,
                form.first_name@,
                form.last_name@,
                AccountType::Professor,
                plain@,
            ),
            Err(e) => e == Error::StorageFailure && final(users).rows@ == old(users).rows@,
        },
{
    create_account(
        users,
        marker,
        form.email.as_str(),
        form.first_name.as_str(),
        form.last_name.as_str(),
        AccountType::Professor,
    )
}

/// Registers the posted student account with its index record.
pub fn post_student(
    users: &mut UserStore,
    indices: &mut IndexStore,
    generations: &GenerationStore,
    programs: &ProgramStore,
    marker: u64,
    form: &FormDataStudent,
) -> (r: Result<AccountCreation, Error>)
    ensures
        match r {
            Ok(AccountCreation::InvalidEmail) => !email_address_ok(form.email@)
                && final(users).rows@ == old(users).rows@ && final(indices).rows@ == old(indices)
                .rows@,
            Ok(AccountCreation::DuplicateData) => email_address_ok(form.email@) && email_taken(
                *old(users),
                form.email@,
            ) && final(users).rows@ == old(users).rows@ && final(indices).rows@ == old(indices)
                .rows@,
            Ok(AccountCreation::Created(plain)) => plain@.len() == 32 && registered_account(
                *final(users),
                *old(users),
                marker,
                form.email@,
                form.first_name@,
                form.last_name@,
                AccountType::Student,
                plain@,
            ) && final(indices).rows@.len() == old(indices).rows@.len() + 1
                && final(indices).rows@.last().payload.number == form.index_number,
            Err(Error::EntryNotFound) => final(users).rows@ == old(users).rows@
                && final(indices).rows@ == old(indices).rows@ && ((forall|pi: int|
                #[trigger] programs.current_at(pi) ==> programs.rows@[pi].payload.short_name@
                    != form.program@) || (forall|gi: int|
                #[trigger] generations.current_at(gi) ==> generations.rows@[gi].payload.year
                    != form.generation)),
            Err(e) => e == Error::StorageFailure && final(users).rows@ == old(users).rows@
                && final(indices).rows@ == old(indices).rows@,
        },
{
    create_student_account(
        users,
        indices,
        generations,
        programs,
        marker,
        form.email.as_str(),
        form.first_name.as_str(),
        form.last_name.as_str(),
        form.program.as_str(),
        form.generation,
        form.index_number,
    )
}

/// What the grade-assignment creation form posts.
#[derive(Debug)]
pub struct FormDataGrade {
    pub name: String,
}

/// What the point-assignment creation form posts.
#[derive(Debug)]
pub struct FormDataPoint {
    pub name: String,
    pub max_points: u32,
}

/// How an assignment-creation attempt ended.
#[derive(Clone, Copy, Debug, PartialEq, Eq, Structural)]
pub enum AssignmentCreation {
    /// A required field was left empty or zero.
    AllFieldsRequired,
    /// The assignment was recorded.
    Created,
}

/// Creates the posted grade assignment under the course: an empty name is
/// rejected, otherwise the assignment is recorded under the slug of its
/// name.
pub fn post_grade(
    gstore: &mut GradeAssignmentStore,
    astore: &mut AssignmentStore,
    marker: u64,
    course: CourseId,
    form: &FormDataGrade,
) -> (r: Result<AssignmentCreation, Error>)
    ensures
        match r {
            Ok(AssignmentCreation::AllFieldsRequired) => form.name@.len() == 0
                && final(astore).rows@ == old(astore).rows@ && final(gstore).rows@ == old(gstore)
                .rows@,
            Ok(AssignmentCreation::Created) => form.name@.len() > 0 && ({
                &&& final(astore).rows@.len() == old(astore).rows@.len() + 1
                &&& final(astore).rows@.drop_last() == old(astore).rows@
                &&& final(astore).rows@.last().marker == marker
                &&& !final(astore).rows@.last().deleted
                &&& final(astore).rows@.last().payload.course == course
                &&& final(astore).rows@.last().payload.name@ == form.name@
                &&& final(astore).rows@.last().payload.url@ == spec_string_to_url(form.name@)
                &&& final(gstore).created_fresh(
                    *old(gstore),
                    marker,
                    GradeAssignmentLink {
                        assignment: final(astore).rows@[first_assignment_from(
                            *final(astore),
                            course,
                            form.name@,
                            0,
                        )].identity,
                    },
                )
            }),
            Err(e) => e == Error::StorageFailure && (AssignmentStore::max_identity(
                old(astore).rows@,
            ) >= u32::MAX || GradeAssignmentStore::max_identity(old(gstore).rows@) >= u32::MAX)
                && final(astore).rows@ == old(astore).rows@ && final(gstore).rows@ == old(gstore)
                .rows@,
        },
{
    if form.name.as_str().is_empty() {
        return Ok(AssignmentCreation::AllFieldsRequired);
    }
    let url = crate::util::string_to_url(form.name.as_str());
    match GradeAssignment::create(gstore, astore, marker, course, form.name.as_str(), url.as_str())
    {
        Ok(()) => Ok(AssignmentCreation::Created),
        Err(e) => Err(e),
    }
}

/// Creates the posted point assignment under the course: an empty name or
/// zero maximum is rejected, otherwise the assignment is recorded under
/// the slug of its name.
pub fn post_point(
    pstore: &mut PointAssignmentStore,
    astore: &mut AssignmentStore,
    marker: u64,
    course: CourseId,
    form: &FormDataPoint,
) -> (r: Result<AssignmentCreation, Error>)
    ensures
        match r {
            Ok(AssignmentCreation::AllFieldsRequired) => (form.name@.len() == 0 || form.max_points
                == 0) && final(astore).rows@ == old(astore).rows@ && final(pstore).rows@
                == old(pstore).rows@,
            Ok(AssignmentCreation::Created) => form.name@.len() > 0 && form.max_points > 0 && ({
                &&& final(astore).rows@.len() == old(astore).rows@.len() + 1
                &&& final(astore).rows@.drop_last() == old(astore).rows@
                &&& final(astore).rows@.last().marker == marker
                &&& !final(astore).rows@.last().deleted
                &&& final(astore).rows@.last().payload.course == course
                &&& final(astore).rows@.last().payload.name@ == form.name@
                &&& final(astore).rows@.last().payload.url@ == spec_string_to_url(form.name@)
                &&& final(pstore).created_fresh(
                    *old(pstore),
                    marker,
                    PointAssignmentLink {
                        assignment: final(astore).rows@[first_assignment_from(
                            *final(astore),
                            course,
                            form.name@,
                            0,
                        )].identity,
                        max_points: form.max_points,
                    },
                )
            }),
            Err(e) => e == Error::StorageFailure && (AssignmentStore::max_identity(
                old(astore).rows@,
            ) >= u32::MAX || PointAssignmentStore::max_identity(old(pstore).rows@) >= u32::MAX)
                && final(astore).rows@ == old(astore).rows@ && final(pstore).rows@ == old(pstore)
                .rows@,
        },
{
    if form.name.as_str().is_empty() || form.max_points == 0 {
        return Ok(AssignmentCreation::AllFieldsRequired);
    }
    let url = crate::util::string_to_url(form.name.as_str());
    match PointAssignment::create(
        pstore,
        astore,
        marker,
        course,
        form.name.as_str(),
        url.as_str(),
        form.max_points,
    ) {
        Ok(()) => Ok(AssignmentCreation::Created),
        Err(e) => Err(e),
    }
}

} // verus!
