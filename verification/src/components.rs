//! The account-listing control: its posted form, the mapping of the form
//! onto retrieval options, and the listing context each mode builds.

use vstd::prelude::*;

use crate::assignment::{GradeAssignmentGrade, GradeProgressStore, PointProgressStore};
use crate::course::EnrolmentStore;
use crate::database::SortDirection;
use crate::error::Error;
use crate::index::{GenerationStore, IndexNumber, IndexStore, ProgramStore};
use crate::pagination::page_slice;
use crate::text::opt_view;
use crate::user::{
    clone_opt_string, enrolment_extended, filter_rows, filters_absent, grade_progress_extended,
    point_progress_extended, sort_rows, users_join_view, AccountType, RetrievalFilters,
    RetrievalSorts, UserId, UserStore, UserWithIndex, UserWithIndexAndEnrolment,
    UserWithIndexAndGradeProgress, UserWithIndexAndPointProgress, UsersRetrievalOptions,
    UsersWithIndex, UsersWithIndexAndEnrolment, UsersWithIndexAndGradeProgress,
    UsersWithIndexAndPointProgress,
};

verus! {

/// The listing rows of the edit mode.
#[derive(Debug)]
pub struct EditData {
    pub users: Vec<UserWithIndex>,
}

/// The listing rows of the enrolment mode.
#[derive(Debug)]
pub struct EnrolData {
    pub users: Vec<UserWithIndexAndEnrolment>,
}

/// The listing rows of the point-progress mode.
#[derive(Debug)]
pub struct PointProgressData {
    pub users: Vec<UserWithIndexAndPointProgress>,
}

/// The listing rows of the grade-progress mode.
#[derive(Debug)]
pub struct GradeProgressData {
    pub users: Vec<UserWithIndexAndGradeProgress>,
}

/// The populated listing, by mode.
#[derive(Debug)]
pub enum ControlType {
    Edit(EditData),
    Enrol(EnrolData),
    PointProgress(PointProgressData),
    GradeProgress(GradeProgressData),
}

/// What one listing page renders: the posted form, the page count, and
/// the rows of the requested mode.
#[derive(Debug)]
pub struct LayoutContext {
    pub form: Option<FormData>,
    pub number_of_pages: u64,
    pub control_type: ControlType,
}

/// A sort direction as posted: possibly left unset.
#[derive(Clone, Copy, Debug, PartialEq, Eq, Structural)]
pub enum FormSortDirection {
    Unsorted,
    Ascending,
    Descending,
}

/// The sort key a posted direction asks for.
pub open spec fn spec_sort_direction(d: FormSortDirection) -> Option<SortDirection> {
    match d {
        FormSortDirection::Unsorted => Option::None,
        FormSortDirection::Ascending => Option::Some(SortDirection::Ascending),
        FormSortDirection::Descending => Option::Some(SortDirection::Descending),
    }
}

impl FormSortDirection {
    /// The sort key this posted direction asks for.
    pub fn to_sort_direction(&self) -> (r: Option<SortDirection>)
        ensures
            r == spec_sort_direction(*self),
    {
        match self {
            FormSortDirection::Unsorted => None,
            FormSortDirection::Ascending => Some(SortDirection::Ascending),
            FormSortDirection::Descending => Some(SortDirection::Descending),
        }
    }
}

/// A posted change of one per-account value: which account, and the value
/// before and after.
#[derive(Debug)]
pub struct UserValueDifference<T> {
    pub user: UserId,
    pub old_value: T,
    pub new_value: T,
}

impl<T> UserValueDifference<T> {
    /// The account the change concerns.
    pub fn user(&self) -> (r: UserId)
        ensures
            r == self.user,
    {
        self.user
    }

    /// The posted new value.
    pub fn new_value(&self) -> (r: &T)
        ensures
            r == &self.new_value,
    {
        &self.new_value
    }
}

/// A posted points change.
pub type PointProgress = UserValueDifference<Option<u32>>;

/// A posted grade change.
pub type GradeProgress = UserValueDifference<Option<GradeAssignmentGrade>>;

/// A posted enrolment toggle.
pub type EnrolDropdown = UserValueDifference<bool>;

impl UserValueDifference<bool> {
    /// The posted value differs from the old one.
    pub fn value_changed(&self) -> (r: bool)
        ensures
            r == (self.old_value != self.new_value),
    {
        self.old_value != self.new_value
    }
}

impl UserValueDifference<Option<u32>> {
    /// The posted value differs from the old one.
    pub fn value_changed(&self) -> (r: bool)
        ensures
            r == (self.old_value != self.new_value),
    {
        match (&self.old_value, &self.new_value) {
            (Option::None, Option::None) => false,
            (Option::Some(a), Option::Some(b)) => *a != *b,
            _ => true,
        }
    }
}

impl UserValueDifference<Option<GradeAssignmentGrade>> {
    /// The posted value differs from the old one.
    pub fn value_changed(&self) -> (r: bool)
        ensures
            r == (self.old_value != self.new_value),
    {
        match (&self.old_value, &self.new_value) {
            (Option::None, Option::None) => false,
            (Option::Some(a), Option::Some(b)) => *a != *b,
            _ => true,
        }
    }
}

/// What the listing control's form posts: one field per filter dimension,
/// one per sort key, the page request, and the per-account changes.
#[derive(Debug)]
pub struct FormData {
    pub filter_email: String,
    pub filter_account_type_enabled: bool,
    pub filter_account_type: AccountType,
    pub filter_first_name: String,
    pub filter_last_name: String,
    pub filter_index_number: Option<IndexNumber>,
    pub filter_program: String,
    pub filter_generation: Option<u32>,
    pub sort_first_name: FormSortDirection,
    pub sort_last_name: FormSortDirection,
    pub sort_email: FormSortDirection,
    pub sort_account_type: FormSortDirection,
    pub sort_index: FormSortDirection,
    pub page: u32,
    pub max_per_page: u32,
    pub enrol_dropdowns: Vec<EnrolDropdown>,
    pub point_progresses: Vec<PointProgress>,
    pub grade_progresses: Vec<GradeProgress>,
}

impl FormData {
    /// The posted enrolment toggles.
    pub fn enrol_dropdowns(&self) -> (r: &Vec<EnrolDropdown>)
        ensures
            r == &self.enrol_dropdowns,
    {
        &self.enrol_dropdowns
    }

    /// The posted points changes.
    pub fn point_progresses(&self) -> (r: &Vec<PointProgress>)
        ensures
            r == &self.point_progresses,
    {
        &self.point_progresses
    }

    /// The posted grade changes.
    pub fn grade_progresses(&self) -> (r: &Vec<GradeProgress>)
        ensures
            r == &self.grade_progresses,
    {
        &self.grade_progresses
    }
}

/// The substring criterion a posted text field asks for: none when the
/// field came empty.
pub open spec fn form_filter_text(s: Seq<char>) -> Option<Seq<char>> {
    if s.len() == 0 {
        Option::None
    } else {
        Option::Some(s)
    }
}

/// How many rows a listing page shows when the form does not say.
pub const DEFAULT_USERS_PER_PAGE: u32 = 10;

/// The retrieval options a posted form asks for: each empty or disabled
/// field contributes no criterion; without a form, the first page of ten
/// with no criterion at all.
pub open spec fn options_match_form(o: UsersRetrievalOptions, form: Option<FormData>) -> bool {
    match form {
        Option::None => ({
            &&& filters_absent(o.filters)
            &&& o.sorts.sort_by_email is None
            &&& o.sorts.sort_by_account_type is None
            &&& o.sorts.sort_by_first_name is None
            &&& o.sorts.sort_by_last_name is None
            &&& o.sorts.sort_by_index is None
            &&& o.page == 0
            &&& o.max_per_page == DEFAULT_USERS_PER_PAGE
        }),
        Option::Some(f) => ({
            &&& opt_view(o.filters.filter_email) == form_filter_text(f.filter_email@)
            &&& o.filters.filter_account_type == (if f.filter_account_type_enabled {
                Option::Some(f.filter_account_type)
            } else {
                Option::<AccountType>::None
            })
            &&& opt_view(o.filters.filter_first_name) == form_filter_text(f.filter_first_name@)
            &&& opt_view(o.filters.filter_last_name) == form_filter_text(f.filter_last_name@)
            &&& opt_view(o.filters.filter_program) == form_filter_text(f.filter_program@)
            &&& o.filters.filter_generation == f.filter_generation
            &&& o.filters.filter_index_number == f.filter_index_number
            &&& o.sorts.sort_by_first_name == spec_sort_direction(f.sort_first_name)
            &&& o.sorts.sort_by_last_name == spec_sort_direction(f.sort_last_name)
            &&& o.sorts.sort_by_email == spec_sort_direction(f.sort_email)
            &&& o.sorts.sort_by_account_type == spec_sort_direction(f.sort_account_type)
            &&& o.sorts.sort_by_index == spec_sort_direction(f.sort_index)
            &&& o.page == f.page
            &&& o.max_per_page == f.max_per_page
        }),
    }
}

/// The substring criterion of a posted text field.
fn text_criterion(s: &String) -> (r: Option<String>)
    ensures
        opt_view(r) == form_filter_text(s@),
{
    if s.as_str().is_empty() {
        None
    } else {
        Some(s.clone())
    }
}

/// Builds the retrieval options a posted form asks for.
pub fn options_from_form(form: &Option<FormData>) -> (r: UsersRetrievalOptions)
    ensures
        options_match_form(r, *form),
{
    let mut options = UsersRetrievalOptions::new(0, DEFAULT_USERS_PER_PAGE);
    match form {
        None => options,
        Some(f) => {
            options.filters.filter_email = text_criterion(&f.filter_email);
            options.filters.filter_account_type = if f.filter_account_type_enabled {
                Some(f.filter_account_type)
            } else {
                None
            };
            options.filters.filter_first_name = text_criterion(&f.filter_first_name);
            options.filters.filter_last_name = text_criterion(&f.filter_last_name);
            options.filters.filter_program = text_criterion(&f.filter_program);
            options.filters.filter_generation = f.filter_generation;
            options.filters.filter_index_number = f.filter_index_number;
            options.sorts.sort_by_first_name = f.sort_first_name.to_sort_direction();
            options.sorts.sort_by_last_name = f.sort_last_name.to_sort_direction();
            options.sorts.sort_by_email = f.sort_email.to_sort_direction();
            options.sorts.sort_by_account_type = f.sort_account_type.to_sort_direction();
            options.sorts.sort_by_index = f.sort_index.to_sort_direction();
            options.page = f.page;
            options.max_per_page = f.max_per_page;
            options
        },
    }
}

/// Which mode the listing is asked for, with the mode's key.
pub struct EnrolOptions {
    pub course: u32,
}

/// The point-progress mode's key.
pub struct PointProgressOptions {
    pub assignment: u32,
}

/// The grade-progress mode's key.
pub struct GradeProgressOptions {
    pub assignment: u32,
}

/// The listing mode a caller requests.
pub enum ControlTypeOptions {
    Edit,
    Enrol(EnrolOptions),
    PointProgress(PointProgressOptions),
    GradeProgress(GradeProgressOptions),
}

/// The rows the listing shows under these options: the joined current
/// view, filtered, ordered, and cut to the page.
pub open spec fn listing_rows(
    users: UserStore,
    indices: IndexStore,
    generations: GenerationStore,
    programs: ProgramStore,
    o: UsersRetrievalOptions,
) -> Seq<UserWithIndex> {
    page_slice(
        sort_rows(
            o.sorts,
            filter_rows(users_join_view(users, indices, generations, programs), o.filters),
        ),
        o.max_per_page,
        o.page,
    )
}

impl LayoutContext {
    /// Builds one listing page: derives the options from the posted form,
    /// counts the pages the filters leave, and populates the rows of the
    /// requested mode.
    pub fn new(
        users: &UserStore,
        indices: &IndexStore,
        generations: &GenerationStore,
        programs: &ProgramStore,
        enrolments: &EnrolmentStore,
        gpstore: &GradeProgressStore,
        ppstore: &PointProgressStore,
        form: Option<FormData>,
        control_type: ControlTypeOptions,
    ) -> (r: Result<LayoutContext, Error>)
        requires
            users.rows@.len() < u64::MAX,
        ensures
            match r {
                Ok(c) => exists|o: UsersRetrievalOptions|
                    {
                        &&& #[trigger] options_match_form(o, form)
                        &&& (o.max_per_page == 0 ==> false)
                        &&& c.number_of_pages == (filter_rows(
                            users_join_view(*users, *indices, *generations, *programs),
                            o.filters,
                        ).len() as int / o.max_per_page as int + 1) as u64
                        &&& (match (control_type, c.control_type) {
                            (ControlTypeOptions::Edit, ControlType::Edit(data)) => data.users@
                                == listing_rows(*users, *indices, *generations, *programs, o),
                            (
                                ControlTypeOptions::Enrol(settings),
                                ControlType::Enrol(data),
                            ) => data.users@ == listing_rows(
                                *users,
                                *indices,
                                *generations,
                                *programs,
                                o,
                            ).map_values(
                                (|row: UserWithIndex| enrolment_extended(
                                    *enrolments,
                                    settings.course,
                                    row,
                                )),
                            ),
                            (
                                ControlTypeOptions::PointProgress(settings),
                                ControlType::PointProgress(data),
                            ) => data.users@ == listing_rows(
                                *users,
                                *indices,
                                *generations,
                                *programs,
                                o,
                            ).map_values(
                                (|row: UserWithIndex| point_progress_extended(
                                    *ppstore,
                                    settings.assignment,
                                    row,
                                )),
                            ),
                            (
                                ControlTypeOptions::GradeProgress(settings),
                                ControlType::GradeProgress(data),
                            ) => data.users@ == listing_rows(
                                *users,
                                *indices,
                                *generations,
                                *programs,
                                o,
                            ).map_values(
                                (|row: UserWithIndex| grade_progress_extended(
                                    *gpstore,
                                    settings.assignment,
                                    row,
                                )),
                            ),
                            _ => false,
                        })
                    },
                Err(e) => e == Error::InvalidPageSize,
            },
    {
        let options = options_from_form(&form);
        let ghost o = options;
        if options.max_per_page == 0 {
            return Err(Error::InvalidPageSize);
        }
        let filters_for_count = options.filters.clone();
        let number_of_pages = match UsersWithIndex::get_number_of_pages(
            users,
            indices,
            generations,
            programs,
            filters_for_count,
            options.max_per_page,
        ) {
            Ok(n) => n,
            Err(e) => {
                proof {
                    assert(false);
                }
                return Err(e);
            },
        };
        let control_type = match control_type {
            ControlTypeOptions::Edit => {
                let listing = match UsersWithIndex::get(users, indices, generations, programs, options) {
                    Ok(l) => l,
                    Err(e) => {
                        proof {
                            assert(false);
                        }
                        return Err(Error::InvalidPageSize);
                    },
                };
                ControlType::Edit(EditData { users: listing.0 })
            },
            ControlTypeOptions::Enrol(settings) => {
                let listing = match UsersWithIndexAndEnrolment::get(
                    users,
                    indices,
                    generations,
                    programs,
                    enrolments,
                    options,
                    settings.course,
                ) {
                    Ok(l) => l,
                    Err(e) => {
                        proof {
                            assert(false);
                        }
                        return Err(Error::InvalidPageSize);
                    },
                };
                ControlType::Enrol(EnrolData { users: listing.0 })
            },
            ControlTypeOptions::PointProgress(settings) => {
                let listing = match UsersWithIndexAndPointProgress::get(
                    users,
                    indices,
                    generations,
                    programs,
                    ppstore,
                    options,
                    settings.assignment,
                ) {
                    Ok(l) => l,
                    Err(e) => {
                        proof {
                            assert(false);
                        }
                        return Err(Error::InvalidPageSize);
                    },
                };
                ControlType::PointProgress(PointProgressData { users: listing.0 })
            },
            ControlTypeOptions::GradeProgress(settings) => {
                let listing = match UsersWithIndexAndGradeProgress::get(
                    users,
                    indices,
                    generations,
                    programs,
                    gpstore,
                    options,
                    settings.assignment,
                ) {
                    Ok(l) => l,
                    Err(e) => {
                        proof {
                            assert(false);
                        }
                        return Err(Error::InvalidPageSize);
                    },
                };
                ControlType::GradeProgress(GradeProgressData { users: listing.0 })
            },
        };
        Ok(LayoutContext { form, number_of_pages, control_type })
    }
}

} // verus!
