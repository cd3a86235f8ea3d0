//! Courses and enrolments: typed facades over their revision stores,
//! including the authorization predicate for course mutation.

use vstd::prelude::*;

use crate::discussion::{Discussion, DiscussionStore};
use crate::error::Error;
use crate::store::{Revision, RevisionStore};
use crate::user::{lemma_filter_push, AccountType, User, UserId};

verus! {

/// The identity of a course.
pub type CourseId = u32;

/// The payload of one enrolment revision: the enrolled pair.
pub struct EnrolmentData {
    pub course: CourseId,
    pub student: UserId,
}

/// The revision table of enrolments.
pub type EnrolmentStore = RevisionStore<EnrolmentData>;

/// A student's enrolment in a course.
#[derive(Clone, Copy, Debug, PartialEq, Eq, Structural)]
pub struct Enrolment {
    pub course: CourseId,
    pub student: UserId,
}

/// Some current enrolment row carries this (course, student) pair.
pub open spec fn enrolment_current(store: EnrolmentStore, course: CourseId, student: UserId) -> bool {
    exists|i: int|
        #[trigger] store.current_at(i) && store.rows@[i].payload.course == course
            && store.rows@[i].payload.student == student
}

/// Every revision of identity `id` carries a marker at most `marker`.
pub open spec fn markers_at_most(store: EnrolmentStore, id: u32, marker: u64) -> bool {
    forall|j: int|
        0 <= j < store.rows@.len() && #[trigger] store.rows@[j].identity == id
            ==> store.rows@[j].marker <= marker
}

/// Every current row of the pair sits under identity `id`: the uniqueness
/// the pair's one-live-enrolment rule keeps.
pub open spec fn pair_only_under(
    store: EnrolmentStore,
    course: CourseId,
    student: UserId,
    id: u32,
) -> bool {
    forall|j: int|
        #[trigger] store.current_at(j) && store.rows@[j].payload.course == course
            && store.rows@[j].payload.student == student ==> store.rows@[j].identity == id
}

/// Finds the first current enrolment row of the pair.
fn enrolment_index_for(store: &EnrolmentStore, course: CourseId, student: UserId) -> (r: Option<
    usize,
>)
    ensures
        match r {
            Some(i) => i < store.rows@.len() && store.current_at(i as int) && store.rows@[
                i as int
            ].payload.course == course && store.rows@[i as int].payload.student == student,
            None => !enrolment_current(*store, course, student),
        },
{
    let mut i: usize = 0;
    while i < store.len()
        invariant
            i <= store.rows@.len(),
            forall|j: int|
                0 <= j < i ==> !(#[trigger] store.current_at(j) && store.rows@[j].payload.course
                    == course && store.rows@[j].payload.student == student),
        decreases store.rows@.len() - i,
    {
        let row = store.row(i);
        if row.payload.course == course && row.payload.student == student {
            if store.is_current(i) {
                return Some(i);
            }
        }
        i = i + 1;
    }
    None
}

impl Enrolment {
    /// Enrols the student in the course under a fresh identity;
    /// `DuplicateEntry` exactly when the pair is already enrolled.
    pub fn create(store: &mut EnrolmentStore, marker: u64, course: CourseId, student: UserId) -> (r:
        Result<(), Error>)
        ensures
            match r {
                Ok(()) => !enrolment_current(*old(store), course, student) && final(store)
                    .created_fresh(*old(store), marker, EnrolmentData { course, student }),
                Err(e) => final(store).rows@ == old(store).rows@ && (if enrolment_current(
                    *old(store),
                    course,
                    student,
                ) {
                    e == Error::DuplicateEntry
                } else {
                    e == Error::StorageFailure && EnrolmentStore::max_identity(old(store).rows@)
                        >= u32::MAX
                }),
            },
    {
        match enrolment_index_for(store, course, student) {
            Some(_) => Err(Error::DuplicateEntry),
            None => match store.insert_revision(
                None,
                marker,
                false,
                EnrolmentData { course, student },
            ) {
                Ok(_) => Ok(()),
                Err(e) => Err(e),
            },
        }
    }

    /// The current enrolment of the pair; `EntryNotFound` exactly when the
    /// pair is not enrolled.
    pub fn get(store: &EnrolmentStore, course: CourseId, student: UserId) -> (r: Result<
        Enrolment,
        Error,
    >)
        ensures
            match r {
                Ok(e) => enrolment_current(*store, course, student) && e == (Enrolment {
                    course,
                    student,
                }),
                Err(e) => e == Error::EntryNotFound && !enrolment_current(*store, course, student),
            },
    {
        match enrolment_index_for(store, course, student) {
            Some(_) => Ok(Enrolment { course, student }),
            None => Err(Error::EntryNotFound),
        }
    }

    /// Withdraws the enrolment by appending a deletion revision to the
    /// identity of the pair's current row; an unenrolled pair is left
    /// untouched, as a delete matching zero rows. With a marker no older
    /// than the pair's revisions and the pair held by one identity — the
    /// uniqueness `create` maintains — the pair is gone afterwards.
    pub fn delete(&self, store: &mut EnrolmentStore, marker: u64) -> (r: Result<(), Error>)
        ensures
            r is Ok,
            !enrolment_current(*old(store), self.course, self.student) ==> final(store).rows@ == old(
                store,
            ).rows@,
            enrolment_current(*old(store), self.course, self.student) ==> ({
                let id = final(store).rows@.last().identity;
                let i = old(store).current_index(id);
                &&& final(store).rows@.len() == old(store).rows@.len() + 1
                &&& final(store).rows@.drop_last() == old(store).rows@
                &&& final(store).rows@.last().deleted
                &&& final(store).rows@.last().marker == marker
                &&& final(store).rows@.last().payload == (EnrolmentData {
                    course: self.course,
                    student: self.student,
                })
                &&& old(store).current_at(i)
                &&& old(store).rows@[i].payload.course == self.course
                &&& old(store).rows@[i].payload.student == self.student
                &&& ((markers_at_most(*old(store), id, marker) && pair_only_under(
                    *old(store),
                    self.course,
                    self.student,
                    id,
                )) ==> !enrolment_current(*final(store), self.course, self.student))
            }),
    {
        match enrolment_index_for(store, self.course, self.student) {
            Some(i) => {
                let id = store.row(i).identity;
                proof {
                    store.lemma_current_index(id, i as int);
                    assert(store.rows@[i as int].identity == id);
                }
                let res = store.insert_revision(
                    Some(id),
                    marker,
                    true,
                    EnrolmentData { course: self.course, student: self.student },
                );
                proof {
                    assert(store.rows@.drop_last() =~= old(store).rows@);
                    assert(old(store).current_index(id) == i as int);
                    let n = store.rows@.len() - 1;
                    if markers_at_most(*old(store), id, marker) && pair_only_under(
                        *old(store),
                        self.course,
                        self.student,
                        id,
                    ) {
                        if enrolment_current(*store, self.course, self.student) {
                            let ip = choose|ip: int|
                                store.current_at(ip) && store.rows@[ip].payload.course
                                    == self.course && store.rows@[ip].payload.student
                                    == self.student;
                            assert(ip < n);
                            assert(old(store).current_at(ip)) by {
                                assert forall|j: int|
                                    0 <= j < old(store).rows@.len() implies !#[trigger] RevisionStore::<
                                    EnrolmentData,
                                >::supersedes(old(store).rows@, j, ip) by {
                                    assert(!RevisionStore::<EnrolmentData>::supersedes(
                                        store.rows@,
                                        j,
                                        ip,
                                    ));
                                    assert(store.rows@[j] == old(store).rows@[j]);
                                }
                            }
                            assert(old(store).rows@[ip].identity == id);
                            assert(old(store).rows@[ip].marker <= marker);
                            assert(RevisionStore::<EnrolmentData>::supersedes(
                                store.rows@,
                                n as int,
                                ip,
                            ));
                            assert(false);
                        }
                    }
                }
                match res {
                    Ok(_) => Ok(()),
                    Err(e) => Err(e),
                }
            },
            None => Ok(()),
        }
    }
}

/// The payload of one course revision.
pub struct CourseData {
    pub year: u32,
    pub name: String,
    pub url: String,
    pub professor: UserId,
    pub discussion: u32,
}

/// The revision table of courses.
pub type CourseStore = RevisionStore<CourseData>;

/// A materialized course row: the current revision of one identity.
#[derive(Debug)]
pub struct Course {
    pub id: CourseId,
    pub year: u32,
    pub name: String,
    pub url: String,
    pub professor: UserId,
    pub discussion: u32,
    pub deleted: bool,
}

impl Clone for Course {
    fn clone(&self) -> (r: Self)
        ensures
            r == *self,
    {
        Course {
            id: self.id,
            year: self.year,
            name: self.name.clone(),
            url: self.url.clone(),
            professor: self.professor,
            discussion: self.discussion,
            deleted: self.deleted,
        }
    }
}

/// The course a current row materializes to.
pub open spec fn course_at(store: CourseStore, i: int) -> Course {
    Course {
        id: store.rows@[i].identity,
        year: store.rows@[i].payload.year,
        name: store.rows@[i].payload.name,
        url: store.rows@[i].payload.url,
        professor: store.rows@[i].payload.professor,
        discussion: store.rows@[i].payload.discussion,
        deleted: store.rows@[i].deleted,
    }
}

/// Every course in the current view, in insertion order.
pub open spec fn courses_view(store: CourseStore) -> Seq<Course> {
    store.current_positions().map_values(|u: usize| course_at(store, u as int))
}

/// Materializes the course row at position `i`.
fn materialize_course(store: &CourseStore, i: usize) -> (r: Course)
    requires
        i < store.rows@.len(),
    ensures
        r == course_at(*store, i as int),
{
    let row = store.row(i);
    Course {
        id: row.identity,
        year: row.payload.year,
        name: row.payload.name.clone(),
        url: row.payload.url.clone(),
        professor: row.payload.professor,
        discussion: row.payload.discussion,
        deleted: row.deleted,
    }
}

/// A set of course rows.
#[derive(Debug)]
pub struct Courses(pub Vec<Course>);

impl Courses {
    /// Every live course, in insertion order.
    pub fn get_all(store: &CourseStore) -> (r: Result<Courses, Error>)
        ensures
            r matches Ok(c) && c.0@ == courses_view(*store),
    {
        let positions = store.current_indices();
        let mut out: Vec<Course> = Vec::new();
        let mut k: usize = 0;
        while k < positions.len()
            invariant
                k <= positions@.len(),
                positions@ == store.current_positions(),
                forall|m: int| 0 <= m < positions@.len() ==> store.current_at(positions@[m] as int),
                out@.len() == k,
                forall|m: int|
                    0 <= m < k ==> out@[m] == course_at(*store, #[trigger] positions@[m] as int),
            decreases positions@.len() - k,
        {
            let i = positions[k];
            out.push(materialize_course(store, i));
            k = k + 1;
        }
        assert(out@ =~= courses_view(*store));
        Ok(Courses(out))
    }

    /// The live courses the student is enrolled in, in insertion order.
    pub fn get_enrolled(
        store: &CourseStore,
        enrolments: &EnrolmentStore,
        student: UserId,
    ) -> (r: Result<Courses, Error>)
        ensures
            r matches Ok(c) && c.0@ == courses_view(*store).filter(
                (|c: Course| enrolment_current(*enrolments, c.id, student)),
            ),
    {
        let all = Self::get_all(store)?;
        let ghost view = courses_view(*store);
        let mut rows = all.0;
        let total = rows.len();
        let mut out: Vec<Course> = Vec::new();
        let mut i: usize = 0;
        proof {
            assert(view.subrange(0, 0).filter(
                |c: Course| enrolment_current(*enrolments, c.id, student),
            ) =~= Seq::<Course>::empty()) by {
                reveal(Seq::filter);
            }
        }
        while rows.len() > 0
            invariant
                view.len() == total,
                i <= total,
                rows@ =~= view.subrange(i as int, view.len() as int),
                out@ == view.subrange(0, i as int).filter(
                    (|c: Course| enrolment_current(*enrolments, c.id, student)),
                ),
            decreases rows@.len(),
        {
            let x = rows.remove(0);
            assert(x == view[i as int]);
            let keep = match enrolment_index_for(enrolments, x.id, student) {
                Some(_) => true,
                None => false,
            };
            proof {
                lemma_filter_push(
                    view.subrange(0, i as int),
                    |c: Course| enrolment_current(*enrolments, c.id, student),
                    x,
                );
                assert(view.subrange(0, i as int).push(x) =~= view.subrange(0, i + 1));
            }
            if keep {
                out.push(x);
            }
            i = i + 1;
            proof {
                assert(rows@ =~= view.subrange(i as int, view.len() as int));
            }
        }
        proof {
            assert(view.subrange(0, view.len() as int) =~= view);
        }
        Ok(Courses(out))
    }

    /// The live courses the professor teaches, in insertion order.
    pub fn get_teaching(store: &CourseStore, professor: UserId) -> (r: Result<Courses, Error>)
        ensures
            r matches Ok(c) && c.0@ == courses_view(*store).filter(
                (|c: Course| c.professor == professor),
            ),
    {
        let all = Self::get_all(store)?;
        let ghost view = courses_view(*store);
        let mut rows = all.0;
        let total = rows.len();
        let mut out: Vec<Course> = Vec::new();
        let mut i: usize = 0;
        proof {
            assert(view.subrange(0, 0).filter(|c: Course| c.professor == professor) =~= Seq::<
                Course,
            >::empty()) by {
                reveal(Seq::filter);
            }
        }
        while rows.len() > 0
            invariant
                view.len() == total,
                i <= total,
                rows@ =~= view.subrange(i as int, view.len() as int),
                out@ == view.subrange(0, i as int).filter(
                    (|c: Course| c.professor == professor),
                ),
            decreases rows@.len(),
        {
            let x = rows.remove(0);
            assert(x == view[i as int]);
            let keep = x.professor == professor;
            proof {
                lemma_filter_push(
                    view.subrange(0, i as int),
                    |c: Course| c.professor == professor,
                    x,
                );
                assert(view.subrange(0, i as int).push(x) =~= view.subrange(0, i + 1));
            }
            if keep {
                out.push(x);
            }
            i = i + 1;
            proof {
                assert(rows@ =~= view.subrange(i as int, view.len() as int));
            }
        }
        proof {
            assert(view.subrange(0, view.len() as int) =~= view);
        }
        Ok(Courses(out))
    }
}

impl Course {
    /// Opens a discussion for the course, then records the course under a
    /// fresh identity pointing at it. When no identity can be allocated,
    /// neither store changes.
    pub fn create(
        store: &mut CourseStore,
        discussions: &mut DiscussionStore,
        marker: u64,
        year: u32,
        name: &str,
        url: &str,
        professor: UserId,
    ) -> (r: Result<(), Error>)
        ensures
            match r {
                Ok(()) => ({
                    &&& final(discussions).created_fresh(
                        *old(discussions),
                        marker,
                        crate::discussion::DiscussionData { markdown: Option::None },
                    )
                    &&& final(store).rows@.len() == old(store).rows@.len() + 1
                    &&& final(store).rows@.drop_last() == old(store).rows@
                    &&& !old(store).has_identity(final(store).rows@.last().identity)
                    &&& final(store).rows@.last().marker == marker
                    &&& !final(store).rows@.last().deleted
                    &&& final(store).rows@.last().payload.year == year
                    &&& final(store).rows@.last().payload.name@ == name@
                    &&& final(store).rows@.last().payload.url@ == url@
                    &&& final(store).rows@.last().payload.professor == professor
                    &&& final(store).rows@.last().payload.discussion == final(discussions)
                        .rows@.last().identity
                }),
                Err(e) => e == Error::StorageFailure && (CourseStore::max_identity(
                    old(store).rows@,
                ) >= u32::MAX || DiscussionStore::max_identity(old(discussions).rows@)
                    >= u32::MAX) && final(store).rows@ == old(store).rows@
                    && final(discussions).rows@ == old(discussions).rows@,
            },
    {
        if !store.can_allocate() {
            return Err(Error::StorageFailure);
        }
        let discussion = match Discussion::create(discussions, marker) {
            Ok(d) => d,
            Err(e) => {
                return Err(e);
            },
        };
        let payload = CourseData {
            year,
            name: name.to_owned(),
            url: url.to_owned(),
            professor,
            discussion,
        };
        let res = store.insert_revision(None, marker, false, payload);
        proof {
            assert(store.rows@.drop_last() =~= old(store).rows@);
        }
        match res {
            Ok(_) => Ok(()),
            Err(e) => Err(e),
        }
    }

    /// The first live course whose url is exactly `url`; `EntryNotFound`
    /// exactly when there is none.
    pub fn get_by_url(store: &CourseStore, url: &str) -> (r: Result<Course, Error>)
        ensures
            match r {
                Ok(c) => exists|i: int|
                    #[trigger] store.current_at(i) && store.rows@[i].payload.url@ == url@ && c
                        == course_at(*store, i),
                Err(e) => e == Error::EntryNotFound && forall|i: int|
                    #[trigger] store.current_at(i) ==> store.rows@[i].payload.url@ != url@,
            },
    {
        let mut i: usize = 0;
        while i < store.len()
            invariant
                i <= store.rows@.len(),
                forall|j: int|
                    0 <= j < i && #[trigger] store.current_at(j) ==> store.rows@[j].payload.url@
                        != url@,
            decreases store.rows@.len() - i,
        {
            if crate::text::str_eq(store.row(i).payload.url.as_str(), url) {
                if store.is_current(i) {
                    return Ok(materialize_course(store, i));
                }
            }
            i = i + 1;
        }
        Err(Error::EntryNotFound)
    }

    /// Marks the course deleted by appending a deletion revision; its
    /// history stays. `EntryNotFound` when the identity never existed.
    pub fn delete(&self, store: &mut CourseStore, marker: u64) -> (r: Result<(), Error>)
        ensures
            match r {
                Ok(()) => ({
                    &&& old(store).has_identity(self.id)
                    &&& final(store).rows@.len() == old(store).rows@.len() + 1
                    &&& final(store).rows@.drop_last() == old(store).rows@
                    &&& final(store).rows@.last().identity == self.id
                    &&& final(store).rows@.last().marker == marker
                    &&& final(store).rows@.last().deleted
                    &&& final(store).rows@.last().payload.year == self.year
                    &&& final(store).rows@.last().payload.name@ == self.name@
                    &&& final(store).rows@.last().payload.url@ == self.url@
                    &&& final(store).rows@.last().payload.professor == self.professor
                    &&& final(store).rows@.last().payload.discussion == self.discussion
                }),
                Err(e) => e == Error::EntryNotFound && !old(store).has_identity(self.id) && final(store)
                    .rows@ == old(store).rows@,
            },
    {
        let payload = CourseData {
            year: self.year,
            name: self.name.clone(),
            url: self.url.clone(),
            professor: self.professor,
            discussion: self.discussion,
        };
        let res = store.insert_revision(Some(self.id), marker, true, payload);
        proof {
            if old(store).has_identity(self.id) {
                assert(store.rows@.drop_last() =~= old(store).rows@);
            }
        }
        match res {
            Ok(_) => Ok(()),
            Err(e) => Err(e),
        }
    }

    /// Whether the user may mutate this course: administrators and the
    /// owning professor, nobody else.
    pub fn authorized_to_edit(&self, user: &User) -> (r: bool)
        ensures
            r == (user.account_type == AccountType::Administrator || self.professor == user.id),
    {
        user.is_administrator() || self.professor == user.id()
    }
}

} // verus!
