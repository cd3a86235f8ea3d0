//! Assignments: the base assignment family and its graded and pointed
//! refinements, the per-student progress tables, and the grading upserts.

use vstd::prelude::*;

use crate::course::CourseId;
use crate::error::Error;
use crate::store::{Revision, RevisionStore};
use crate::user::{lemma_filter_push, UserId};

verus! {

/// The payload of one base-assignment revision.
pub struct AssignmentData {
    pub course: u32,
    pub name: String,
    pub url: String,
    pub discussion: u32,
}

/// The revision table of base assignments.
pub type AssignmentStore = RevisionStore<AssignmentData>;

/// A materialized base assignment row.
#[derive(Debug)]
pub struct BaseAssignment {
    pub id: u32,
    pub course: u32,
    pub name: String,
    pub url: String,
    pub discussion: u32,
    pub deleted: bool,
}

impl Clone for BaseAssignment {
    fn clone(&self) -> (r: Self)
        ensures
            r == *self,
    {
        BaseAssignment {
            id: self.id,
            course: self.course,
            name: self.name.clone(),
            url: self.url.clone(),
            discussion: self.discussion,
            deleted: self.deleted,
        }
    }
}

/// The base assignment a current row materializes to.
pub open spec fn base_assignment_at(store: AssignmentStore, i: int) -> BaseAssignment {
    BaseAssignment {
        id: store.rows@[i].identity,
        course: store.rows@[i].payload.course,
        name: store.rows@[i].payload.name,
        url: store.rows@[i].payload.url,
        discussion: store.rows@[i].payload.discussion,
        deleted: store.rows@[i].deleted,
    }
}

/// Materializes the base assignment row at position `i`.
fn materialize_base(store: &AssignmentStore, i: usize) -> (r: BaseAssignment)
    requires
        i < store.rows@.len(),
    ensures
        r == base_assignment_at(*store, i as int),
{
    let row = store.row(i);
    BaseAssignment {
        id: row.identity,
        course: row.payload.course,
        name: row.payload.name.clone(),
        url: row.payload.url.clone(),
        discussion: row.payload.discussion,
        deleted: row.deleted,
    }
}

/// The first position at or after `n` whose current base assignment has
/// this course and name, or the table length when none does.
pub open spec fn first_assignment_from(
    store: AssignmentStore,
    course: u32,
    name: Seq<char>,
    n: int,
) -> int
    decreases store.rows@.len() - n when 0 <= n <= store.rows@.len()
{
    if n >= store.rows@.len() {
        n
    } else if store.current_at(n) && store.rows@[n].payload.course == course
        && store.rows@[n].payload.name@ == name {
        n
    } else {
        first_assignment_from(store, course, name, n + 1)
    }
}

impl BaseAssignment {
    /// The first live assignment of the course with exactly this name;
    /// `EntryNotFound` exactly when there is none.
    pub fn get(store: &AssignmentStore, course: u32, name: &str) -> (r: Result<
        BaseAssignment,
        Error,
    >)
        ensures
            ({
                let i = first_assignment_from(*store, course, name@, 0);
                match r {
                    Ok(b) => i < store.rows@.len() && b == base_assignment_at(*store, i),
                    Err(e) => e == Error::EntryNotFound && i == store.rows@.len(),
                }
            }),
    {
        let mut i: usize = 0;
        while i < store.len()
            invariant
                i <= store.rows@.len(),
                first_assignment_from(*store, course, name@, 0) == first_assignment_from(
                    *store,
                    course,
                    name@,
                    i as int,
                ),
            decreases store.rows@.len() - i,
        {
            let row = store.row(i);
            if row.payload.course == course && crate::text::str_eq(row.payload.name.as_str(), name) {
                if store.is_current(i) {
                    proof {
                        assert(first_assignment_from(*store, course, name@, i as int) == i as int);
                    }
                    return Ok(materialize_base(store, i));
                }
            }
            proof {
                assert(first_assignment_from(*store, course, name@, i as int)
                    == first_assignment_from(*store, course, name@, i + 1));
            }
            i = i + 1;
        }
        Err(Error::EntryNotFound)
    }

    /// Records a new assignment of the course under a fresh identity;
    /// `StorageFailure` exactly when no identity can be allocated.
    pub fn create(store: &mut AssignmentStore, marker: u64, course: u32, name: &str, url: &str) -> (r:
        Result<(), Error>)
        ensures
            match r {
                Ok(()) => ({
                    &&& final(store).rows@.len() == old(store).rows@.len() + 1
                    &&& final(store).rows@.drop_last() == old(store).rows@
                    &&& !old(store).has_identity(final(store).rows@.last().identity)
                    &&& final(store).rows@.last().marker == marker
                    &&& !final(store).rows@.last().deleted
                    &&& final(store).rows@.last().payload.course == course
                    &&& final(store).rows@.last().payload.name@ == name@
                    &&& final(store).rows@.last().payload.url@ == url@
                    &&& final(store).rows@.last().payload.discussion == 0
                }),
                Err(e) => e == Error::StorageFailure && AssignmentStore::max_identity(
                    old(store).rows@,
                ) >= u32::MAX && final(store).rows@ == old(store).rows@,
            },
    {
        let payload = AssignmentData {
            course,
            name: name.to_owned(),
            url: url.to_owned(),
            discussion: 0,
        };
        let res = store.insert_revision(None, marker, false, payload);
        proof {
            if res is Ok {
                assert(store.rows@.drop_last() =~= old(store).rows@);
            }
        }
        match res {
            Ok(_) => Ok(()),
            Err(e) => Err(e),
        }
    }
}

/// The payload of one grade-assignment revision: which base assignment it
/// refines.
pub struct GradeAssignmentLink {
    pub assignment: u32,
}

/// The revision table of grade assignments.
pub type GradeAssignmentStore = RevisionStore<GradeAssignmentLink>;

/// The identifying part of a grade assignment.
#[derive(Clone, Copy, Debug, PartialEq, Eq, Structural)]
pub struct GradeAssignmentData {
    pub id: u32,
    pub assignment: u32,
}

/// A grade assignment joined to its base assignment.
#[derive(Debug)]
pub struct GradeAssignment {
    pub data: GradeAssignmentData,
    pub base: BaseAssignment,
}

impl Clone for GradeAssignment {
    fn clone(&self) -> (r: Self)
        ensures
            r == *self,
    {
        GradeAssignment { data: self.data, base: self.base.clone() }
    }
}

/// Grade-assignment row `i` is current and joins to a live base
/// assignment of this course.
pub open spec fn grade_links_course(
    gstore: GradeAssignmentStore,
    astore: AssignmentStore,
    i: int,
    course: u32,
) -> bool {
    &&& gstore.current_at(i)
    &&& astore.has_current(gstore.rows@[i].payload.assignment)
    &&& astore.rows@[astore.current_index(gstore.rows@[i].payload.assignment)].payload.course
        == course
}

/// Grade-assignment row `i` joins to this course under this url.
pub open spec fn grade_links(
    gstore: GradeAssignmentStore,
    astore: AssignmentStore,
    i: int,
    course: u32,
    url: Seq<char>,
) -> bool {
    &&& grade_links_course(gstore, astore, i, course)
    &&& astore.rows@[astore.current_index(gstore.rows@[i].payload.assignment)].payload.url@ == url
}

/// The first grade-assignment position at or after `n` that joins to the
/// course under the url, or the table length when none does.
pub open spec fn first_grade_link_from(
    gstore: GradeAssignmentStore,
    astore: AssignmentStore,
    course: u32,
    url: Seq<char>,
    n: int,
) -> int
    decreases gstore.rows@.len() - n when 0 <= n <= gstore.rows@.len()
{
    if n >= gstore.rows@.len() {
        n
    } else if grade_links(gstore, astore, n, course, url) {
        n
    } else {
        first_grade_link_from(gstore, astore, course, url, n + 1)
    }
}

/// The grade assignment row `i` materializes to.
pub open spec fn grade_assignment_at(
    gstore: GradeAssignmentStore,
    astore: AssignmentStore,
    i: int,
) -> GradeAssignment {
    GradeAssignment {
        data: GradeAssignmentData {
            id: gstore.rows@[i].identity,
            assignment: gstore.rows@[i].payload.assignment,
        },
        base: base_assignment_at(
            astore,
            astore.current_index(gstore.rows@[i].payload.assignment),
        ),
    }
}

/// A grade given on a grade assignment: a major part up to
/// `GRADE_MAJOR_MAX` and a minor part up to `GRADE_MINOR_MAX`.
#[derive(Clone, Copy, Debug, PartialEq, Eq, Structural, Default)]
pub struct GradeAssignmentGrade {
    pub major: u8,
    pub minor: u8,
}

/// The largest major grade part.
pub const GRADE_MAJOR_MAX: u8 = 10;

/// The largest minor grade part.
pub const GRADE_MINOR_MAX: u8 = 99;

/// The payload of one grade-progress revision: one student's grade on one
/// grade assignment, keyed by the (assignment, student) pair.
pub struct GradeProgressData {
    pub assignment: u32,
    pub student: UserId,
    pub grade: GradeAssignmentGrade,
}

/// The revision table of grade progress.
pub type GradeProgressStore = RevisionStore<GradeProgressData>;

/// The first grade-progress position at or after `n` whose current row
/// carries the pair, or the table length when none does.
pub open spec fn first_grade_progress_from(
    store: GradeProgressStore,
    assignment: u32,
    student: UserId,
    n: int,
) -> int
    decreases store.rows@.len() - n when 0 <= n <= store.rows@.len()
{
    if n >= store.rows@.len() {
        n
    } else if store.current_at(n) && store.rows@[n].payload.assignment == assignment
        && store.rows@[n].payload.student == student {
        n
    } else {
        first_grade_progress_from(store, assignment, student, n + 1)
    }
}

impl GradeAssignment {
    /// The first grade assignment of the course under this url;
    /// `EntryNotFound` exactly when none joins.
    pub fn get(
        gstore: &GradeAssignmentStore,
        astore: &AssignmentStore,
        course: CourseId,
        url: &str,
    ) -> (r: Result<GradeAssignment, Error>)
        ensures
            ({
                let i = first_grade_link_from(*gstore, *astore, course, url@, 0);
                match r {
                    Ok(g) => i < gstore.rows@.len() && g == grade_assignment_at(*gstore, *astore, i),
                    Err(e) => e == Error::EntryNotFound && i == gstore.rows@.len(),
                }
            }),
    {
        let mut i: usize = 0;
        while i < gstore.len()
            invariant
                i <= gstore.rows@.len(),
                first_grade_link_from(*gstore, *astore, course, url@, 0) == first_grade_link_from(
                    *gstore,
                    *astore,
                    course,
                    url@,
                    i as int,
                ),
            decreases gstore.rows@.len() - i,
        {
            let row = gstore.row(i);
            if gstore.is_current(i) {
                if let Some(ai) = astore.current_index_for(row.payload.assignment) {
                    proof {
                        astore.lemma_current_index(row.payload.assignment, ai as int);
                    }
                    let arow = astore.row(ai);
                    if arow.payload.course == course && crate::text::str_eq(
                        arow.payload.url.as_str(),
                        url,
                    ) {
                        proof {
                            assert(grade_links(*gstore, *astore, i as int, course, url@));
                            assert(first_grade_link_from(*gstore, *astore, course, url@, i as int)
                                == i as int);
                        }
                        return Ok(GradeAssignment {
                            data: GradeAssignmentData {
                                id: row.identity,
                                assignment: row.payload.assignment,
                            },
                            base: materialize_base(astore, ai),
                        });
                    }
                }
            }
            proof {
                assert(!grade_links(*gstore, *astore, i as int, course, url@));
                assert(first_grade_link_from(*gstore, *astore, course, url@, i as int)
                    == first_grade_link_from(*gstore, *astore, course, url@, i + 1));
            }
            i = i + 1;
        }
        Err(Error::EntryNotFound)
    }

    /// Records a base assignment and its grade refinement together: both
    /// appear, linked, or neither does.
    pub fn create(
        gstore: &mut GradeAssignmentStore,
        astore: &mut AssignmentStore,
        marker: u64,
        course: CourseId,
        name: &str,
        url: &str,
    ) -> (r: Result<(), Error>)
        ensures
            match r {
                Ok(()) => ({
                    &&& final(astore).rows@.len() == old(astore).rows@.len() + 1
                    &&& final(astore).rows@.drop_last() == old(astore).rows@
                    &&& !old(astore).has_identity(final(astore).rows@.last().identity)
                    &&& final(astore).rows@.last().marker == marker
                    &&& !final(astore).rows@.last().deleted
                    &&& final(astore).rows@.last().payload.course == course
                    &&& final(astore).rows@.last().payload.name@ == name@
                    &&& final(astore).rows@.last().payload.url@ == url@
                    &&& final(gstore).created_fresh(
                        *old(gstore),
                        marker,
                        GradeAssignmentLink {
                            assignment: final(astore).rows@[first_assignment_from(
                                *final(astore),
                                course,
                                name@,
                                0,
                            )].identity,
                        },
                    )
                    &&& first_assignment_from(*final(astore), course, name@, 0) < final(astore)
                        .rows@.len()
                }),
                Err(e) => e == Error::StorageFailure && (AssignmentStore::max_identity(
                    old(astore).rows@,
                ) >= u32::MAX || GradeAssignmentStore::max_identity(old(gstore).rows@)
                    >= u32::MAX) && final(astore).rows@ == old(astore).rows@
                    && final(gstore).rows@ == old(gstore).rows@,
            },
    {
        if !astore.can_allocate() {
            return Err(Error::StorageFailure);
        }
        if !gstore.can_allocate() {
            return Err(Error::StorageFailure);
        }
        let ghost astore0 = *astore;
        match BaseAssignment::create(astore, marker, course, name, url) {
            Ok(()) => (),
            Err(e) => {
                return Err(e);
            },
        }
        proof {
            let n = astore.rows@.len() - 1;
            assert(astore.rows@ =~= astore0.rows@.push(astore.rows@.last()));
            assert(astore.created_fresh(astore0, marker, astore.rows@.last().payload));
            astore.lemma_created_fresh_current(astore0, marker, astore.rows@.last().payload);
            assert(astore.current_at(n));
        }
        let assignment = match BaseAssignment::get(astore, course, name) {
            Ok(a) => a,
            Err(_) => {
                proof {
                    let n = astore.rows@.len() - 1;
                    assert(first_assignment_from(*astore, course, name@, 0) <= n) by {
                        lemma_first_assignment_bound(*astore, course, name@, 0, n);
                    }
                    assert(false);
                }
                return Err(Error::StorageFailure);
            },
        };
        let res = gstore.insert_revision(
            None,
            marker,
            false,
            GradeAssignmentLink { assignment: assignment.id },
        );
        match res {
            Ok(_) => Ok(()),
            Err(e) => Err(e),
        }
    }

    /// Upserts one student's grade: a new revision of the pair's identity
    /// when the pair has a current row, a fresh identity otherwise.
    pub fn grade(
        store: &mut GradeProgressStore,
        marker: u64,
        grade_assignment_id: u32,
        student: UserId,
        grade: GradeAssignmentGrade,
    ) -> (r: Result<(), Error>)
        ensures
            ({
                let i = first_grade_progress_from(*old(store), grade_assignment_id, student, 0);
                if i < old(store).rows@.len() {
                    r is Ok && final(store).rows@ == old(store).rows@.push(
                        Revision {
                            identity: old(store).rows@[i].identity,
                            marker,
                            deleted: false,
                            payload: GradeProgressData {
                                assignment: grade_assignment_id,
                                student,
                                grade,
                            },
                        },
                    )
                } else if RevisionStore::<GradeProgressData>::max_identity(old(store).rows@)
                    < u32::MAX {
                    r is Ok && final(store).created_fresh(
                        *old(store),
                        marker,
                        GradeProgressData { assignment: grade_assignment_id, student, grade },
                    )
                } else {
                    r == Result::<(), Error>::Err(Error::StorageFailure) && final(store).rows@
                        == old(store).rows@
                }
            }),
    {
        let mut i: usize = 0;
        while i < store.len()
            invariant
                *store == *old(store),
                i <= store.rows@.len(),
                first_grade_progress_from(*store, grade_assignment_id, student, 0)
                    == first_grade_progress_from(*store, grade_assignment_id, student, i as int),
            decreases store.rows@.len() - i,
        {
            let row = store.row(i);
            if row.payload.assignment == grade_assignment_id && row.payload.student == student {
                if store.is_current(i) {
                    proof {
                        assert(first_grade_progress_from(
                            *store,
                            grade_assignment_id,
                            student,
                            i as int,
                        ) == i as int);
                        assert(store.rows@[i as int].identity == row.identity);
                    }
                    let res = store.insert_revision(
                        Some(row.identity),
                        marker,
                        false,
                        GradeProgressData { assignment: grade_assignment_id, student, grade },
                    );
                    match res {
                        Ok(_) => {
                            return Ok(());
                        },
                        Err(e) => {
                            return Err(e);
                        },
                    }
                }
            }
            proof {
                assert(first_grade_progress_from(*store, grade_assignment_id, student, i as int)
                    == first_grade_progress_from(*store, grade_assignment_id, student, i + 1));
            }
            i = i + 1;
        }
        let res = store.insert_revision(
            None,
            marker,
            false,
            GradeProgressData { assignment: grade_assignment_id, student, grade },
        );
        match res {
            Ok(_) => Ok(()),
            Err(e) => Err(e),
        }
    }
}

/// A match at or before `m` bounds the first match by `m`.
proof fn lemma_first_assignment_bound(
    store: AssignmentStore,
    course: u32,
    name: Seq<char>,
    n: int,
    m: int,
)
    requires
        0 <= n <= m < store.rows@.len(),
        store.current_at(m),
        store.rows@[m].payload.course == course,
        store.rows@[m].payload.name@ == name,
    ensures
        first_assignment_from(store, course, name, n) <= m,
    decreases m - n,
{
    if n < m {
        if !(store.current_at(n) && store.rows@[n].payload.course == course
            && store.rows@[n].payload.name@ == name) {
            lemma_first_assignment_bound(store, course, name, n + 1, m);
        }
    }
}

/// The payload of one point-assignment revision: which base assignment it
/// refines and the maximum points it awards.
pub struct PointAssignmentLink {
    pub assignment: u32,
    pub max_points: u32,
}

/// The revision table of point assignments.
pub type PointAssignmentStore = RevisionStore<PointAssignmentLink>;

/// The identifying part of a point assignment.
#[derive(Clone, Copy, Debug, PartialEq, Eq, Structural)]
pub struct PointAssignmentData {
    pub id: u32,
    pub assignment: u32,
    pub max_points: u32,
}

/// A point assignment joined to its base assignment.
#[derive(Debug)]
pub struct PointAssignment {
    pub data: PointAssignmentData,
    pub base: BaseAssignment,
}

impl Clone for PointAssignment {
    fn clone(&self) -> (r: Self)
        ensures
            r == *self,
    {
        PointAssignment { data: self.data, base: self.base.clone() }
    }
}

/// Point-assignment row `i` is current and joins to a live base
/// assignment of this course.
pub open spec fn point_links_course(
    pstore: PointAssignmentStore,
    astore: AssignmentStore,
    i: int,
    course: u32,
) -> bool {
    &&& pstore.current_at(i)
    &&& astore.has_current(pstore.rows@[i].payload.assignment)
    &&& astore.rows@[astore.current_index(pstore.rows@[i].payload.assignment)].payload.course
        == course
}

/// Point-assignment row `i` joins to this course under this url.
pub open spec fn point_links(
    pstore: PointAssignmentStore,
    astore: AssignmentStore,
    i: int,
    course: u32,
    url: Seq<char>,
) -> bool {
    &&& point_links_course(pstore, astore, i, course)
    &&& astore.rows@[astore.current_index(pstore.rows@[i].payload.assignment)].payload.url@ == url
}

/// The first point-assignment position at or after `n` that joins to the
/// course under the url, or the table length when none does.
pub open spec fn first_point_link_from(
    pstore: PointAssignmentStore,
    astore: AssignmentStore,
    course: u32,
    url: Seq<char>,
    n: int,
) -> int
    decreases pstore.rows@.len() - n when 0 <= n <= pstore.rows@.len()
{
    if n >= pstore.rows@.len() {
        n
    } else if point_links(pstore, astore, n, course, url) {
        n
    } else {
        first_point_link_from(pstore, astore, course, url, n + 1)
    }
}

/// The point assignment row `i` materializes to.
pub open spec fn point_assignment_at(
    pstore: PointAssignmentStore,
    astore: AssignmentStore,
    i: int,
) -> PointAssignment {
    PointAssignment {
        data: PointAssignmentData {
            id: pstore.rows@[i].identity,
            assignment: pstore.rows@[i].payload.assignment,
            max_points: pstore.rows@[i].payload.max_points,
        },
        base: base_assignment_at(
            astore,
            astore.current_index(pstore.rows@[i].payload.assignment),
        ),
    }
}

/// The payload of one point-progress revision: one student's points on
/// one point assignment, keyed by the (assignment, student) pair.
pub struct PointProgressData {
    pub assignment: u32,
    pub student: UserId,
    pub points: u32,
}

/// The revision table of point progress.
pub type PointProgressStore = RevisionStore<PointProgressData>;

/// The first point-progress position at or after `n` whose current row
/// carries the pair, or the table length when none does.
pub open spec fn first_point_progress_from(
    store: PointProgressStore,
    assignment: u32,
    student: UserId,
    n: int,
) -> int
    decreases store.rows@.len() - n when 0 <= n <= store.rows@.len()
{
    if n >= store.rows@.len() {
        n
    } else if store.current_at(n) && store.rows@[n].payload.assignment == assignment
        && store.rows@[n].payload.student == student {
        n
    } else {
        first_point_progress_from(store, assignment, student, n + 1)
    }
}

impl PointAssignment {
    /// The first point assignment of the course under this url;
    /// `EntryNotFound` exactly when none joins.
    pub fn get(
        pstore: &PointAssignmentStore,
        astore: &AssignmentStore,
        course: CourseId,
        url: &str,
    ) -> (r: Result<PointAssignment, Error>)
        ensures
            ({
                let i = first_point_link_from(*pstore, *astore, course, url@, 0);
                match r {
                    Ok(p) => i < pstore.rows@.len() && p == point_assignment_at(*pstore, *astore, i),
                    Err(e) => e == Error::EntryNotFound && i == pstore.rows@.len(),
                }
            }),
    {
        let mut i: usize = 0;
        while i < pstore.len()
            invariant
                i <= pstore.rows@.len(),
                first_point_link_from(*pstore, *astore, course, url@, 0) == first_point_link_from(
                    *pstore,
                    *astore,
                    course,
                    url@,
                    i as int,
                ),
            decreases pstore.rows@.len() - i,
        {
            let row = pstore.row(i);
            if pstore.is_current(i) {
                if let Some(ai) = astore.current_index_for(row.payload.assignment) {
                    proof {
                        astore.lemma_current_index(row.payload.assignment, ai as int);
                    }
                    let arow = astore.row(ai);
                    if arow.payload.course == course && crate::text::str_eq(
                        arow.payload.url.as_str(),
                        url,
                    ) {
                        proof {
                            assert(point_links(*pstore, *astore, i as int, course, url@));
                            assert(first_point_link_from(*pstore, *astore, course, url@, i as int)
                                == i as int);
                        }
                        return Ok(PointAssignment {
                            data: PointAssignmentData {
                                id: row.identity,
                                assignment: row.payload.assignment,
                                max_points: row.payload.max_points,
                            },
                            base: materialize_base(astore, ai),
                        });
                    }
                }
            }
            proof {
                assert(!point_links(*pstore, *astore, i as int, course, url@));
                assert(first_point_link_from(*pstore, *astore, course, url@, i as int)
                    == first_point_link_from(*pstore, *astore, course, url@, i + 1));
            }
            i = i + 1;
        }
        Err(Error::EntryNotFound)
    }

    /// Records a base assignment and its point refinement together: both
    /// appear, linked, or neither does.
    pub fn create(
        pstore: &mut PointAssignmentStore,
        astore: &mut AssignmentStore,
        marker: u64,
        course: CourseId,
        name: &str,
        url: &str,
        max_points: u32,
    ) -> (r: Result<(), Error>)
        ensures
            match r {
                Ok(()) => ({
                    &&& final(astore).rows@.len() == old(astore).rows@.len() + 1
                    &&& final(astore).rows@.drop_last() == old(astore).rows@
                    &&& !old(astore).has_identity(final(astore).rows@.last().identity)
                    &&& final(astore).rows@.last().marker == marker
                    &&& !final(astore).rows@.last().deleted
                    &&& final(astore).rows@.last().payload.course == course
                    &&& final(astore).rows@.last().payload.name@ == name@
                    &&& final(astore).rows@.last().payload.url@ == url@
                    &&& final(pstore).created_fresh(
                        *old(pstore),
                        marker,
                        PointAssignmentLink {
                            assignment: final(astore).rows@[first_assignment_from(
                                *final(astore),
                                course,
                                name@,
                                0,
                            )].identity,
                            max_points,
                        },
                    )
                    &&& first_assignment_from(*final(astore), course, name@, 0) < final(astore)
                        .rows@.len()
                }),
                Err(e) => e == Error::StorageFailure && (AssignmentStore::max_identity(
                    old(astore).rows@,
                ) >= u32::MAX || PointAssignmentStore::max_identity(old(pstore).rows@)
                    >= u32::MAX) && final(astore).rows@ == old(astore).rows@
                    && final(pstore).rows@ == old(pstore).rows@,
            },
    {
        if !astore.can_allocate() {
            return Err(Error::StorageFailure);
        }
        if !pstore.can_allocate() {
            return Err(Error::StorageFailure);
        }
        let ghost astore0 = *astore;
        match BaseAssignment::create(astore, marker, course, name, url) {
            Ok(()) => (),
            Err(e) => {
                return Err(e);
            },
        }
        proof {
            let n = astore.rows@.len() - 1;
            assert(astore.rows@ =~= astore0.rows@.push(astore.rows@.last()));
            assert(astore.created_fresh(astore0, marker, astore.rows@.last().payload));
            astore.lemma_created_fresh_current(astore0, marker, astore.rows@.last().payload);
            assert(astore.current_at(n));
        }
        let assignment = match BaseAssignment::get(astore, course, name) {
            Ok(a) => a,
            Err(_) => {
                proof {
                    let n = astore.rows@.len() - 1;
                    assert(first_assignment_from(*astore, course, name@, 0) <= n) by {
                        lemma_first_assignment_bound(*astore, course, name@, 0, n);
                    }
                    assert(false);
                }
                return Err(Error::StorageFailure);
            },
        };
        let res = pstore.insert_revision(
            None,
            marker,
            false,
            PointAssignmentLink { assignment: assignment.id, max_points },
        );
        match res {
            Ok(_) => Ok(()),
            Err(e) => Err(e),
        }
    }

    /// Upserts one student's points: a new revision of the pair's identity
    /// when the pair has a current row, a fresh identity otherwise.
    pub fn grade(
        store: &mut PointProgressStore,
        marker: u64,
        points_assignment_id: u32,
        student: UserId,
        points: u32,
    ) -> (r: Result<(), Error>)
        ensures
            ({
                let i = first_point_progress_from(*old(store), points_assignment_id, student, 0);
                if i < old(store).rows@.len() {
                    r is Ok && final(store).rows@ == old(store).rows@.push(
                        Revision {
                            identity: old(store).rows@[i].identity,
                            marker,
                            deleted: false,
                            payload: PointProgressData {
                                assignment: points_assignment_id,
                                student,
                                points,
                            },
                        },
                    )
                } else if RevisionStore::<PointProgressData>::max_identity(old(store).rows@)
                    < u32::MAX {
                    r is Ok && final(store).created_fresh(
                        *old(store),
                        marker,
                        PointProgressData { assignment: points_assignment_id, student, points },
                    )
                } else {
                    r == Result::<(), Error>::Err(Error::StorageFailure) && final(store).rows@
                        == old(store).rows@
                }
            }),
    {
        let mut i: usize = 0;
        while i < store.len()
            invariant
                *store == *old(store),
                i <= store.rows@.len(),
                first_point_progress_from(*store, points_assignment_id, student, 0)
                    == first_point_progress_from(*store, points_assignment_id, student, i as int),
            decreases store.rows@.len() - i,
        {
            let row = store.row(i);
            if row.payload.assignment == points_assignment_id && row.payload.student == student {
                if store.is_current(i) {
                    proof {
                        assert(first_point_progress_from(
                            *store,
                            points_assignment_id,
                            student,
                            i as int,
                        ) == i as int);
                        assert(store.rows@[i as int].identity == row.identity);
                    }
                    let res = store.insert_revision(
                        Some(row.identity),
                        marker,
                        false,
                        PointProgressData { assignment: points_assignment_id, student, points },
                    );
                    match res {
                        Ok(_) => {
                            return Ok(());
                        },
                        Err(e) => {
                            return Err(e);
                        },
                    }
                }
            }
            proof {
                assert(first_point_progress_from(*store, points_assignment_id, student, i as int)
                    == first_point_progress_from(*store, points_assignment_id, student, i + 1));
            }
            i = i + 1;
        }
        let res = store.insert_revision(
            None,
            marker,
            false,
            PointProgressData { assignment: points_assignment_id, student, points },
        );
        match res {
            Ok(_) => Ok(()),
            Err(e) => Err(e),
        }
    }
}

/// Either refinement of a base assignment.
#[derive(Debug)]
pub enum Assignment {
    Grade(GradeAssignment),
    Point(PointAssignment),
}

impl Assignment {
    /// The assignment of the course under this url, point assignments
    /// looked up first; `EntryNotFound` exactly when neither kind joins.
    pub fn get(
        pstore: &PointAssignmentStore,
        gstore: &GradeAssignmentStore,
        astore: &AssignmentStore,
        course: CourseId,
        url: &str,
    ) -> (r: Result<Assignment, Error>)
        ensures
            ({
                let pi = first_point_link_from(*pstore, *astore, course, url@, 0);
                let gi = first_grade_link_from(*gstore, *astore, course, url@, 0);
                match r {
                    Ok(Assignment::Point(p)) => pi < pstore.rows@.len() && p
                        == point_assignment_at(*pstore, *astore, pi),
                    Ok(Assignment::Grade(g)) => pi == pstore.rows@.len() && gi
                        < gstore.rows@.len() && g == grade_assignment_at(*gstore, *astore, gi),
                    Err(e) => e == Error::EntryNotFound && pi == pstore.rows@.len() && gi
                        == gstore.rows@.len(),
                }
            }),
    {
        match PointAssignment::get(pstore, astore, course, url) {
            Ok(p) => Ok(Assignment::Point(p)),
            Err(_) => match GradeAssignment::get(gstore, astore, course, url) {
                Ok(g) => Ok(Assignment::Grade(g)),
                Err(e) => Err(e),
            },
        }
    }
}

/// The grade assignments of the course, in insertion order.
pub open spec fn grade_assignments_of_course(
    gstore: GradeAssignmentStore,
    astore: AssignmentStore,
    course: u32,
) -> Seq<GradeAssignment> {
    gstore.current_positions().filter(
        |u: usize| grade_links_course(gstore, astore, u as int, course),
    ).map_values(|u: usize| grade_assignment_at(gstore, astore, u as int))
}

/// The point assignments of the course, in insertion order.
pub open spec fn point_assignments_of_course(
    pstore: PointAssignmentStore,
    astore: AssignmentStore,
    course: u32,
) -> Seq<PointAssignment> {
    pstore.current_positions().filter(
        |u: usize| point_links_course(pstore, astore, u as int, course),
    ).map_values(|u: usize| point_assignment_at(pstore, astore, u as int))
}

/// Builds the grade assignments of the course, in insertion order.
fn grade_assignments_for(
    gstore: &GradeAssignmentStore,
    astore: &AssignmentStore,
    course: u32,
) -> (r: Vec<GradeAssignment>)
    ensures
        r@ == grade_assignments_of_course(*gstore, *astore, course),
{
    let positions = gstore.current_indices();
    let ghost pos = gstore.current_positions();
    let ghost pred = |u: usize| grade_links_course(*gstore, *astore, u as int, course);
    let ghost f = |u: usize| grade_assignment_at(*gstore, *astore, u as int);
    let mut out: Vec<GradeAssignment> = Vec::new();
    let mut k: usize = 0;
    proof {
        assert(pos.subrange(0, 0).filter(pred) =~= Seq::<usize>::empty()) by {
            reveal(Seq::filter);
        }
        assert(out@ =~= pos.subrange(0, 0).filter(pred).map_values(f));
    }
    while k < positions.len()
        invariant
            k <= positions@.len(),
            positions@ == pos,
            pos == gstore.current_positions(),
            pred == (|u: usize| grade_links_course(*gstore, *astore, u as int, course)),
            f == (|u: usize| grade_assignment_at(*gstore, *astore, u as int)),
            forall|m: int| 0 <= m < pos.len() ==> gstore.current_at(pos[m] as int),
            out@ == pos.subrange(0, k as int).filter(pred).map_values(f),
        decreases positions@.len() - k,
    {
        let i = positions[k];
        let row = gstore.row(i);
        proof {
            lemma_filter_push(pos.subrange(0, k as int), pred, pos[k as int]);
            assert(pos.subrange(0, k as int).push(pos[k as int]) =~= pos.subrange(0, k + 1));
        }
        let mut linked = false;
        match astore.current_index_for(row.payload.assignment) {
            Some(ai) => {
                proof {
                    astore.lemma_current_index(row.payload.assignment, ai as int);
                }
                let arow = astore.row(ai);
                if arow.payload.course == course {
                    proof {
                        assert(pred(pos[k as int]));
                    }
                    out.push(GradeAssignment {
                        data: GradeAssignmentData {
                            id: row.identity,
                            assignment: row.payload.assignment,
                        },
                        base: materialize_base(astore, ai),
                    });
                    proof {
                        assert(out@ =~= pos.subrange(0, k + 1).filter(pred).map_values(f));
                    }
                    linked = true;
                }
            },
            None => {},
        }
        if !linked {
            proof {
                assert(!pred(pos[k as int]));
                assert(out@ =~= pos.subrange(0, k + 1).filter(pred).map_values(f));
            }
        }
        k = k + 1;
    }
    proof {
        assert(pos.subrange(0, pos.len() as int) =~= pos);
    }
    out
}

/// Builds the point assignments of the course, in insertion order.
fn point_assignments_for(
    pstore: &PointAssignmentStore,
    astore: &AssignmentStore,
    course: u32,
) -> (r: Vec<PointAssignment>)
    ensures
        r@ == point_assignments_of_course(*pstore, *astore, course),
{
    let positions = pstore.current_indices();
    let ghost pos = pstore.current_positions();
    let ghost pred = |u: usize| point_links_course(*pstore, *astore, u as int, course);
    let ghost f = |u: usize| point_assignment_at(*pstore, *astore, u as int);
    let mut out: Vec<PointAssignment> = Vec::new();
    let mut k: usize = 0;
    proof {
        assert(pos.subrange(0, 0).filter(pred) =~= Seq::<usize>::empty()) by {
            reveal(Seq::filter);
        }
        assert(out@ =~= pos.subrange(0, 0).filter(pred).map_values(f));
    }
    while k < positions.len()
        invariant
            k <= positions@.len(),
            positions@ == pos,
            pos == pstore.current_positions(),
            pred == (|u: usize| point_links_course(*pstore, *astore, u as int, course)),
            f == (|u: usize| point_assignment_at(*pstore, *astore, u as int)),
            forall|m: int| 0 <= m < pos.len() ==> pstore.current_at(pos[m] as int),
            out@ == pos.subrange(0, k as int).filter(pred).map_values(f),
        decreases positions@.len() - k,
    {
        let i = positions[k];
        let row = pstore.row(i);
        proof {
            lemma_filter_push(pos.subrange(0, k as int), pred, pos[k as int]);
            assert(pos.subrange(0, k as int).push(pos[k as int]) =~= pos.subrange(0, k + 1));
        }
        let mut linked = false;
        match astore.current_index_for(row.payload.assignment) {
            Some(ai) => {
                proof {
                    astore.lemma_current_index(row.payload.assignment, ai as int);
                }
                let arow = astore.row(ai);
                if arow.payload.course == course {
                    proof {
                        assert(pred(pos[k as int]));
                    }
                    out.push(PointAssignment {
                        data: PointAssignmentData {
                            id: row.identity,
                            assignment: row.payload.assignment,
                            max_points: row.payload.max_points,
                        },
                        base: materialize_base(astore, ai),
                    });
                    proof {
                        assert(out@ =~= pos.subrange(0, k + 1).filter(pred).map_values(f));
                    }
                    linked = true;
                }
            },
            None => {},
        }
        if !linked {
            proof {
                assert(!pred(pos[k as int]));
                assert(out@ =~= pos.subrange(0, k + 1).filter(pred).map_values(f));
            }
        }
        k = k + 1;
    }
    proof {
        assert(pos.subrange(0, pos.len() as int) =~= pos);
    }
    out
}

/// Every assignment of one course.
pub struct Assignments(pub Vec<Assignment>);

impl Assignments {
    /// The assignments of the course: grade assignments first, then point
    /// assignments, each group in insertion order.
    pub fn get(
        gstore: &GradeAssignmentStore,
        pstore: &PointAssignmentStore,
        astore: &AssignmentStore,
        course: CourseId,
    ) -> (r: Result<Assignments, Error>)
        ensures
            r matches Ok(a) && a.0@ == grade_assignments_of_course(
                *gstore,
                *astore,
                course,
            ).map_values(|g: GradeAssignment| Assignment::Grade(g)) + point_assignments_of_course(
                *pstore,
                *astore,
                course,
            ).map_values(|p: PointAssignment| Assignment::Point(p)),
    {
        let grades = grade_assignments_for(gstore, astore, course);
        let points = point_assignments_for(pstore, astore, course);
        let gtotal = grades.len();
        let ptotal = points.len();
        let ghost gview = grades@;
        let ghost pview = points@;
        let mut out: Vec<Assignment> = Vec::new();
        let mut k: usize = 0;
        let ghost target = grade_assignments_of_course(*gstore, *astore, course).map_values(
            |g: GradeAssignment| Assignment::Grade(g),
        ) + point_assignments_of_course(*pstore, *astore, course).map_values(
            |p: PointAssignment| Assignment::Point(p),
        );
        let mut grades = grades;
        let mut points = points;
        while grades.len() > 0
            invariant
                gview.len() == gtotal,
                k <= gtotal,
                grades@ =~= gview.subrange(k as int, gview.len() as int),
                out@.len() == k,
                forall|m: int| 0 <= m < k ==> out@[m] == Assignment::Grade(gview[m]),
            decreases grades@.len(),
        {
            let g = grades.remove(0);
            assert(g == gview[k as int]);
            out.push(Assignment::Grade(g));
            k = k + 1;
            proof {
                assert(grades@ =~= gview.subrange(k as int, gview.len() as int));
            }
        }
        let mut j: usize = 0;
        while points.len() > 0
            invariant
                k == gview.len(),
                pview.len() == ptotal,
                j <= ptotal,
                points@ =~= pview.subrange(j as int, pview.len() as int),
                out@.len() == k + j,
                forall|m: int| 0 <= m < k ==> out@[m] == Assignment::Grade(gview[m]),
                forall|m: int| 0 <= m < j ==> out@[k + m] == Assignment::Point(pview[m]),
            decreases points@.len(),
        {
            let p = points.remove(0);
            assert(p == pview[j as int]);
            out.push(Assignment::Point(p));
            j = j + 1;
            proof {
                assert(points@ =~= pview.subrange(j as int, pview.len() as int));
            }
        }
        proof {
            assert(out@ =~= target);
        }
        Ok(Assignments(out))
    }
}

/// The kind of an assignment.
#[derive(Clone, Copy, Debug, PartialEq, Eq, Structural)]
pub enum AssignmentType {
    Grade,
    Point,
}

/// The grade stored for the pair, when its current row exists.
pub open spec fn grade_progress_of(
    store: GradeProgressStore,
    assignment: u32,
    student: UserId,
) -> Option<GradeAssignmentGrade> {
    let i = first_grade_progress_from(store, assignment, student, 0);
    if i < store.rows@.len() {
        Option::Some(store.rows@[i].payload.grade)
    } else {
        Option::None
    }
}

/// The points stored for the pair, when its current row exists.
pub open spec fn point_progress_of(
    store: PointProgressStore,
    assignment: u32,
    student: UserId,
) -> Option<u32> {
    let i = first_point_progress_from(store, assignment, student, 0);
    if i < store.rows@.len() {
        Option::Some(store.rows@[i].payload.points)
    } else {
        Option::None
    }
}

/// Looks up the grade stored for the pair.
pub fn grade_progress_for(store: &GradeProgressStore, assignment: u32, student: UserId) -> (r:
    Option<GradeAssignmentGrade>)
    ensures
        r == grade_progress_of(*store, assignment, student),
{
    let mut i: usize = 0;
    while i < store.len()
        invariant
            i <= store.rows@.len(),
            first_grade_progress_from(*store, assignment, student, 0)
                == first_grade_progress_from(*store, assignment, student, i as int),
        decreases store.rows@.len() - i,
    {
        let row = store.row(i);
        if row.payload.assignment == assignment && row.payload.student == student {
            if store.is_current(i) {
                proof {
                    assert(first_grade_progress_from(*store, assignment, student, i as int)
                        == i as int);
                }
                return Some(row.payload.grade);
            }
        }
        proof {
            assert(first_grade_progress_from(*store, assignment, student, i as int)
                == first_grade_progress_from(*store, assignment, student, i + 1));
        }
        i = i + 1;
    }
    None
}

/// Looks up the points stored for the pair.
pub fn point_progress_for(store: &PointProgressStore, assignment: u32, student: UserId) -> (r:
    Option<u32>)
    ensures
        r == point_progress_of(*store, assignment, student),
{
    let mut i: usize = 0;
    while i < store.len()
        invariant
            i <= store.rows@.len(),
            first_point_progress_from(*store, assignment, student, 0)
                == first_point_progress_from(*store, assignment, student, i as int),
        decreases store.rows@.len() - i,
    {
        let row = store.row(i);
        if row.payload.assignment == assignment && row.payload.student == student {
            if store.is_current(i) {
                proof {
                    assert(first_point_progress_from(*store, assignment, student, i as int)
                        == i as int);
                }
                return Some(row.payload.points);
            }
        }
        proof {
            assert(first_point_progress_from(*store, assignment, student, i as int)
                == first_point_progress_from(*store, assignment, student, i + 1));
        }
        i = i + 1;
    }
    None
}

/// A grade assignment with one student's grade, absent when the student
/// has no grade yet.
#[derive(Debug)]
pub struct GradedGradeAssignment {
    pub assignment: GradeAssignment,
    pub grade: Option<GradeAssignmentGrade>,
}

impl Clone for GradedGradeAssignment {
    fn clone(&self) -> (r: Self)
        ensures
            r == *self,
    {
        GradedGradeAssignment { assignment: self.assignment.clone(), grade: self.grade }
    }
}

/// A point assignment with one student's points, absent when the student
/// has no points yet.
#[derive(Debug)]
pub struct GradedPointAssignment {
    pub assignment: PointAssignment,
    pub points: Option<u32>,
}

impl Clone for GradedPointAssignment {
    fn clone(&self) -> (r: Self)
        ensures
            r == *self,
    {
        GradedPointAssignment { assignment: self.assignment.clone(), points: self.points }
    }
}

/// Either refinement, with one student's progress.
#[derive(Debug)]
pub enum GradedAssignment {
    Grade(GradedGradeAssignment),
    Point(GradedPointAssignment),
}

/// The course's grade assignments, each with the student's grade.
pub open spec fn graded_grades_of_course(
    gstore: GradeAssignmentStore,
    astore: AssignmentStore,
    gpstore: GradeProgressStore,
    course: u32,
    student: UserId,
) -> Seq<GradedGradeAssignment> {
    grade_assignments_of_course(gstore, astore, course).map_values(
        |g: GradeAssignment| GradedGradeAssignment {
            assignment: g,
            grade: grade_progress_of(gpstore, g.data.id, student),
        },
    )
}

/// The course's point assignments, each with the student's points.
pub open spec fn graded_points_of_course(
    pstore: PointAssignmentStore,
    astore: AssignmentStore,
    ppstore: PointProgressStore,
    course: u32,
    student: UserId,
) -> Seq<GradedPointAssignment> {
    point_assignments_of_course(pstore, astore, course).map_values(
        |p: PointAssignment| GradedPointAssignment {
            assignment: p,
            points: point_progress_of(ppstore, p.data.id, student),
        },
    )
}

/// Every assignment of one course with one student's progress.
pub struct GradedAssignments(pub Vec<GradedAssignment>);

impl GradedAssignments {
    /// The assignments of the course, each outer-joined to the student's
    /// progress — "no progress yet" surfaces as an explicit absent value.
    /// Grade assignments come first, then point assignments, each group in
    /// insertion order.
    pub fn get(
        gstore: &GradeAssignmentStore,
        pstore: &PointAssignmentStore,
        astore: &AssignmentStore,
        gpstore: &GradeProgressStore,
        ppstore: &PointProgressStore,
        course: CourseId,
        student: UserId,
    ) -> (r: Result<GradedAssignments, Error>)
        ensures
            r matches Ok(a) && a.0@ == graded_grades_of_course(
                *gstore,
                *astore,
                *gpstore,
                course,
                student,
            ).map_values(|g: GradedGradeAssignment| GradedAssignment::Grade(g))
                + graded_points_of_course(
                *pstore,
                *astore,
                *ppstore,
                course,
                student,
            ).map_values(|p: GradedPointAssignment| GradedAssignment::Point(p)),
    {
        let grades = grade_assignments_for(gstore, astore, course);
        let points = point_assignments_for(pstore, astore, course);
        let gtotal = grades.len();
        let ptotal = points.len();
        let ghost gview = grades@;
        let ghost pview = points@;
        let ghost gtarget = graded_grades_of_course(*gstore, *astore, *gpstore, course, student);
        let ghost ptarget = graded_points_of_course(*pstore, *astore, *ppstore, course, student);
        let mut out: Vec<GradedAssignment> = Vec::new();
        let mut grades = grades;
        let mut points = points;
        let mut k: usize = 0;
        while grades.len() > 0
            invariant
                gview.len() == gtotal,
                gtarget.len() == gtotal,
                k <= gtotal,
                grades@ =~= gview.subrange(k as int, gview.len() as int),
                gtarget == graded_grades_of_course(*gstore, *astore, *gpstore, course, student),
                gview == grade_assignments_of_course(*gstore, *astore, course),
                out@.len() == k,
                forall|m: int| 0 <= m < k ==> out@[m] == GradedAssignment::Grade(gtarget[m]),
            decreases grades@.len(),
        {
            let g = grades.remove(0);
            assert(g == gview[k as int]);
            let grade = grade_progress_for(gpstore, g.data.id, student);
            out.push(GradedAssignment::Grade(GradedGradeAssignment { assignment: g, grade }));
            k = k + 1;
            proof {
                assert(grades@ =~= gview.subrange(k as int, gview.len() as int));
            }
        }
        let mut j: usize = 0;
        while points.len() > 0
            invariant
                k == gtotal,
                gtarget.len() == gtotal,
                pview.len() == ptotal,
                ptarget.len() == ptotal,
                j <= ptotal,
                points@ =~= pview.subrange(j as int, pview.len() as int),
                ptarget == graded_points_of_course(*pstore, *astore, *ppstore, course, student),
                pview == point_assignments_of_course(*pstore, *astore, course),
                out@.len() == k + j,
                forall|m: int| 0 <= m < k ==> out@[m] == GradedAssignment::Grade(gtarget[m]),
                forall|m: int| 0 <= m < j ==> out@[k + m] == GradedAssignment::Point(ptarget[m]),
            decreases points@.len(),
        {
            let p = points.remove(0);
            assert(p == pview[j as int]);
            let pts = point_progress_for(ppstore, p.data.id, student);
            out.push(GradedAssignment::Point(GradedPointAssignment { assignment: p, points: pts }));
            j = j + 1;
            proof {
                assert(points@ =~= pview.subrange(j as int, pview.len() as int));
            }
        }
        proof {
            assert(out@ =~= gtarget.map_values(
                |g: GradedGradeAssignment| GradedAssignment::Grade(g),
            ) + ptarget.map_values(|p: GradedPointAssignment| GradedAssignment::Point(p)));
        }
        Ok(GradedAssignments(out))
    }
}

} // verus!
