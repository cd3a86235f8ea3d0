//! Generations, programs, and student index records: the entity families
//! behind the composite account "index" (program + generation + sequence
//! number), each a typed facade over a revision store.

use vstd::prelude::*;

use crate::error::Error;
use crate::store::{Revision, RevisionStore};

verus! {

/// A student's sequence number within a generation and program.
pub type IndexNumber = u32;

/// The payload of one generation revision.
pub struct GenerationData {
    pub year: u32,
}

/// The revision table of generations.
pub type GenerationStore = RevisionStore<GenerationData>;

/// A generation of students, enrolled in one year.
#[derive(Clone, Copy, Debug, PartialEq, Eq, Structural)]
pub struct Generation {
    pub id: u32,
    pub year: u32,
}

/// The generation a current row materializes to.
pub open spec fn generation_at(store: GenerationStore, i: int) -> Generation {
    Generation { id: store.rows@[i].identity, year: store.rows@[i].payload.year }
}

/// Every generation in the current view, in insertion order.
pub open spec fn generations_view(store: GenerationStore) -> Seq<Generation> {
    store.current_positions().map_values(|u: usize| generation_at(store, u as int))
}

impl Generation {
    /// Records a new generation under a fresh identity.
    pub fn create(store: &mut GenerationStore, marker: u64, year: u32) -> (r: Result<(), Error>)
        ensures
            match r {
                Ok(()) => final(store).created_fresh(*old(store), marker, GenerationData { year }),
                Err(e) => e == Error::StorageFailure && GenerationStore::max_identity(
                    old(store).rows@,
                ) >= u32::MAX && final(store).rows@ == old(store).rows@,
            },
    {
        match store.insert_revision(None, marker, false, GenerationData { year }) {
            Ok(_) => Ok(()),
            Err(e) => Err(e),
        }
    }

    /// The current generation of identity `id`; `EntryNotFound` exactly
    /// when no current row carries `id`.
    pub fn get_by_id(store: &GenerationStore, id: u32) -> (r: Result<Generation, Error>)
        ensures
            match r {
                Ok(g) => store.has_current(id) && g == generation_at(*store, store.current_index(id)),
                Err(e) => e == Error::EntryNotFound && !store.has_current(id),
            },
    {
        match store.current_index_for(id) {
            Some(i) => {
                let row = store.row(i);
                proof {
                    store.lemma_current_index(id, i as int);
                }
                Ok(Generation { id: row.identity, year: row.payload.year })
            },
            None => Err(Error::EntryNotFound),
        }
    }

    /// The first current generation of year `year`; `EntryNotFound`
    /// exactly when the current view holds none.
    pub fn get_by_year(store: &GenerationStore, year: u32) -> (r: Result<Generation, Error>)
        ensures
            match r {
                Ok(g) => exists|i: int|
                    #[trigger] store.current_at(i) && store.rows@[i].payload.year == year && g
                        == generation_at(*store, i),
                Err(e) => e == Error::EntryNotFound && forall|i: int|
                    #[trigger] store.current_at(i) ==> store.rows@[i].payload.year != year,
            },
    {
        let mut i: usize = 0;
        while i < store.len()
            invariant
                i <= store.rows@.len(),
                forall|j: int|
                    0 <= j < i && #[trigger] store.current_at(j) ==> store.rows@[j].payload.year
                        != year,
            decreases store.rows@.len() - i,
        {
            if store.row(i).payload.year == year {
                if store.is_current(i) {
                    let row = store.row(i);
                    return Ok(Generation { id: row.identity, year: row.payload.year });
                }
            }
            i = i + 1;
        }
        Err(Error::EntryNotFound)
    }

    /// Marks the generation deleted by appending a deletion revision; the
    /// history stays. `EntryNotFound` when the identity never existed.
    pub fn delete(&self, store: &mut GenerationStore, marker: u64) -> (r: Result<(), Error>)
        ensures
            match r {
                Ok(()) => final(store).appended(
                    *old(store),
                    self.id,
                    marker,
                    true,
                    GenerationData { year: self.year },
                ),
                Err(e) => e == Error::EntryNotFound && !old(store).has_identity(self.id)
                    && final(store).rows@ == old(store).rows@,
            },
    {
        match store.insert_revision(
            Some(self.id),
            marker,
            true,
            GenerationData { year: self.year },
        ) {
            Ok(_) => Ok(()),
            Err(e) => Err(e),
        }
    }
}

/// Every generation in the current view.
pub struct Generations(pub Vec<Generation>);

impl Generations {
    /// Materializes the current view of generations, in insertion order.
    pub fn get(store: &GenerationStore) -> (r: Result<Generations, Error>)
        ensures
            r matches Ok(g) && g.0@ == generations_view(*store),
    {
        let indices = store.current_indices();
        let mut out: Vec<Generation> = Vec::new();
        let mut k: usize = 0;
        while k < indices.len()
            invariant
                k <= indices@.len(),
                indices@ == store.current_positions(),
                forall|m: int| 0 <= m < indices@.len() ==> store.current_at(indices@[m] as int),
                out@.len() == k,
                forall|m: int|
                    0 <= m < k ==> out@[m] == generation_at(*store, #[trigger] indices@[m] as int),
            decreases indices@.len() - k,
        {
            let i = indices[k];
            let row = store.row(i);
            out.push(Generation { id: row.identity, year: row.payload.year });
            k = k + 1;
        }
        assert(out@ =~= generations_view(*store));
        Ok(Generations(out))
    }
}

/// The payload of one program revision.
pub struct ProgramData {
    pub short_name: String,
    pub full_name: String,
}

/// The revision table of study programs.
pub type ProgramStore = RevisionStore<ProgramData>;

/// A study program with its abbreviated and full names.
#[derive(Debug)]
pub struct Program {
    pub id: u32,
    pub short_name: String,
    pub full_name: String,
}

impl Clone for Program {
    fn clone(&self) -> (r: Self)
        ensures
            r == *self,
    {
        Program {
            id: self.id,
            short_name: self.short_name.clone(),
            full_name: self.full_name.clone(),
        }
    }
}

/// The program a current row materializes to.
pub open spec fn program_at(store: ProgramStore, i: int) -> Program {
    Program {
        id: store.rows@[i].identity,
        short_name: store.rows@[i].payload.short_name,
        full_name: store.rows@[i].payload.full_name,
    }
}

/// Every program in the current view, in insertion order.
pub open spec fn programs_view(store: ProgramStore) -> Seq<Program> {
    store.current_positions().map_values(|u: usize| program_at(store, u as int))
}

impl Program {
    /// Records a new program under a fresh identity.
    pub fn create(store: &mut ProgramStore, marker: u64, short_name: String, full_name: String) -> (r:
        Result<(), Error>)
        ensures
            match r {
                Ok(()) => final(store).created_fresh(
                    *old(store),
                    marker,
                    ProgramData { short_name, full_name },
                ),
                Err(e) => e == Error::StorageFailure && ProgramStore::max_identity(
                    old(store).rows@,
                ) >= u32::MAX && final(store).rows@ == old(store).rows@,
            },
    {
        match store.insert_revision(None, marker, false, ProgramData { short_name, full_name }) {
            Ok(_) => Ok(()),
            Err(e) => Err(e),
        }
    }

    /// The current program of identity `id`; `EntryNotFound` exactly when
    /// no current row carries `id`.
    pub fn get_by_id(store: &ProgramStore, id: u32) -> (r: Result<Program, Error>)
        ensures
            match r {
                Ok(p) => store.has_current(id) && p == program_at(*store, store.current_index(id)),
                Err(e) => e == Error::EntryNotFound && !store.has_current(id),
            },
    {
        match store.current_index_for(id) {
            Some(i) => {
                let row = store.row(i);
                proof {
                    store.lemma_current_index(id, i as int);
                }
                Ok(Program {
                    id: row.identity,
                    short_name: row.payload.short_name.clone(),
                    full_name: row.payload.full_name.clone(),
                })
            },
            None => Err(Error::EntryNotFound),
        }
    }

    /// The first current program whose abbreviated name is exactly
    /// `short_name`; `EntryNotFound` exactly when there is none.
    pub fn get_by_short_name(store: &ProgramStore, short_name: &str) -> (r: Result<Program, Error>)
        ensures
            match r {
                Ok(p) => exists|i: int|
                    #[trigger] store.current_at(i) && store.rows@[i].payload.short_name@
                        == short_name@ && p == program_at(*store, i),
                Err(e) => e == Error::EntryNotFound && forall|i: int|
                    #[trigger] store.current_at(i) ==> store.rows@[i].payload.short_name@
                        != short_name@,
            },
    {
        let mut i: usize = 0;
        while i < store.len()
            invariant
                i <= store.rows@.len(),
                forall|j: int|
                    0 <= j < i && #[trigger] store.current_at(j)
                        ==> store.rows@[j].payload.short_name@ != short_name@,
            decreases store.rows@.len() - i,
        {
            if crate::text::str_eq(store.row(i).payload.short_name.as_str(), short_name) {
                if store.is_current(i) {
                    let row = store.row(i);
                    return Ok(Program {
                        id: row.identity,
                        short_name: row.payload.short_name.clone(),
                        full_name: row.payload.full_name.clone(),
                    });
                }
            }
            i = i + 1;
        }
        Err(Error::EntryNotFound)
    }

    /// Marks the program deleted by appending a deletion revision; the
    /// history stays. `EntryNotFound` when the identity never existed.
    pub fn delete(self, store: &mut ProgramStore, marker: u64) -> (r: Result<(), Error>)
        ensures
            match r {
                Ok(()) => final(store).appended(
                    *old(store),
                    self.id,
                    marker,
                    true,
                    ProgramData { short_name: self.short_name, full_name: self.full_name },
                ),
                Err(e) => e == Error::EntryNotFound && !old(store).has_identity(self.id)
                    && final(store).rows@ == old(store).rows@,
            },
    {
        let id = self.id;
        match store.insert_revision(
            Some(id),
            marker,
            true,
            ProgramData { short_name: self.short_name, full_name: self.full_name },
        ) {
            Ok(_) => Ok(()),
            Err(e) => Err(e),
        }
    }
}

/// Every program in the current view.
pub struct Programs(pub Vec<Program>);

impl Programs {
    /// Materializes the current view of programs, in insertion order.
    pub fn get(store: &ProgramStore) -> (r: Result<Programs, Error>)
        ensures
            r matches Ok(p) && p.0@ == programs_view(*store),
    {
        let indices = store.current_indices();
        let mut out: Vec<Program> = Vec::new();
        let mut k: usize = 0;
        while k < indices.len()
            invariant
                k <= indices@.len(),
                indices@ == store.current_positions(),
                forall|m: int| 0 <= m < indices@.len() ==> store.current_at(indices@[m] as int),
                out@.len() == k,
                forall|m: int|
                    0 <= m < k ==> out@[m] == program_at(*store, #[trigger] indices@[m] as int),
            decreases indices@.len() - k,
        {
            let i = indices[k];
            let row = store.row(i);
            out.push(Program {
                id: row.identity,
                short_name: row.payload.short_name.clone(),
                full_name: row.payload.full_name.clone(),
            });
            k = k + 1;
        }
        assert(out@ =~= programs_view(*store));
        Ok(Programs(out))
    }
}

/// The payload of one index-record revision: the program, generation,
/// sequence number and owning student of one student index.
pub struct IndexData {
    pub program: u32,
    pub generation: u32,
    pub number: IndexNumber,
    pub student: u32,
}

/// The revision table of student index records.
pub type IndexStore = RevisionStore<IndexData>;

/// A student index record.
#[derive(Clone, Copy, Debug, PartialEq, Eq, Structural)]
pub struct Index {
    pub id: u32,
    pub program: u32,
    pub generation: u32,
    pub number: IndexNumber,
    pub student: u32,
}

/// The index record a current row materializes to.
pub open spec fn index_at(store: IndexStore, i: int) -> Index {
    Index {
        id: store.rows@[i].identity,
        program: store.rows@[i].payload.program,
        generation: store.rows@[i].payload.generation,
        number: store.rows@[i].payload.number,
        student: store.rows@[i].payload.student,
    }
}

impl Index {
    /// Records a new index record under a fresh identity.
    pub fn create(
        store: &mut IndexStore,
        marker: u64,
        program: u32,
        generation: u32,
        number: IndexNumber,
        student: u32,
    ) -> (r: Result<(), Error>)
        ensures
            match r {
                Ok(()) => final(store).created_fresh(
                    *old(store),
                    marker,
                    IndexData { program, generation, number, student },
                ),
                Err(e) => e == Error::StorageFailure && IndexStore::max_identity(old(store).rows@)
                    >= u32::MAX && final(store).rows@ == old(store).rows@,
            },
    {
        match store.insert_revision(
            None,
            marker,
            false,
            IndexData { program, generation, number, student },
        ) {
            Ok(_) => Ok(()),
            Err(e) => Err(e),
        }
    }
}

} // verus!
