//! Accounts: the user entity family, its revision store, and the
//! filter/sort/paginate listing pipeline over the current view of users
//! left-joined to their index records.

use vstd::prelude::*;

use crate::error::Error;
use crate::index::{
    generation_at, index_at, program_at, Generation, GenerationStore, Index, IndexNumber,
    IndexStore, Program, ProgramStore,
};
use crate::database::SortDirection;
use crate::store::{Revision, RevisionStore};
use crate::text::Rel;

verus! {

/// The identity of a user account.
pub type UserId = u32;

/// The role an account acts in.
#[derive(Clone, Copy, Debug, PartialEq, Eq, Structural)]
pub enum AccountType {
    Student,
    Professor,
    Administrator,
}

impl AccountType {
    /// The numeric value the account kind is persisted as.
    pub open spec fn spec_value(self) -> u32 {
        match self {
            AccountType::Student => 0,
            AccountType::Professor => 1,
            AccountType::Administrator => 2,
        }
    }

    /// The numeric value the account kind is persisted as.
    pub fn value(&self) -> (r: u32)
        ensures
            r == self.spec_value(),
    {
        match self {
            AccountType::Student => 0,
            AccountType::Professor => 1,
            AccountType::Administrator => 2,
        }
    }

    /// Decodes a persisted numeric value; `InvalidAccountTypeValue`
    /// exactly on values that encode no account kind.
    pub fn try_from(value: u8) -> (r: Result<AccountType, Error>)
        ensures
            match r {
                Ok(t) => t.spec_value() == value,
                Err(e) => e == Error::InvalidAccountTypeValue && value > 2,
            },
    {
        match value {
            0u8 => Ok(AccountType::Student),
            1u8 => Ok(AccountType::Professor),
            2u8 => Ok(AccountType::Administrator),
            _ => Err(Error::InvalidAccountTypeValue),
        }
    }
}

/// The payload of one account revision.
pub struct UserData {
    pub password: String,
    pub email: String,
    pub account_type: AccountType,
    pub password_reset_required: bool,
    pub first_name: Option<String>,
    pub last_name: Option<String>,
    pub last_login_time: Option<u64>,
}

/// Copies an optional string, keeping its value.
pub fn clone_opt_string(o: &Option<String>) -> (r: Option<String>)
    ensures
        r == *o,
{
    match o {
        Option::None => Option::None,
        Option::Some(s) => Option::Some(s.clone()),
    }
}

impl Clone for UserData {
    fn clone(&self) -> (r: Self)
        ensures
            r == *self,
    {
        UserData {
            password: self.password.clone(),
            email: self.email.clone(),
            account_type: self.account_type,
            password_reset_required: self.password_reset_required,
            first_name: clone_opt_string(&self.first_name),
            last_name: clone_opt_string(&self.last_name),
            last_login_time: self.last_login_time,
        }
    }
}

/// The revision table of accounts.
pub type UserStore = RevisionStore<UserData>;

/// A materialized account row: the current revision of one identity.
#[derive(Debug)]
pub struct User {
    pub id: UserId,
    pub password: String,
    pub email: String,
    pub account_type: AccountType,
    pub password_reset_required: bool,
    pub first_name: Option<String>,
    pub last_name: Option<String>,
    pub last_login_time: Option<u64>,
    pub deleted: bool,
}

impl Clone for User {
    fn clone(&self) -> (r: Self)
        ensures
            r == *self,
    {
        User {
            id: self.id,
            password: self.password.clone(),
            email: self.email.clone(),
            account_type: self.account_type,
            password_reset_required: self.password_reset_required,
            first_name: clone_opt_string(&self.first_name),
            last_name: clone_opt_string(&self.last_name),
            last_login_time: self.last_login_time,
            deleted: self.deleted,
        }
    }
}

/// The account row `i` materializes to.
pub open spec fn user_at(store: UserStore, i: int) -> User {
    User {
        id: store.rows@[i].identity,
        password: store.rows@[i].payload.password,
        email: store.rows@[i].payload.email,
        account_type: store.rows@[i].payload.account_type,
        password_reset_required: store.rows@[i].payload.password_reset_required,
        first_name: store.rows@[i].payload.first_name,
        last_name: store.rows@[i].payload.last_name,
        last_login_time: store.rows@[i].payload.last_login_time,
        deleted: store.rows@[i].deleted,
    }
}

/// Some current account row carries this email.
pub open spec fn email_taken(store: UserStore, email: Seq<char>) -> bool {
    exists|i: int| #[trigger] store.current_at(i) && store.rows@[i].payload.email@ == email
}

/// The first position at or after `n` whose current account carries the
/// email, or the table length when none does.
pub open spec fn first_user_by_email_from(store: UserStore, email: Seq<char>, n: int) -> int
    decreases store.rows@.len() - n when 0 <= n <= store.rows@.len()
{
    if n >= store.rows@.len() {
        n
    } else if store.current_at(n) && store.rows@[n].payload.email@ == email {
        n
    } else {
        first_user_by_email_from(store, email, n + 1)
    }
}

/// Materializes the row at position `i`.
fn materialize_user(store: &UserStore, i: usize) -> (r: User)
    requires
        i < store.rows@.len(),
    ensures
        r == user_at(*store, i as int),
{
    let row = store.row(i);
    User {
        id: row.identity,
        password: row.payload.password.clone(),
        email: row.payload.email.clone(),
        account_type: row.payload.account_type,
        password_reset_required: row.payload.password_reset_required,
        first_name: clone_opt_string(&row.payload.first_name),
        last_name: clone_opt_string(&row.payload.last_name),
        last_login_time: row.payload.last_login_time,
        deleted: row.deleted,
    }
}

impl User {
    /// A builder for a new account, student by default.
    pub fn builder(email: String, password: String) -> (r: UserBuilder)
        ensures
            r.email == email,
            r.password == password,
            r.account_type == AccountType::Student,
            !r.password_reset_required,
            r.first_name is None,
            r.last_name is None,
            r.last_login_time is None,
    {
        UserBuilder {
            email,
            password,
            account_type: AccountType::Student,
            password_reset_required: false,
            first_name: None,
            last_name: None,
            last_login_time: None,
        }
    }

    /// The current account of identity `id`; `EntryNotFound` exactly when
    /// no current row carries `id`.
    pub fn get_by_id(store: &UserStore, id: UserId) -> (r: Result<User, Error>)
        ensures
            match r {
                Ok(u) => store.has_current(id) && u == user_at(*store, store.current_index(id)),
                Err(e) => e == Error::EntryNotFound && !store.has_current(id),
            },
    {
        match store.current_index_for(id) {
            Some(i) => {
                proof {
                    store.lemma_current_index(id, i as int);
                }
                Ok(materialize_user(store, i))
            },
            None => Err(Error::EntryNotFound),
        }
    }

    /// The first current account whose email is exactly `email`;
    /// `EntryNotFound` exactly when the current view holds none.
    pub fn get_by_email(store: &UserStore, email: &str) -> (r: Result<User, Error>)
        ensures
            ({
                let i = first_user_by_email_from(*store, email@, 0);
                match r {
                    Ok(u) => i < store.rows@.len() && u == user_at(*store, i),
                    Err(e) => e == Error::EntryNotFound && i == store.rows@.len() && !email_taken(
                        *store,
                        email@,
                    ),
                }
            }),
    {
        let mut i: usize = 0;
        while i < store.len()
            invariant
                i <= store.rows@.len(),
                first_user_by_email_from(*store, email@, 0) == first_user_by_email_from(
                    *store,
                    email@,
                    i as int,
                ),
                forall|j: int|
                    0 <= j < i && #[trigger] store.current_at(j) ==> store.rows@[j].payload.email@
                        != email@,
            decreases store.rows@.len() - i,
        {
            if crate::text::str_eq(store.row(i).payload.email.as_str(), email) {
                if store.is_current(i) {
                    proof {
                        assert(first_user_by_email_from(*store, email@, i as int) == i as int);
                    }
                    return Ok(materialize_user(store, i));
                }
            }
            proof {
                assert(first_user_by_email_from(*store, email@, i as int)
                    == first_user_by_email_from(*store, email@, i + 1));
            }
            i = i + 1;
        }
        Err(Error::EntryNotFound)
    }

    /// The account kind the row carries.
    pub fn account_type(&self) -> (r: AccountType)
        ensures
            r == self.account_type,
    {
        self.account_type
    }

    /// Professors and administrators may act as professors.
    pub fn is_professor(&self) -> (r: bool)
        ensures
            r == (self.account_type == AccountType::Professor || self.account_type
                == AccountType::Administrator),
    {
        self.account_type == AccountType::Professor || self.is_administrator()
    }

    /// Only administrators administrate.
    pub fn is_administrator(&self) -> (r: bool)
        ensures
            r == (self.account_type == AccountType::Administrator),
    {
        self.account_type == AccountType::Administrator
    }

    /// The account's identity.
    pub fn id(&self) -> (r: u32)
        ensures
            r == self.id,
    {
        self.id
    }

    /// The account's email.
    pub fn email(&self) -> (r: &str)
        ensures
            r@ == self.email@,
    {
        self.email.as_str()
    }
}

/// The latest payload of identity `id`, the basis an update builds its
/// new revision from; meaningful when the identity exists.
pub open spec fn latest_payload(store: UserStore, id: UserId) -> UserData {
    store.rows@[store.latest_index(id)].payload
}

/// The deletion flag of the latest revision of identity `id`.
pub open spec fn latest_deleted(store: UserStore, id: UserId) -> bool {
    store.rows@[store.latest_index(id)].deleted
}

/// An update appended one revision of `id` with marker `marker`, on top
/// of `prior`, leaving every earlier row as it was.
pub open spec fn update_appended(store: UserStore, prior: UserStore, id: UserId, marker: u64) -> bool {
    &&& store.rows@.len() == prior.rows@.len() + 1
    &&& store.rows@.drop_last() == prior.rows@
    &&& store.rows@.last().identity == id
    &&& store.rows@.last().marker == marker
}

impl User {
    /// Looks up the basis revision of an update and appends the revision
    /// `make` builds from it; an identity that never existed is left
    /// untouched, as an update matching zero rows.
    #[verifier::inline]
    pub open spec fn unchanged_if_absent(store: UserStore, prior: UserStore, id: UserId) -> bool {
        !prior.has_identity(id) ==> store.rows@ == prior.rows@
    }

    /// Appends a revision of this account whose payload is the latest
    /// revision's payload with the email replaced.
    pub fn update_email(&self, store: &mut UserStore, marker: u64, email: &str) -> (r: Result<
        (),
        Error,
    >)
        ensures
            r is Ok,
            Self::unchanged_if_absent(*final(store), *old(store), self.id),
            old(store).has_identity(self.id) ==> update_appended(
                *final(store),
                *old(store),
                self.id,
                marker,
            ) && final(store).rows@.last().deleted == latest_deleted(*old(store), self.id) && (
            final(store).rows@.last().payload == UserData {
                email: final(store).rows@.last().payload.email,
                ..latest_payload(*old(store), self.id)
            }) && final(store).rows@.last().payload.email@ == email@,
    {
        match store.latest_index_for(self.id) {
            Some(i) => {
                proof {
                    store.lemma_latest_index(self.id, i as int);
                    assert(store.rows@[i as int].identity == self.id);
                }
                let row = store.row(i);
                let payload = UserData {
                    password: row.payload.password.clone(),
                    email: email.to_owned(),
                    account_type: row.payload.account_type,
                    password_reset_required: row.payload.password_reset_required,
                    first_name: clone_opt_string(&row.payload.first_name),
                    last_name: clone_opt_string(&row.payload.last_name),
                    last_login_time: row.payload.last_login_time,
                };
                let deleted = row.deleted;
                let res = store.insert_revision(Some(self.id), marker, deleted, payload);
                proof {
                    assert(store.rows@.drop_last() =~= old(store).rows@);
                }
                match res {
                    Ok(_) => Ok(()),
                    Err(e) => Err(e),
                }
            },
            None => Ok(()),
        }
    }

    /// Appends a revision of this account whose payload is the latest
    /// revision's payload with the account kind replaced.
    pub fn update_account_type(
        &self,
        store: &mut UserStore,
        marker: u64,
        account_type: AccountType,
    ) -> (r: Result<(), Error>)
        ensures
            r is Ok,
            Self::unchanged_if_absent(*final(store), *old(store), self.id),
            old(store).has_identity(self.id) ==> update_appended(
                *final(store),
                *old(store),
                self.id,
                marker,
            ) && final(store).rows@.last().deleted == latest_deleted(*old(store), self.id) && (
            final(store).rows@.last().payload == UserData {
                account_type,
                ..latest_payload(*old(store), self.id)
            }),
    {
        match store.latest_index_for(self.id) {
            Some(i) => {
                proof {
                    store.lemma_latest_index(self.id, i as int);
                    assert(store.rows@[i as int].identity == self.id);
                }
                let row = store.row(i);
                let payload = UserData { account_type, ..row.payload.clone() };
                let deleted = row.deleted;
                let res = store.insert_revision(Some(self.id), marker, deleted, payload);
                proof {
                    assert(store.rows@.drop_last() =~= old(store).rows@);
                }
                match res {
                    Ok(_) => Ok(()),
                    Err(e) => Err(e),
                }
            },
            None => Ok(()),
        }
    }

    /// Appends a revision of this account with the deletion flag set as
    /// given and the payload kept: marking deleted hides the account from
    /// the current view, marking undeleted restores it. With a marker no
    /// older than the account's revisions — the monotonic markers the
    /// store's callers supply — a deletion leaves no current row of the
    /// account.
    pub fn update_deleted(&self, store: &mut UserStore, marker: u64, deleted: bool) -> (r: Result<
        (),
        Error,
    >)
        ensures
            r is Ok,
            Self::unchanged_if_absent(*final(store), *old(store), self.id),
            old(store).has_identity(self.id) ==> update_appended(
                *final(store),
                *old(store),
                self.id,
                marker,
            ) && final(store).rows@.last().deleted == deleted && final(store).rows@.last().payload
                == latest_payload(*old(store), self.id),
            (deleted && old(store).has_identity(self.id) && (forall|j: int|
                0 <= j < old(store).rows@.len() && #[trigger] old(store).rows@[j].identity
                    == self.id ==> old(store).rows@[j].marker <= marker)) ==> !final(store)
                .has_current(self.id),
    {
        match store.latest_index_for(self.id) {
            Some(i) => {
                proof {
                    store.lemma_latest_index(self.id, i as int);
                    assert(store.rows@[i as int].identity == self.id);
                }
                let row = store.row(i);
                let payload = row.payload.clone();
                let res = store.insert_revision(Some(self.id), marker, deleted, payload);
                proof {
                    assert(store.rows@.drop_last() =~= old(store).rows@);
                    if deleted && (forall|j: int|
                        0 <= j < old(store).rows@.len() && #[trigger] old(store).rows@[j].identity
                            == self.id ==> old(store).rows@[j].marker <= marker) {
                        assert(store.rows@ =~= old(store).rows@.push(store.rows@.last()));
                        store.lemma_delete_hides_identity(
                            *old(store),
                            self.id,
                            marker,
                            store.rows@.last().payload,
                        );
                    }
                }
                match res {
                    Ok(_) => Ok(()),
                    Err(e) => Err(e),
                }
            },
            None => Ok(()),
        }
    }

    /// Appends a revision of this account whose payload is the latest
    /// revision's payload with the first name replaced.
    pub fn update_first_name(
        &self,
        store: &mut UserStore,
        marker: u64,
        first_name: Option<&str>,
    ) -> (r: Result<(), Error>)
        ensures
            r is Ok,
            Self::unchanged_if_absent(*final(store), *old(store), self.id),
            old(store).has_identity(self.id) ==> update_appended(
                *final(store),
                *old(store),
                self.id,
                marker,
            ) && final(store).rows@.last().deleted == latest_deleted(*old(store), self.id) && (
            final(store).rows@.last().payload == UserData {
                first_name: final(store).rows@.last().payload.first_name,
                ..latest_payload(*old(store), self.id)
            }) && crate::text::opt_view(final(store).rows@.last().payload.first_name)
                == opt_str_view(first_name),
    {
        match store.latest_index_for(self.id) {
            Some(i) => {
                proof {
                    store.lemma_latest_index(self.id, i as int);
                    assert(store.rows@[i as int].identity == self.id);
                }
                let row = store.row(i);
                let new_name: Option<String> = match first_name {
                    Option::None => Option::None,
                    Option::Some(s) => Option::Some(s.to_owned()),
                };
                let payload = UserData { first_name: new_name, ..row.payload.clone() };
                let deleted = row.deleted;
                let res = store.insert_revision(Some(self.id), marker, deleted, payload);
                proof {
                    assert(store.rows@.drop_last() =~= old(store).rows@);
                }
                match res {
                    Ok(_) => Ok(()),
                    Err(e) => Err(e),
                }
            },
            None => Ok(()),
        }
    }

    /// Appends a revision of this account whose payload is the latest
    /// revision's payload with the last name replaced.
    pub fn update_last_name(
        &self,
        store: &mut UserStore,
        marker: u64,
        last_name: Option<&str>,
    ) -> (r: Result<(), Error>)
        ensures
            r is Ok,
            Self::unchanged_if_absent(*final(store), *old(store), self.id),
            old(store).has_identity(self.id) ==> update_appended(
                *final(store),
                *old(store),
                self.id,
                marker,
            ) && final(store).rows@.last().deleted == latest_deleted(*old(store), self.id) && (
            final(store).rows@.last().payload == UserData {
                last_name: final(store).rows@.last().payload.last_name,
                ..latest_payload(*old(store), self.id)
            }) && crate::text::opt_view(final(store).rows@.last().payload.last_name)
                == opt_str_view(last_name),
    {
        match store.latest_index_for(self.id) {
            Some(i) => {
                proof {
                    store.lemma_latest_index(self.id, i as int);
                    assert(store.rows@[i as int].identity == self.id);
                }
                let row = store.row(i);
                let new_name: Option<String> = match last_name {
                    Option::None => Option::None,
                    Option::Some(s) => Option::Some(s.to_owned()),
                };
                let payload = UserData { last_name: new_name, ..row.payload.clone() };
                let deleted = row.deleted;
                let res = store.insert_revision(Some(self.id), marker, deleted, payload);
                proof {
                    assert(store.rows@.drop_last() =~= old(store).rows@);
                }
                match res {
                    Ok(_) => Ok(()),
                    Err(e) => Err(e),
                }
            },
            None => Ok(()),
        }
    }
}

/// An account's index record with the generation and program it points
/// to, as the three-table join materializes it.
#[derive(Debug)]
pub struct IndexGenerationProgram {
    pub index: Index,
    pub generation: Generation,
    pub program: Program,
}

impl Clone for IndexGenerationProgram {
    fn clone(&self) -> (r: Self)
        ensures
            r == *self,
    {
        IndexGenerationProgram {
            index: self.index,
            generation: self.generation,
            program: self.program.clone(),
        }
    }
}

/// One listing row: an account and, when the account owns one, its index
/// record joined to generation and program. An account without an index
/// carries an explicit absent value, never placeholder data.
#[derive(Debug)]
pub struct UserWithIndex {
    pub user: User,
    pub index: Option<IndexGenerationProgram>,
}

impl Clone for UserWithIndex {
    fn clone(&self) -> (r: Self)
        ensures
            r == *self,
    {
        let index = match &self.index {
            Option::None => Option::None,
            Option::Some(igp) => Option::Some(igp.clone()),
        };
        UserWithIndex { user: self.user.clone(), index }
    }
}

/// A sparse record of optional filter criteria; an absent field means
/// "no constraint", never "match empty". Substring criteria ignore ASCII
/// case.
#[derive(Debug)]
pub struct RetrievalFilters {
    pub filter_email: Option<String>,
    pub filter_account_type: Option<AccountType>,
    pub filter_first_name: Option<String>,
    pub filter_last_name: Option<String>,
    pub filter_program: Option<String>,
    pub filter_generation: Option<u32>,
    pub filter_index_number: Option<IndexNumber>,
}

impl Clone for RetrievalFilters {
    fn clone(&self) -> (r: Self)
        ensures
            r == *self,
    {
        RetrievalFilters {
            filter_email: clone_opt_string(&self.filter_email),
            filter_account_type: self.filter_account_type,
            filter_first_name: clone_opt_string(&self.filter_first_name),
            filter_last_name: clone_opt_string(&self.filter_last_name),
            filter_program: clone_opt_string(&self.filter_program),
            filter_generation: self.filter_generation,
            filter_index_number: self.filter_index_number,
        }
    }
}

/// No populated field at all: every row passes.
pub open spec fn filters_absent(f: RetrievalFilters) -> bool {
    &&& f.filter_email is None
    &&& f.filter_account_type is None
    &&& f.filter_first_name is None
    &&& f.filter_last_name is None
    &&& f.filter_program is None
    &&& f.filter_generation is None
    &&& f.filter_index_number is None
}

impl RetrievalFilters {
    /// The empty filter record: no constraint on any dimension.
    pub fn new() -> (r: Self)
        ensures
            filters_absent(r),
    {
        Self {
            filter_email: None,
            filter_account_type: None,
            filter_first_name: None,
            filter_last_name: None,
            filter_program: None,
            filter_generation: None,
            filter_index_number: None,
        }
    }
}

/// The AND of every populated filter criterion on one row: substring
/// criteria match anywhere in the field ignoring ASCII case, as the
/// backing store's default collation does; exact criteria compare by
/// equality; criteria on the joined index reject rows without one, as a
/// predicate over an absent joined side does.
pub open spec fn row_matches(filters: RetrievalFilters, row: UserWithIndex) -> bool {
    &&& (match filters.filter_email {
        Option::Some(f) => crate::text::text_contains_fold(row.user.email@, f@),
        Option::None => true,
    })
    &&& (match filters.filter_account_type {
        Option::Some(t) => row.user.account_type == t,
        Option::None => true,
    })
    &&& (match filters.filter_first_name {
        Option::Some(f) => match row.user.first_name {
            Option::Some(n) => crate::text::text_contains_fold(n@, f@),
            Option::None => false,
        },
        Option::None => true,
    })
    &&& (match filters.filter_last_name {
        Option::Some(f) => match row.user.last_name {
            Option::Some(n) => crate::text::text_contains_fold(n@, f@),
            Option::None => false,
        },
        Option::None => true,
    })
    &&& (match filters.filter_program {
        Option::Some(f) => match row.index {
            Option::Some(igp) => crate::text::text_contains_fold(igp.program.short_name@, f@),
            Option::None => false,
        },
        Option::None => true,
    })
    &&& (match filters.filter_generation {
        Option::Some(y) => match row.index {
            Option::Some(igp) => igp.generation.year == y,
            Option::None => false,
        },
        Option::None => true,
    })
    &&& (match filters.filter_index_number {
        Option::Some(n) => match row.index {
            Option::Some(igp) => igp.index.number == n,
            Option::None => false,
        },
        Option::None => true,
    })
}

/// The rows that pass every populated criterion, in their given order.
pub open spec fn filter_rows(rows: Seq<UserWithIndex>, filters: RetrievalFilters) -> Seq<
    UserWithIndex,
> {
    rows.filter(|row: UserWithIndex| row_matches(filters, row))
}

/// Whether one row passes every populated criterion.
fn matches_row(filters: &RetrievalFilters, row: &UserWithIndex) -> (r: bool)
    ensures
        r == row_matches(*filters, *row),
{
    let email_ok = match &filters.filter_email {
        Option::Some(f) => crate::text::str_contains_fold(row.user.email.as_str(), f.as_str()),
        Option::None => true,
    };
    let account_type_ok = match &filters.filter_account_type {
        Option::Some(t) => row.user.account_type == *t,
        Option::None => true,
    };
    let first_name_ok = match &filters.filter_first_name {
        Option::Some(f) => match &row.user.first_name {
            Option::Some(n) => crate::text::str_contains_fold(n.as_str(), f.as_str()),
            Option::None => false,
        },
        Option::None => true,
    };
    let last_name_ok = match &filters.filter_last_name {
        Option::Some(f) => match &row.user.last_name {
            Option::Some(n) => crate::text::str_contains_fold(n.as_str(), f.as_str()),
            Option::None => false,
        },
        Option::None => true,
    };
    let program_ok = match &filters.filter_program {
        Option::Some(f) => match &row.index {
            Option::Some(igp) => crate::text::str_contains_fold(igp.program.short_name.as_str(), f.as_str()),
            Option::None => false,
        },
        Option::None => true,
    };
    let generation_ok = match &filters.filter_generation {
        Option::Some(y) => match &row.index {
            Option::Some(igp) => igp.generation.year == *y,
            Option::None => false,
        },
        Option::None => true,
    };
    let index_number_ok = match &filters.filter_index_number {
        Option::Some(n) => match &row.index {
            Option::Some(igp) => igp.index.number == *n,
            Option::None => false,
        },
        Option::None => true,
    };
    email_ok && account_type_ok && first_name_ok && last_name_ok && program_ok && generation_ok
        && index_number_ok
}

/// A filtered sequence grows by the new row exactly when the row passes.
pub proof fn lemma_filter_push<A>(s: Seq<A>, pred: spec_fn(A) -> bool, x: A)
    ensures
        s.push(x).filter(pred) == if pred(x) {
            s.filter(pred).push(x)
        } else {
            s.filter(pred)
        },
{
    reveal(Seq::filter);
    assert(s.push(x).drop_last() =~= s);
    assert(s.push(x).last() == x);
}

/// Filtering by two predicates reaches the same rows in either order.
proof fn lemma_seq_filter_commutes<A>(s: Seq<A>, p: spec_fn(A) -> bool, q: spec_fn(A) -> bool)
    ensures
        s.filter(p).filter(q) == s.filter(q).filter(p),
    decreases s.len(),
{
    reveal(Seq::filter);
    if s.len() > 0 {
        let s0 = s.drop_last();
        let x = s.last();
        lemma_seq_filter_commutes(s0, p, q);
        assert(s =~= s0.push(x));
        lemma_filter_push(s0, p, x);
        lemma_filter_push(s0, q, x);
        lemma_filter_push(s0.filter(p), q, x);
        lemma_filter_push(s0.filter(q), p, x);
    }
}

/// Predicate commutativity: composing two filter records onto a row set
/// in either order yields the same result set.
pub proof fn lemma_filters_commute(
    rows: Seq<UserWithIndex>,
    a: RetrievalFilters,
    b: RetrievalFilters,
)
    ensures
        filter_rows(filter_rows(rows, a), b) == filter_rows(filter_rows(rows, b), a),
{
    lemma_seq_filter_commutes(
        rows,
        |row: UserWithIndex| row_matches(a, row),
        |row: UserWithIndex| row_matches(b, row),
    );
}

/// An absent filter record is a no-op: composing it returns exactly the
/// given rows.
pub proof fn lemma_absent_filters_noop(rows: Seq<UserWithIndex>, filters: RetrievalFilters)
    requires
        filters_absent(filters),
    ensures
        filter_rows(rows, filters) == rows,
    decreases rows.len(),
{
    reveal(Seq::filter);
    if rows.len() > 0 {
        lemma_absent_filters_noop(rows.drop_last(), filters);
        assert(filter_rows(rows, filters) =~= rows);
    }
}

/// The view of an optional borrowed string: its characters when present.
pub open spec fn opt_str_view(o: Option<&str>) -> Option<Seq<char>> {
    match o {
        Option::None => Option::None,
        Option::Some(s) => Option::Some(s@),
    }
}

/// The payload a builder's `build` hands to `create`.
pub struct NewUser {
    pub password: String,
    pub email: String,
    pub account_type: AccountType,
    pub password_reset_required: bool,
    pub first_name: Option<String>,
    pub last_name: Option<String>,
    pub last_login_time: Option<u64>,
}

impl NewUser {
    /// Records the new account under a fresh identity; `DuplicateEntry`
    /// exactly when a current account already carries the email.
    pub fn create(&self, store: &mut UserStore, marker: u64) -> (r: Result<(), Error>)
        ensures
            match r {
                Ok(()) => !email_taken(*old(store), self.email@) && final(store).created_fresh(
                    *old(store),
                    marker,
                    UserData {
                        password: self.password,
                        email: self.email,
                        account_type: self.account_type,
                        password_reset_required: self.password_reset_required,
                        first_name: self.first_name,
                        last_name: self.last_name,
                        last_login_time: self.last_login_time,
                    },
                ),
                Err(e) => final(store).rows@ == old(store).rows@ && (if email_taken(
                    *old(store),
                    self.email@,
                ) {
                    e == Error::DuplicateEntry
                } else {
                    e == Error::StorageFailure && UserStore::max_identity(old(store).rows@)
                        >= u32::MAX
                }),
            },
    {
        let mut i: usize = 0;
        while i < store.len()
            invariant
                i <= store.rows@.len(),
                forall|j: int|
                    0 <= j < i && #[trigger] store.current_at(j) ==> store.rows@[j].payload.email@
                        != self.email@,
            decreases store.rows@.len() - i,
        {
            if crate::text::str_eq(store.row(i).payload.email.as_str(), self.email.as_str()) {
                if store.is_current(i) {
                    return Err(Error::DuplicateEntry);
                }
            }
            i = i + 1;
        }
        let payload = UserData {
            password: self.password.clone(),
            email: self.email.clone(),
            account_type: self.account_type,
            password_reset_required: self.password_reset_required,
            first_name: clone_opt_string(&self.first_name),
            last_name: clone_opt_string(&self.last_name),
            last_login_time: self.last_login_time,
        };
        match store.insert_revision(None, marker, false, payload) {
            Ok(_) => Ok(()),
            Err(e) => Err(e),
        }
    }
}

/// Accumulates the fields of a new account before `build` seals them.
pub struct UserBuilder {
    pub email: String,
    pub password: String,
    pub account_type: AccountType,
    pub password_reset_required: bool,
    pub first_name: Option<String>,
    pub last_name: Option<String>,
    pub last_login_time: Option<u64>,
}

impl UserBuilder {
    /// Sets the first name.
    pub fn with_first_name(self, first_name: Option<String>) -> (r: Self)
        ensures
            r == (UserBuilder { first_name, ..self }),
    {
        UserBuilder { first_name, ..self }
    }

    /// Sets the last name.
    pub fn with_last_name(self, last_name: Option<String>) -> (r: Self)
        ensures
            r == (UserBuilder { last_name, ..self }),
    {
        UserBuilder { last_name, ..self }
    }

    /// Sets the account kind.
    pub fn with_account_type(self, account_type: AccountType) -> (r: Self)
        ensures
            r == (UserBuilder { account_type, ..self }),
    {
        UserBuilder { account_type, ..self }
    }

    /// Seals the builder into the payload `create` inserts.
    pub fn build(&self) -> (r: NewUser)
        ensures
            r.password == self.password,
            r.email == self.email,
            r.account_type == self.account_type,
            r.password_reset_required == self.password_reset_required,
            r.first_name == self.first_name,
            r.last_name == self.last_name,
            r.last_login_time == self.last_login_time,
    {
        NewUser {
            password: self.password.clone(),
            email: self.email.clone(),
            account_type: self.account_type,
            password_reset_required: self.password_reset_required,
            first_name: clone_opt_string(&self.first_name),
            last_name: clone_opt_string(&self.last_name),
            last_login_time: self.last_login_time,
        }
    }
}

/// A sparse record of optional sort keys. Populated keys compose into
/// one total preorder, applied in the fixed priority first name, last
/// name, email, account kind, index — never in the order the caller
/// wrote them; later keys only break ties earlier keys leave.
#[derive(Clone, Copy, Debug)]
pub struct RetrievalSorts {
    pub sort_by_email: Option<SortDirection>,
    pub sort_by_account_type: Option<SortDirection>,
    pub sort_by_first_name: Option<SortDirection>,
    pub sort_by_last_name: Option<SortDirection>,
    pub sort_by_index: Option<SortDirection>,
}

impl RetrievalSorts {
    /// The empty sort record: no key set, no ordering promised.
    pub fn new() -> (r: Self)
        ensures
            r.sort_by_email is None,
            r.sort_by_account_type is None,
            r.sort_by_first_name is None,
            r.sort_by_last_name is None,
            r.sort_by_index is None,
    {
        Self {
            sort_by_email: None,
            sort_by_account_type: None,
            sort_by_first_name: None,
            sort_by_last_name: None,
            sort_by_index: None,
        }
    }
}

/// Applies a sort key's direction to its comparison: an unset key
/// contributes nothing, a descending key reverses the outcome.
pub open spec fn dir_rel(d: Option<SortDirection>, r: Rel) -> Rel {
    match d {
        Option::None => Rel::Equal,
        Option::Some(SortDirection::Ascending) => r,
        Option::Some(SortDirection::Descending) => crate::text::flip(r),
    }
}

/// The composite index key: one logical key spanning program short name,
/// generation year and sequence number, compared together; an account
/// without an index sorts before every account with one.
pub open spec fn igp_rel(a: Option<IndexGenerationProgram>, b: Option<IndexGenerationProgram>) -> Rel {
    match (a, b) {
        (Option::None, Option::None) => Rel::Equal,
        (Option::None, Option::Some(_)) => Rel::Less,
        (Option::Some(_), Option::None) => Rel::Greater,
        (Option::Some(x), Option::Some(y)) => crate::text::chain(
            crate::text::chars_rel(x.program.short_name@, y.program.short_name@),
            crate::text::chain(
                crate::text::u32_rel(x.generation.year, y.generation.year),
                crate::text::u32_rel(x.index.number, y.index.number),
            ),
        ),
    }
}

/// The first-name key of the composed order.
pub open spec fn key_first_name(sorts: RetrievalSorts, a: UserWithIndex, b: UserWithIndex) -> Rel {
    dir_rel(
        sorts.sort_by_first_name,
        crate::text::opt_chars_rel(
            crate::text::opt_view(a.user.first_name),
            crate::text::opt_view(b.user.first_name),
        ),
    )
}

/// The last-name key of the composed order.
pub open spec fn key_last_name(sorts: RetrievalSorts, a: UserWithIndex, b: UserWithIndex) -> Rel {
    dir_rel(
        sorts.sort_by_last_name,
        crate::text::opt_chars_rel(
            crate::text::opt_view(a.user.last_name),
            crate::text::opt_view(b.user.last_name),
        ),
    )
}

/// The email key of the composed order.
pub open spec fn key_email(sorts: RetrievalSorts, a: UserWithIndex, b: UserWithIndex) -> Rel {
    dir_rel(sorts.sort_by_email, crate::text::chars_rel(a.user.email@, b.user.email@))
}

/// The account-kind key of the composed order.
pub open spec fn key_account_type(sorts: RetrievalSorts, a: UserWithIndex, b: UserWithIndex) -> Rel {
    dir_rel(
        sorts.sort_by_account_type,
        crate::text::u32_rel(a.user.account_type.spec_value(), b.user.account_type.spec_value()),
    )
}

/// The composite index key of the composed order.
pub open spec fn key_index(sorts: RetrievalSorts, a: UserWithIndex, b: UserWithIndex) -> Rel {
    dir_rel(sorts.sort_by_index, igp_rel(a.index, b.index))
}

/// The composed multi-key comparison of two listing rows, in the fixed
/// key priority: first name, last name, email, account kind, index.
pub open spec fn row_rel(sorts: RetrievalSorts, a: UserWithIndex, b: UserWithIndex) -> Rel {
    crate::text::chain(
        key_first_name(sorts, a, b),
        crate::text::chain(
            key_last_name(sorts, a, b),
            crate::text::chain(
                key_email(sorts, a, b),
                crate::text::chain(key_account_type(sorts, a, b), key_index(sorts, a, b)),
            ),
        ),
    )
}

/// Row `a` sorts no later than row `b` under the composed order.
pub open spec fn row_le(sorts: RetrievalSorts, a: UserWithIndex, b: UserWithIndex) -> bool {
    row_rel(sorts, a, b) != Rel::Greater
}

/// The rows stand pairwise in the composed order.
pub open spec fn rows_sorted(sorts: RetrievalSorts, s: Seq<UserWithIndex>) -> bool {
    forall|i: int, j: int| 0 <= i < j < s.len() ==> row_le(sorts, s[i], s[j])
}

/// A directed key keeps coherence and the flip symmetry of its base key.
proof fn lemma_dir_props(
    d: Option<SortDirection>,
    pab: Rel,
    pbc: Rel,
    pac: Rel,
    pba: Rel,
    pcb: Rel,
    pca: Rel,
)
    requires
        pab == crate::text::flip(pba),
        pbc == crate::text::flip(pcb),
        pac == crate::text::flip(pca),
        crate::text::rel_coherent(pab, pbc, pac),
        crate::text::rel_coherent(pcb, pba, pca),
    ensures
        dir_rel(d, pab) == crate::text::flip(dir_rel(d, pba)),
        dir_rel(d, pbc) == crate::text::flip(dir_rel(d, pcb)),
        dir_rel(d, pac) == crate::text::flip(dir_rel(d, pca)),
        crate::text::rel_coherent(dir_rel(d, pab), dir_rel(d, pbc), dir_rel(d, pac)),
        crate::text::rel_coherent(dir_rel(d, pcb), dir_rel(d, pba), dir_rel(d, pca)),
{
}

/// The composite index key is coherent and flips with its operands.
proof fn lemma_igp_props(
    a: Option<IndexGenerationProgram>,
    b: Option<IndexGenerationProgram>,
    c: Option<IndexGenerationProgram>,
)
    ensures
        igp_rel(a, b) == crate::text::flip(igp_rel(b, a)),
        igp_rel(b, c) == crate::text::flip(igp_rel(c, b)),
        igp_rel(a, c) == crate::text::flip(igp_rel(c, a)),
        crate::text::rel_coherent(igp_rel(a, b), igp_rel(b, c), igp_rel(a, c)),
        crate::text::rel_coherent(igp_rel(c, b), igp_rel(b, a), igp_rel(c, a)),
{
    let sa = if a is Some {
        a->0.program.short_name@
    } else {
        Seq::empty()
    };
    let sb = if b is Some {
        b->0.program.short_name@
    } else {
        Seq::empty()
    };
    let sc = if c is Some {
        c->0.program.short_name@
    } else {
        Seq::empty()
    };
    crate::text::lemma_chars_rel_props(sa, sb, sc);
    crate::text::lemma_chars_rel_props(sc, sb, sa);
}

/// What a coherent, flip-symmetric key gives on the six ordered pairs of
/// three rows.
spec fn key_props(
    ab: Rel,
    bc: Rel,
    ac: Rel,
    ba: Rel,
    cb: Rel,
    ca: Rel,
) -> bool {
    &&& ab == crate::text::flip(ba)
    &&& bc == crate::text::flip(cb)
    &&& ac == crate::text::flip(ca)
    &&& crate::text::rel_coherent(ab, bc, ac)
    &&& crate::text::rel_coherent(cb, ba, ca)
}

/// The first-name key has the key properties.
proof fn lemma_key_first_name_props(
    sorts: RetrievalSorts,
    a: UserWithIndex,
    b: UserWithIndex,
    c: UserWithIndex,
)
    ensures
        key_props(
            key_first_name(sorts, a, b),
            key_first_name(sorts, b, c),
            key_first_name(sorts, a, c),
            key_first_name(sorts, b, a),
            key_first_name(sorts, c, b),
            key_first_name(sorts, c, a),
        ),
{
    let fa = crate::text::opt_view(a.user.first_name);
    let fb = crate::text::opt_view(b.user.first_name);
    let fc = crate::text::opt_view(c.user.first_name);
    crate::text::lemma_opt_chars_rel_props(fa, fb, fc);
    crate::text::lemma_opt_chars_rel_props(fc, fb, fa);
    lemma_dir_props(
        sorts.sort_by_first_name,
        crate::text::opt_chars_rel(fa, fb),
        crate::text::opt_chars_rel(fb, fc),
        crate::text::opt_chars_rel(fa, fc),
        crate::text::opt_chars_rel(fb, fa),
        crate::text::opt_chars_rel(fc, fb),
        crate::text::opt_chars_rel(fc, fa),
    );
}

/// The last-name key has the key properties.
proof fn lemma_key_last_name_props(
    sorts: RetrievalSorts,
    a: UserWithIndex,
    b: UserWithIndex,
    c: UserWithIndex,
)
    ensures
        key_props(
            key_last_name(sorts, a, b),
            key_last_name(sorts, b, c),
            key_last_name(sorts, a, c),
            key_last_name(sorts, b, a),
            key_last_name(sorts, c, b),
            key_last_name(sorts, c, a),
        ),
{
    let la = crate::text::opt_view(a.user.last_name);
    let lb = crate::text::opt_view(b.user.last_name);
    let lc = crate::text::opt_view(c.user.last_name);
    crate::text::lemma_opt_chars_rel_props(la, lb, lc);
    crate::text::lemma_opt_chars_rel_props(lc, lb, la);
    lemma_dir_props(
        sorts.sort_by_last_name,
        crate::text::opt_chars_rel(la, lb),
        crate::text::opt_chars_rel(lb, lc),
        crate::text::opt_chars_rel(la, lc),
        crate::text::opt_chars_rel(lb, la),
        crate::text::opt_chars_rel(lc, lb),
        crate::text::opt_chars_rel(lc, la),
    );
}

/// The email key has the key properties.
proof fn lemma_key_email_props(
    sorts: RetrievalSorts,
    a: UserWithIndex,
    b: UserWithIndex,
    c: UserWithIndex,
)
    ensures
        key_props(
            key_email(sorts, a, b),
            key_email(sorts, b, c),
            key_email(sorts, a, c),
            key_email(sorts, b, a),
            key_email(sorts, c, b),
            key_email(sorts, c, a),
        ),
{
    crate::text::lemma_chars_rel_props(a.user.email@, b.user.email@, c.user.email@);
    crate::text::lemma_chars_rel_props(c.user.email@, b.user.email@, a.user.email@);
    lemma_dir_props(
        sorts.sort_by_email,
        crate::text::chars_rel(a.user.email@, b.user.email@),
        crate::text::chars_rel(b.user.email@, c.user.email@),
        crate::text::chars_rel(a.user.email@, c.user.email@),
        crate::text::chars_rel(b.user.email@, a.user.email@),
        crate::text::chars_rel(c.user.email@, b.user.email@),
        crate::text::chars_rel(c.user.email@, a.user.email@),
    );
}

/// The account-kind key has the key properties.
proof fn lemma_key_account_type_props(
    sorts: RetrievalSorts,
    a: UserWithIndex,
    b: UserWithIndex,
    c: UserWithIndex,
)
    ensures
        key_props(
            key_account_type(sorts, a, b),
            key_account_type(sorts, b, c),
            key_account_type(sorts, a, c),
            key_account_type(sorts, b, a),
            key_account_type(sorts, c, b),
            key_account_type(sorts, c, a),
        ),
{
    let ta = a.user.account_type.spec_value();
    let tb = b.user.account_type.spec_value();
    let tc = c.user.account_type.spec_value();
    lemma_dir_props(
        sorts.sort_by_account_type,
        crate::text::u32_rel(ta, tb),
        crate::text::u32_rel(tb, tc),
        crate::text::u32_rel(ta, tc),
        crate::text::u32_rel(tb, ta),
        crate::text::u32_rel(tc, tb),
        crate::text::u32_rel(tc, ta),
    );
}

/// The index key has the key properties.
proof fn lemma_key_index_props(
    sorts: RetrievalSorts,
    a: UserWithIndex,
    b: UserWithIndex,
    c: UserWithIndex,
)
    ensures
        key_props(
            key_index(sorts, a, b),
            key_index(sorts, b, c),
            key_index(sorts, a, c),
            key_index(sorts, b, a),
            key_index(sorts, c, b),
            key_index(sorts, c, a),
        ),
{
    lemma_igp_props(a.index, b.index, c.index);
    lemma_dir_props(
        sorts.sort_by_index,
        igp_rel(a.index, b.index),
        igp_rel(b.index, c.index),
        igp_rel(a.index, c.index),
        igp_rel(b.index, a.index),
        igp_rel(c.index, b.index),
        igp_rel(c.index, a.index),
    );
}

/// Two coherent, flip-symmetric keys chain into one such key.
proof fn lemma_key_props_chain(
    x_ab: Rel,
    x_bc: Rel,
    x_ac: Rel,
    x_ba: Rel,
    x_cb: Rel,
    x_ca: Rel,
    y_ab: Rel,
    y_bc: Rel,
    y_ac: Rel,
    y_ba: Rel,
    y_cb: Rel,
    y_ca: Rel,
)
    requires
        key_props(x_ab, x_bc, x_ac, x_ba, x_cb, x_ca),
        key_props(y_ab, y_bc, y_ac, y_ba, y_cb, y_ca),
    ensures
        key_props(
            crate::text::chain(x_ab, y_ab),
            crate::text::chain(x_bc, y_bc),
            crate::text::chain(x_ac, y_ac),
            crate::text::chain(x_ba, y_ba),
            crate::text::chain(x_cb, y_cb),
            crate::text::chain(x_ca, y_ca),
        ),
{
    crate::text::lemma_chain_coherent(x_ab, x_bc, x_ac, y_ab, y_bc, y_ac);
    crate::text::lemma_chain_coherent(x_cb, x_ba, x_ca, y_cb, y_ba, y_ca);
    crate::text::lemma_chain_flip(x_ab, y_ab, x_ba, y_ba);
    crate::text::lemma_chain_flip(x_bc, y_bc, x_cb, y_cb);
    crate::text::lemma_chain_flip(x_ac, y_ac, x_ca, y_ca);
}

/// The composed row comparison is coherent and flips with its operands:
/// the facts every ordering argument below rests on.
#[verifier::rlimit(100)]
#[verifier::spinoff_prover]
pub proof fn lemma_row_rel_props(
    sorts: RetrievalSorts,
    a: UserWithIndex,
    b: UserWithIndex,
    c: UserWithIndex,
)
    ensures
        row_rel(sorts, a, b) == crate::text::flip(row_rel(sorts, b, a)),
        row_rel(sorts, b, c) == crate::text::flip(row_rel(sorts, c, b)),
        row_rel(sorts, a, c) == crate::text::flip(row_rel(sorts, c, a)),
        crate::text::rel_coherent(row_rel(sorts, a, b), row_rel(sorts, b, c), row_rel(sorts, a, c)),
        crate::text::rel_coherent(row_rel(sorts, c, b), row_rel(sorts, b, a), row_rel(sorts, c, a)),
{
    lemma_key_first_name_props(sorts, a, b, c);
    lemma_key_last_name_props(sorts, a, b, c);
    lemma_key_email_props(sorts, a, b, c);
    lemma_key_account_type_props(sorts, a, b, c);
    lemma_key_index_props(sorts, a, b, c);
    lemma_key_props_chain(
        key_account_type(sorts, a, b),
        key_account_type(sorts, b, c),
        key_account_type(sorts, a, c),
        key_account_type(sorts, b, a),
        key_account_type(sorts, c, b),
        key_account_type(sorts, c, a),
        key_index(sorts, a, b),
        key_index(sorts, b, c),
        key_index(sorts, a, c),
        key_index(sorts, b, a),
        key_index(sorts, c, b),
        key_index(sorts, c, a),
    );
    let t45 = |x: UserWithIndex, y: UserWithIndex|
        crate::text::chain(key_account_type(sorts, x, y), key_index(sorts, x, y));
    lemma_key_props_chain(
        key_email(sorts, a, b),
        key_email(sorts, b, c),
        key_email(sorts, a, c),
        key_email(sorts, b, a),
        key_email(sorts, c, b),
        key_email(sorts, c, a),
        t45(a, b),
        t45(b, c),
        t45(a, c),
        t45(b, a),
        t45(c, b),
        t45(c, a),
    );
    let t345 = |x: UserWithIndex, y: UserWithIndex|
        crate::text::chain(key_email(sorts, x, y), t45(x, y));
    lemma_key_props_chain(
        key_last_name(sorts, a, b),
        key_last_name(sorts, b, c),
        key_last_name(sorts, a, c),
        key_last_name(sorts, b, a),
        key_last_name(sorts, c, b),
        key_last_name(sorts, c, a),
        t345(a, b),
        t345(b, c),
        t345(a, c),
        t345(b, a),
        t345(c, b),
        t345(c, a),
    );
    let t2345 = |x: UserWithIndex, y: UserWithIndex|
        crate::text::chain(key_last_name(sorts, x, y), t345(x, y));
    lemma_key_props_chain(
        key_first_name(sorts, a, b),
        key_first_name(sorts, b, c),
        key_first_name(sorts, a, c),
        key_first_name(sorts, b, a),
        key_first_name(sorts, c, b),
        key_first_name(sorts, c, a),
        t2345(a, b),
        t2345(b, c),
        t2345(a, c),
        t2345(b, a),
        t2345(c, b),
        t2345(c, a),
    );
}

/// Inserts a row into a sorted run, scanning from the end past every row
/// that sorts strictly after it, so equal rows keep their earlier places.
pub open spec fn insert_row(sorts: RetrievalSorts, t: Seq<UserWithIndex>, x: UserWithIndex) -> Seq<
    UserWithIndex,
>
    decreases t.len(),
{
    if t.len() == 0 {
        seq![x]
    } else if row_rel(sorts, t.last(), x) == Rel::Greater {
        insert_row(sorts, t.drop_last(), x).push(t.last())
    } else {
        t.push(x)
    }
}

/// The stable insertion sort of the rows under the composed order.
pub open spec fn sort_rows(sorts: RetrievalSorts, s: Seq<UserWithIndex>) -> Seq<UserWithIndex>
    decreases s.len(),
{
    if s.len() == 0 {
        Seq::empty()
    } else {
        insert_row(sorts, sort_rows(sorts, s.drop_last()), s.last())
    }
}

/// Inserting into a sorted run keeps it sorted and adds exactly the row.
pub proof fn lemma_insert_row_ensures(sorts: RetrievalSorts, t: Seq<UserWithIndex>, x: UserWithIndex)
    requires
        rows_sorted(sorts, t),
    ensures
        rows_sorted(sorts, insert_row(sorts, t, x)),
        insert_row(sorts, t, x).to_multiset() == t.to_multiset().insert(x),
        insert_row(sorts, t, x).len() == t.len() + 1,
        forall|k: int|
            0 <= k < insert_row(sorts, t, x).len() ==> (#[trigger] insert_row(sorts, t, x)[k] == x
                || t.contains(insert_row(sorts, t, x)[k])),
    decreases t.len(),
{
    broadcast use vstd::seq_lib::group_to_multiset_ensures;

    let res = insert_row(sorts, t, x);
    if t.len() == 0 {
        assert(res =~= Seq::<UserWithIndex>::empty().push(x));
        assert(res.to_multiset() =~= t.to_multiset().insert(x));
    } else if row_rel(sorts, t.last(), x) == Rel::Greater {
        let t0 = t.drop_last();
        let l = t.last();
        assert(rows_sorted(sorts, t0));
        lemma_insert_row_ensures(sorts, t0, x);
        let rec = insert_row(sorts, t0, x);
        assert(res == rec.push(l));
        assert forall|i: int, j: int| 0 <= i < j < res.len() implies row_le(
            sorts,
            res[i],
            res[j],
        ) by {
            if j == res.len() - 1 {
                if res[i] == x {
                    lemma_row_rel_props(sorts, x, l, l);
                } else {
                    let m = choose|m: int| 0 <= m < t0.len() && t0[m] == res[i];
                    assert(t[m] == res[i]);
                    assert(row_le(sorts, t[m], t[t.len() - 1]));
                }
            }
        }
        assert(t =~= t0.push(l));
        assert(t.to_multiset() == t0.to_multiset().insert(l));
        assert(res.to_multiset() =~= t.to_multiset().insert(x));
        assert forall|k: int| 0 <= k < res.len() implies (#[trigger] res[k] == x || t.contains(
            res[k],
        )) by {
            if k < rec.len() {
                if rec[k] != x {
                    let m = choose|m: int| 0 <= m < t0.len() && t0[m] == rec[k];
                    assert(t[m] == res[k]);
                }
            } else {
                assert(res[k] == t[t.len() - 1]);
            }
        }
    } else {
        assert(res == t.push(x));
        let l = t.last();
        assert forall|i: int, j: int| 0 <= i < j < res.len() implies row_le(
            sorts,
            res[i],
            res[j],
        ) by {
            if j == res.len() - 1 {
                if i < t.len() - 1 {
                    assert(row_le(sorts, t[i], t[t.len() - 1]));
                    lemma_row_rel_props(sorts, t[i], l, x);
                }
            }
        }
        assert(res.to_multiset() =~= t.to_multiset().insert(x));
        assert forall|k: int| 0 <= k < res.len() implies (#[trigger] res[k] == x || t.contains(
            res[k],
        )) by {
            if k < t.len() {
                assert(t[k] == res[k]);
            }
        }
    }
}

/// The sort returns the same rows, pairwise in the composed order.
pub proof fn lemma_sort_rows_ensures(sorts: RetrievalSorts, s: Seq<UserWithIndex>)
    ensures
        rows_sorted(sorts, sort_rows(sorts, s)),
        sort_rows(sorts, s).to_multiset() == s.to_multiset(),
        sort_rows(sorts, s).len() == s.len(),
    decreases s.len(),
{
    broadcast use vstd::seq_lib::group_to_multiset_ensures;

    if s.len() > 0 {
        let s0 = s.drop_last();
        lemma_sort_rows_ensures(sorts, s0);
        lemma_insert_row_ensures(sorts, sort_rows(sorts, s0), s.last());
        assert(s =~= s0.push(s.last()));
        assert(s.to_multiset() == s0.to_multiset().insert(s.last()));
    }
}

/// Sort priority: with first name ascending and last name descending the
/// only populated keys, sorted rows group by first name ascending, and
/// within one first name order by last name descending — first name
/// decides first, not the reverse.
pub proof fn lemma_sort_priority(
    sorts: RetrievalSorts,
    s: Seq<UserWithIndex>,
    i: int,
    j: int,
)
    requires
        sorts.sort_by_first_name == Some(SortDirection::Ascending),
        sorts.sort_by_last_name == Some(SortDirection::Descending),
        sorts.sort_by_email is None,
        sorts.sort_by_account_type is None,
        sorts.sort_by_index is None,
        rows_sorted(sorts, s),
        0 <= i < j < s.len(),
    ensures
        crate::text::opt_chars_rel(
            crate::text::opt_view(s[i].user.first_name),
            crate::text::opt_view(s[j].user.first_name),
        ) != Rel::Greater,
        crate::text::opt_chars_rel(
            crate::text::opt_view(s[i].user.first_name),
            crate::text::opt_view(s[j].user.first_name),
        ) == Rel::Equal ==> crate::text::opt_chars_rel(
            crate::text::opt_view(s[i].user.last_name),
            crate::text::opt_view(s[j].user.last_name),
        ) != Rel::Less,
{
    assert(row_le(sorts, s[i], s[j]));
}

/// Applies a key's direction to a computed comparison.
fn dir_apply(d: &Option<SortDirection>, r: Rel) -> (res: Rel)
    ensures
        res == dir_rel(*d, r),
{
    match d {
        Option::None => Rel::Equal,
        Option::Some(SortDirection::Ascending) => r,
        Option::Some(SortDirection::Descending) => match r {
            Rel::Less => Rel::Greater,
            Rel::Equal => Rel::Equal,
            Rel::Greater => Rel::Less,
        },
    }
}

/// Chains two computed comparisons lexicographically.
fn rel_chain(first: Rel, then: Rel) -> (r: Rel)
    ensures
        r == crate::text::chain(first, then),
{
    match first {
        Rel::Equal => then,
        _ => first,
    }
}

/// Compares the composite index key of two rows.
fn igp_cmp(a: &Option<IndexGenerationProgram>, b: &Option<IndexGenerationProgram>) -> (r: Rel)
    ensures
        r == igp_rel(*a, *b),
{
    match (a, b) {
        (Option::None, Option::None) => Rel::Equal,
        (Option::None, Option::Some(_)) => Rel::Less,
        (Option::Some(_), Option::None) => Rel::Greater,
        (Option::Some(x), Option::Some(y)) => {
            let c1 = crate::text::str_cmp(x.program.short_name.as_str(), y.program.short_name.as_str());
            let c2 = crate::text::u32_cmp(x.generation.year, y.generation.year);
            let c3 = crate::text::u32_cmp(x.index.number, y.index.number);
            rel_chain(c1, rel_chain(c2, c3))
        },
    }
}

/// Compares two rows under the composed multi-key order.
fn row_cmp(sorts: &RetrievalSorts, a: &UserWithIndex, b: &UserWithIndex) -> (r: Rel)
    ensures
        r == row_rel(*sorts, *a, *b),
{
    let k1 = dir_apply(
        &sorts.sort_by_first_name,
        crate::text::opt_str_cmp(&a.user.first_name, &b.user.first_name),
    );
    let k2 = dir_apply(
        &sorts.sort_by_last_name,
        crate::text::opt_str_cmp(&a.user.last_name, &b.user.last_name),
    );
    let k3 = dir_apply(
        &sorts.sort_by_email,
        crate::text::str_cmp(a.user.email.as_str(), b.user.email.as_str()),
    );
    let k4 = dir_apply(
        &sorts.sort_by_account_type,
        crate::text::u32_cmp(a.user.account_type.value(), b.user.account_type.value()),
    );
    let k5 = dir_apply(&sorts.sort_by_index, igp_cmp(&a.index, &b.index));
    rel_chain(k1, rel_chain(k2, rel_chain(k3, rel_chain(k4, k5))))
}

/// The retrieval options one listing call carries: filters, sorts, and
/// the page request.
#[derive(Debug)]
pub struct UsersRetrievalOptions {
    pub filters: RetrievalFilters,
    pub sorts: RetrievalSorts,
    pub page: u32,
    pub max_per_page: u32,
}

impl UsersRetrievalOptions {
    /// Options with no filter and no sort, for the given page request.
    pub fn new(page: u32, max_per_page: u32) -> (r: Self)
        ensures
            filters_absent(r.filters),
            r.sorts.sort_by_email is None,
            r.sorts.sort_by_account_type is None,
            r.sorts.sort_by_first_name is None,
            r.sorts.sort_by_last_name is None,
            r.sorts.sort_by_index is None,
            r.page == page,
            r.max_per_page == max_per_page,
    {
        Self { filters: RetrievalFilters::new(), sorts: RetrievalSorts::new(), page, max_per_page }
    }
}

/// Index row `i` joins to account `uid`: it is current, owned by the
/// account, and its generation and program are both live.
pub open spec fn index_links(
    indices: IndexStore,
    generations: GenerationStore,
    programs: ProgramStore,
    i: int,
    uid: u32,
) -> bool {
    &&& indices.current_at(i)
    &&& indices.rows@[i].payload.student == uid
    &&& generations.has_current(indices.rows@[i].payload.generation)
    &&& programs.has_current(indices.rows@[i].payload.program)
}

/// The first position at or after `n` whose index row joins to `uid`,
/// or the table length when none does.
pub open spec fn first_link_from(
    indices: IndexStore,
    generations: GenerationStore,
    programs: ProgramStore,
    uid: u32,
    n: int,
) -> int
    decreases indices.rows@.len() - n when 0 <= n <= indices.rows@.len()
{
    if n >= indices.rows@.len() {
        n
    } else if index_links(indices, generations, programs, n, uid) {
        n
    } else {
        first_link_from(indices, generations, programs, uid, n + 1)
    }
}

/// What the left join contributes for account `uid`: the first joining
/// index row with its generation and program, or an explicit absence.
pub open spec fn joined_index(
    indices: IndexStore,
    generations: GenerationStore,
    programs: ProgramStore,
    uid: u32,
) -> Option<IndexGenerationProgram> {
    let i = first_link_from(indices, generations, programs, uid, 0);
    if i < indices.rows@.len() {
        Option::Some(
            IndexGenerationProgram {
                index: index_at(indices, i),
                generation: generation_at(
                    generations,
                    generations.current_index(indices.rows@[i].payload.generation),
                ),
                program: program_at(
                    programs,
                    programs.current_index(indices.rows@[i].payload.program),
                ),
            },
        )
    } else {
        Option::None
    }
}

/// The listing row account position `i` materializes to.
pub open spec fn joined_row_at(
    users: UserStore,
    indices: IndexStore,
    generations: GenerationStore,
    programs: ProgramStore,
    i: int,
) -> UserWithIndex {
    UserWithIndex {
        user: user_at(users, i),
        index: joined_index(indices, generations, programs, users.rows@[i].identity),
    }
}

/// The base listing: every current account in insertion order, joined to
/// its index record.
pub open spec fn users_join_view(
    users: UserStore,
    indices: IndexStore,
    generations: GenerationStore,
    programs: ProgramStore,
) -> Seq<UserWithIndex> {
    users.current_positions().map_values(
        |u: usize| joined_row_at(users, indices, generations, programs, u as int),
    )
}

/// Materializes the join contribution for one account.
fn join_for(
    indices: &IndexStore,
    generations: &GenerationStore,
    programs: &ProgramStore,
    uid: u32,
) -> (r: Option<IndexGenerationProgram>)
    ensures
        r == joined_index(*indices, *generations, *programs, uid),
{
    let mut i: usize = 0;
    while i < indices.len()
        invariant
            i <= indices.rows@.len(),
            first_link_from(*indices, *generations, *programs, uid, 0) == first_link_from(
                *indices,
                *generations,
                *programs,
                uid,
                i as int,
            ),
        decreases indices.rows@.len() - i,
    {
        let row = indices.row(i);
        if row.payload.student == uid {
            if indices.is_current(i) {
                if let Some(gi) = generations.current_index_for(row.payload.generation) {
                    if let Some(pi) = programs.current_index_for(row.payload.program) {
                        proof {
                            generations.lemma_current_index(row.payload.generation, gi as int);
                            programs.lemma_current_index(row.payload.program, pi as int);
                            assert(index_links(*indices, *generations, *programs, i as int, uid));
                            assert(first_link_from(*indices, *generations, *programs, uid, i as int)
                                == i as int);
                        }
                        let grow = generations.row(gi);
                        let prow = programs.row(pi);
                        return Some(
                            IndexGenerationProgram {
                                index: Index {
                                    id: row.identity,
                                    program: row.payload.program,
                                    generation: row.payload.generation,
                                    number: row.payload.number,
                                    student: row.payload.student,
                                },
                                generation: Generation { id: grow.identity, year: grow.payload.year },
                                program: Program {
                                    id: prow.identity,
                                    short_name: prow.payload.short_name.clone(),
                                    full_name: prow.payload.full_name.clone(),
                                },
                            },
                        );
                    }
                }
            }
        }
        proof {
            assert(!index_links(*indices, *generations, *programs, i as int, uid));
            assert(first_link_from(*indices, *generations, *programs, uid, i as int)
                == first_link_from(*indices, *generations, *programs, uid, i + 1));
        }
        i = i + 1;
    }
    None
}

/// The namespace of the account listing pipeline.
pub struct Users(pub Vec<User>);

impl Users {
    /// Builds the base listing: the current view of accounts left-joined
    /// to index, generation and program, in insertion order.
    pub fn query_new(
        users: &UserStore,
        indices: &IndexStore,
        generations: &GenerationStore,
        programs: &ProgramStore,
    ) -> (r: Vec<UserWithIndex>)
        ensures
            r@ == users_join_view(*users, *indices, *generations, *programs),
    {
        let positions = users.current_indices();
        let mut out: Vec<UserWithIndex> = Vec::new();
        let mut k: usize = 0;
        while k < positions.len()
            invariant
                k <= positions@.len(),
                positions@ == users.current_positions(),
                forall|m: int| 0 <= m < positions@.len() ==> users.current_at(positions@[m] as int),
                out@.len() == k,
                forall|m: int|
                    0 <= m < k ==> out@[m] == joined_row_at(
                        *users,
                        *indices,
                        *generations,
                        *programs,
                        #[trigger] positions@[m] as int,
                    ),
            decreases positions@.len() - k,
        {
            let i = positions[k];
            let user = materialize_user(users, i);
            let index = join_for(indices, generations, programs, user.id);
            out.push(UserWithIndex { user, index });
            k = k + 1;
        }
        assert(out@ =~= users_join_view(*users, *indices, *generations, *programs));
        out
    }

    /// ANDs every populated filter onto the rows: one pass, whatever the
    /// subset of populated criteria.
    pub fn query_apply_filters(rows: Vec<UserWithIndex>, filters: &RetrievalFilters) -> (r: Vec<
        UserWithIndex,
    >)
        ensures
            r@ == filter_rows(rows@, *filters),
    {
        let ghost orig = rows@;
        let total = rows.len();
        let mut rows = rows;
        let mut out: Vec<UserWithIndex> = Vec::new();
        let mut i: usize = 0;
        proof {
            assert(orig.subrange(0, 0).filter(
                |row: UserWithIndex| row_matches(*filters, row),
            ) =~= Seq::<UserWithIndex>::empty()) by {
                reveal(Seq::filter);
            }
        }
        while rows.len() > 0
            invariant
                orig.len() == total,
                i <= total,
                rows@ =~= orig.subrange(i as int, orig.len() as int),
                out@ == orig.subrange(0, i as int).filter(
                    |row: UserWithIndex| row_matches(*filters, row),
                ),
            decreases rows@.len(),
        {
            let x = rows.remove(0);
            assert(x == orig[i as int]);
            let keep = matches_row(filters, &x);
            proof {
                lemma_filter_push(
                    orig.subrange(0, i as int),
                    |row: UserWithIndex| row_matches(*filters, row),
                    x,
                );
                assert(orig.subrange(0, i as int).push(x) =~= orig.subrange(0, i + 1));
            }
            if keep {
                out.push(x);
            }
            i = i + 1;
            proof {
                assert(rows@ =~= orig.subrange(i as int, orig.len() as int));
            }
        }
        proof {
            assert(orig.subrange(0, orig.len() as int) =~= orig);
        }
        out
    }

    /// Orders the rows by the populated sort keys in the fixed priority;
    /// with no key populated the order of the rows is kept as given.
    pub fn query_apply_sorts(rows: Vec<UserWithIndex>, sorts: &RetrievalSorts) -> (r: Vec<
        UserWithIndex,
    >)
        ensures
            r@ == sort_rows(*sorts, rows@),
    {
        let ghost orig = rows@;
        let mut v = rows;
        if v.len() <= 1 {
            proof {
                if orig.len() == 1 {
                    assert(orig.drop_last() =~= Seq::<UserWithIndex>::empty());
                    assert(sort_rows(*sorts, orig.drop_last()) =~= Seq::<UserWithIndex>::empty());
                    assert(sort_rows(*sorts, orig) == insert_row(
                        *sorts,
                        sort_rows(*sorts, orig.drop_last()),
                        orig.last(),
                    ));
                    assert(insert_row(*sorts, Seq::<UserWithIndex>::empty(), orig.last())
                        =~= seq![orig.last()]);
                    assert(sort_rows(*sorts, orig) =~= orig);
                } else {
                    assert(sort_rows(*sorts, orig) =~= orig);
                }
            }
            return v;
        }
        let mut i: usize = 1;
        proof {
            assert(orig.subrange(0, 1).drop_last() =~= Seq::<UserWithIndex>::empty());
            assert(sort_rows(*sorts, orig.subrange(0, 1).drop_last()) =~= Seq::<
                UserWithIndex,
            >::empty());
            assert(sort_rows(*sorts, orig.subrange(0, 1)) == insert_row(
                *sorts,
                sort_rows(*sorts, orig.subrange(0, 1).drop_last()),
                orig.subrange(0, 1).last(),
            ));
            assert(insert_row(*sorts, Seq::<UserWithIndex>::empty(), orig[0]) =~= seq![orig[0]]);
            assert(v@.subrange(0, 1) =~= sort_rows(*sorts, orig.subrange(0, 1)));
            assert(v@.subrange(1, v@.len() as int) =~= orig.subrange(1, orig.len() as int));
        }
        while i < v.len()
            invariant
                1 <= i <= v@.len(),
                v@.len() == orig.len(),
                v@.subrange(0, i as int) == sort_rows(*sorts, orig.subrange(0, i as int)),
                v@.subrange(i as int, v@.len() as int) == orig.subrange(
                    i as int,
                    orig.len() as int,
                ),
            decreases v@.len() - i,
        {
            let ghost t = sort_rows(*sorts, orig.subrange(0, i as int));
            let ghost pre = v@;
            proof {
                assert(t.len() == i) by {
                    lemma_sort_rows_ensures(*sorts, orig.subrange(0, i as int));
                }
                assert forall|k: int| 0 <= k < i implies pre[k] == t[k] by {
                    assert(pre.subrange(0, i as int)[k] == t[k]);
                }
                assert forall|k: int| i <= k < orig.len() implies pre[k] == orig[k] by {
                    assert(pre.subrange(i as int, pre.len() as int)[k - i] == orig.subrange(
                        i as int,
                        orig.len() as int,
                    )[k - i]);
                }
            }
            let x = v.remove(i);
            proof {
                assert(x == orig[i as int]);
                assert forall|k: int| 0 <= k < i implies v@[k] == t[k] by {
                    assert(v@[k] == pre[k]);
                }
                assert forall|k: int| i <= k < v@.len() implies v@[k] == orig[k + 1] by {
                    assert(v@[k] == pre[k + 1]);
                }
            }
            let mut j: usize = i;
            proof {
                assert(t.subrange(0, i as int) =~= t);
                assert(t.subrange(i as int, i as int) =~= Seq::<UserWithIndex>::empty());
                assert(insert_row(*sorts, t, x) =~= insert_row(*sorts, t.subrange(0, i as int), x)
                    + t.subrange(i as int, i as int));
            }
            loop
                invariant
                    j <= i,
                    i < orig.len(),
                    v@.len() == orig.len() - 1,
                    t.len() == i,
                    t == sort_rows(*sorts, orig.subrange(0, i as int)),
                    x == orig[i as int],
                    forall|k: int| 0 <= k < i ==> v@[k] == t[k],
                    forall|k: int| i <= k < v@.len() ==> v@[k] == orig[k + 1],
                    insert_row(*sorts, t, x) == insert_row(*sorts, t.subrange(0, j as int), x)
                        + t.subrange(j as int, i as int),
                ensures
                    j <= i,
                    i < orig.len(),
                    insert_row(*sorts, t, x) == t.subrange(0, j as int).push(x) + t.subrange(
                        j as int,
                        i as int,
                    ),
                decreases j,
            {
                if j == 0 {
                    proof {
                        assert(t.subrange(0, 0) =~= Seq::<UserWithIndex>::empty());
                        assert(insert_row(*sorts, t.subrange(0, 0), x) =~= t.subrange(0, 0).push(
                            x,
                        ));
                    }
                    break;
                }
                let c = row_cmp(sorts, &v[j - 1], &x);
                proof {
                    assert(v@[j - 1] == t[j - 1]);
                }
                if !(c == Rel::Greater) {
                    proof {
                        let tj = t.subrange(0, j as int);
                        assert(tj.last() == t[j - 1]);
                        assert(insert_row(*sorts, tj, x) == tj.push(x));
                    }
                    break;
                }
                proof {
                    let tj = t.subrange(0, j as int);
                    assert(tj.last() == t[j - 1]);
                    assert(tj.drop_last() =~= t.subrange(0, j - 1));
                    assert(insert_row(*sorts, tj, x) == insert_row(
                        *sorts,
                        t.subrange(0, j - 1),
                        x,
                    ).push(t[j - 1]));
                    assert(insert_row(*sorts, t.subrange(0, j - 1), x).push(t[j - 1]) + t.subrange(
                        j as int,
                        i as int,
                    ) =~= insert_row(*sorts, t.subrange(0, j - 1), x) + t.subrange(
                        j - 1,
                        i as int,
                    ));
                }
                j = j - 1;
            }
            let ghost before_insert = v@;
            v.insert(j, x);
            proof {
                let ins = insert_row(*sorts, t, x);
                assert(ins == t.subrange(0, j as int).push(x) + t.subrange(j as int, i as int));
                assert(ins.len() == i + 1) by {
                    lemma_sort_rows_ensures(*sorts, orig.subrange(0, i as int));
                    lemma_insert_row_ensures(*sorts, t, x);
                }
                assert forall|k: int| 0 <= k < i + 1 implies v@[k] == ins[k] by {
                    if k < j {
                        assert(v@[k] == before_insert[k]);
                        assert(ins[k] == t.subrange(0, j as int).push(x)[k]);
                    } else if k == j {
                        assert(ins[k] == t.subrange(0, j as int).push(x)[k]);
                    } else {
                        assert(v@[k] == before_insert[k - 1]);
                        assert(ins[k] == t.subrange(j as int, i as int)[k - j - 1]);
                    }
                }
                assert(v@.subrange(0, i + 1) =~= ins);
                assert(orig.subrange(0, i + 1).drop_last() =~= orig.subrange(0, i as int));
                assert(orig.subrange(0, i + 1).last() == orig[i as int]);
                assert(sort_rows(*sorts, orig.subrange(0, i + 1)) == insert_row(*sorts, t, x));
                assert forall|k: int| i + 1 <= k < v@.len() implies v@[k] == orig[k] by {
                    assert(v@[k] == before_insert[k - 1]);
                }
                assert(v@.subrange(i + 1, v@.len() as int) =~= orig.subrange(
                    i + 1,
                    orig.len() as int,
                ));
            }
            i = i + 1;
        }
        proof {
            assert(orig.subrange(0, orig.len() as int) =~= orig);
            assert(v@.subrange(0, v@.len() as int) =~= v@);
        }
        v
    }

    /// Keeps exactly the requested page of the ordered rows.
    pub fn query_apply_pagination(rows: Vec<UserWithIndex>, max_per_page: u32, page: u32) -> (r:
        Vec<UserWithIndex>)
        ensures
            r@ == crate::pagination::page_slice(rows@, max_per_page, page),
    {
        crate::pagination::apply_pagination(rows, max_per_page, page)
    }
}

/// One page of the account listing.
pub struct UsersWithIndex(pub Vec<UserWithIndex>);

impl UsersWithIndex {
    /// Runs the full pipeline: the current view joined to index records,
    /// filtered by the populated criteria, ordered by the populated sort
    /// keys, and cut to the requested page.
    pub fn get(
        users: &UserStore,
        indices: &IndexStore,
        generations: &GenerationStore,
        programs: &ProgramStore,
        options: UsersRetrievalOptions,
    ) -> (r: Result<UsersWithIndex, Error>)
        ensures
            r matches Ok(u) && u.0@ == crate::pagination::page_slice(
                sort_rows(
                    options.sorts,
                    filter_rows(
                        users_join_view(*users, *indices, *generations, *programs),
                        options.filters,
                    ),
                ),
                options.max_per_page,
                options.page,
            ),
    {
        let query = Users::query_new(users, indices, generations, programs);
        let query = Users::query_apply_filters(query, &options.filters);
        let query = Users::query_apply_sorts(query, &options.sorts);
        let query = Users::query_apply_pagination(query, options.max_per_page, options.page);
        Ok(UsersWithIndex(query))
    }

    /// Counts the rows the filters leave and turns the count into a page
    /// count; `InvalidPageSize` exactly when the page size is zero.
    pub fn get_number_of_pages(
        users: &UserStore,
        indices: &IndexStore,
        generations: &GenerationStore,
        programs: &ProgramStore,
        filters: RetrievalFilters,
        max_per_page: u32,
    ) -> (r: Result<u64, Error>)
        requires
            users.rows@.len() < u64::MAX,
        ensures
            max_per_page == 0 ==> r == Result::<u64, Error>::Err(Error::InvalidPageSize),
            max_per_page > 0 ==> r == Result::<u64, Error>::Ok(
                (filter_rows(
                    users_join_view(*users, *indices, *generations, *programs),
                    filters,
                ).len() as int / max_per_page as int + 1) as u64,
            ),
    {
        let query = Users::query_new(users, indices, generations, programs);
        let query = Users::query_apply_filters(query, &filters);
        proof {
            broadcast use vstd::prelude::Seq::lemma_filter_len;

            let view = users_join_view(*users, *indices, *generations, *programs);
            assert(view.len() == users.current_positions().len());
            assert(users.current_positions().len() <= users.rows@.len());
            assert(query@.len() <= view.len());
        }
        let count = query.len() as u64;
        crate::pagination::number_of_pages(count, max_per_page)
    }
}

/// A listing row with whether the account is enrolled in one course.
#[derive(Debug)]
pub struct UserWithIndexAndEnrolment {
    pub user: User,
    pub index: Option<IndexGenerationProgram>,
    pub is_enrolled: bool,
}

/// The enrolment-extended row of one listing row.
pub open spec fn enrolment_extended(
    enrolments: crate::course::EnrolmentStore,
    course: u32,
    row: UserWithIndex,
) -> UserWithIndexAndEnrolment {
    UserWithIndexAndEnrolment {
        user: row.user,
        index: row.index,
        is_enrolled: crate::course::enrolment_current(enrolments, course, row.user.id),
    }
}

/// One page of the account listing, each row outer-joined to the
/// account's enrolment in one course.
pub struct UsersWithIndexAndEnrolment(pub Vec<UserWithIndexAndEnrolment>);

impl UsersWithIndexAndEnrolment {
    /// The paged listing with, per row, whether the account is enrolled in
    /// `course`.
    pub fn get(
        users: &UserStore,
        indices: &IndexStore,
        generations: &GenerationStore,
        programs: &ProgramStore,
        enrolments: &crate::course::EnrolmentStore,
        options: UsersRetrievalOptions,
        course: u32,
    ) -> (r: Result<UsersWithIndexAndEnrolment, Error>)
        ensures
            r matches Ok(u) && u.0@ == crate::pagination::page_slice(
                sort_rows(
                    options.sorts,
                    filter_rows(
                        users_join_view(*users, *indices, *generations, *programs),
                        options.filters,
                    ),
                ),
                options.max_per_page,
                options.page,
            ).map_values((|row: UserWithIndex| enrolment_extended(*enrolments, course, row))),
    {
        let base = match UsersWithIndex::get(users, indices, generations, programs, options) {
            Ok(b) => b,
            Err(e) => {
                return Err(e);
            },
        };
        let ghost view = base.0@;
        let total = base.0.len();
        let mut rows = base.0;
        let mut out: Vec<UserWithIndexAndEnrolment> = Vec::new();
        let mut i: usize = 0;
        while rows.len() > 0
            invariant
                view.len() == total,
                i <= total,
                rows@ =~= view.subrange(i as int, view.len() as int),
                out@.len() == i,
                forall|m: int|
                    0 <= m < i ==> out@[m] == enrolment_extended(
                        *enrolments,
                        course,
                        #[trigger] view[m],
                    ),
            decreases rows@.len(),
        {
            let x = rows.remove(0);
            assert(x == view[i as int]);
            let is_enrolled = match crate::course::Enrolment::get(enrolments, course, x.user.id) {
                Ok(_) => true,
                Err(_) => false,
            };
            out.push(UserWithIndexAndEnrolment { user: x.user, index: x.index, is_enrolled });
            i = i + 1;
            proof {
                assert(rows@ =~= view.subrange(i as int, view.len() as int));
            }
        }
        proof {
            assert(out@ =~= view.map_values(
                (|row: UserWithIndex| enrolment_extended(*enrolments, course, row)),
            ));
        }
        Ok(UsersWithIndexAndEnrolment(out))
    }
}

/// A listing row with the account's points on one point assignment.
#[derive(Debug)]
pub struct UserWithIndexAndPointProgress {
    pub user: User,
    pub index: Option<IndexGenerationProgram>,
    pub points: Option<u32>,
}

/// The points-extended row of one listing row.
pub open spec fn point_progress_extended(
    ppstore: crate::assignment::PointProgressStore,
    assignment: u32,
    row: UserWithIndex,
) -> UserWithIndexAndPointProgress {
    UserWithIndexAndPointProgress {
        user: row.user,
        index: row.index,
        points: crate::assignment::point_progress_of(ppstore, assignment, row.user.id),
    }
}

/// One page of the account listing, each row outer-joined to the
/// account's points on one point assignment.
pub struct UsersWithIndexAndPointProgress(pub Vec<UserWithIndexAndPointProgress>);

impl UsersWithIndexAndPointProgress {
    /// The paged listing with, per row, the account's points on
    /// `point_assignment`, absent when the account has none yet.
    pub fn get(
        users: &UserStore,
        indices: &IndexStore,
        generations: &GenerationStore,
        programs: &ProgramStore,
        ppstore: &crate::assignment::PointProgressStore,
        options: UsersRetrievalOptions,
        point_assignment: u32,
    ) -> (r: Result<UsersWithIndexAndPointProgress, Error>)
        ensures
            r matches Ok(u) && u.0@ == crate::pagination::page_slice(
                sort_rows(
                    options.sorts,
                    filter_rows(
                        users_join_view(*users, *indices, *generations, *programs),
                        options.filters,
                    ),
                ),
                options.max_per_page,
                options.page,
            ).map_values(
                (|row: UserWithIndex| point_progress_extended(*ppstore, point_assignment, row)),
            ),
    {
        let base = match UsersWithIndex::get(users, indices, generations, programs, options) {
            Ok(b) => b,
            Err(e) => {
                return Err(e);
            },
        };
        let ghost view = base.0@;
        let total = base.0.len();
        let mut rows = base.0;
        let mut out: Vec<UserWithIndexAndPointProgress> = Vec::new();
        let mut i: usize = 0;
        while rows.len() > 0
            invariant
                view.len() == total,
                i <= total,
                rows@ =~= view.subrange(i as int, view.len() as int),
                out@.len() == i,
                forall|m: int|
                    0 <= m < i ==> out@[m] == point_progress_extended(
                        *ppstore,
                        point_assignment,
                        #[trigger] view[m],
                    ),
            decreases rows@.len(),
        {
            let x = rows.remove(0);
            assert(x == view[i as int]);
            let points = crate::assignment::point_progress_for(
                ppstore,
                point_assignment,
                x.user.id,
            );
            out.push(UserWithIndexAndPointProgress { user: x.user, index: x.index, points });
            i = i + 1;
            proof {
                assert(rows@ =~= view.subrange(i as int, view.len() as int));
            }
        }
        proof {
            assert(out@ =~= view.map_values(
                (|row: UserWithIndex| point_progress_extended(*ppstore, point_assignment, row)),
            ));
        }
        Ok(UsersWithIndexAndPointProgress(out))
    }
}

/// A listing row with the account's grade on one grade assignment, the
/// grade carried as its major and minor parts.
#[derive(Debug)]
pub struct UserWithIndexAndGradeProgress {
    pub user: User,
    pub index: Option<IndexGenerationProgram>,
    pub grade: Option<crate::assignment::GradeAssignmentGrade>,
}

/// The grade-extended row of one listing row.
pub open spec fn grade_progress_extended(
    gpstore: crate::assignment::GradeProgressStore,
    assignment: u32,
    row: UserWithIndex,
) -> UserWithIndexAndGradeProgress {
    UserWithIndexAndGradeProgress {
        user: row.user,
        index: row.index,
        grade: crate::assignment::grade_progress_of(gpstore, assignment, row.user.id),
    }
}

/// One page of the account listing, each row outer-joined to the
/// account's grade on one grade assignment.
pub struct UsersWithIndexAndGradeProgress(pub Vec<UserWithIndexAndGradeProgress>);

impl UsersWithIndexAndGradeProgress {
    /// The paged listing with, per row, the account's grade on
    /// `grade_assignment`, absent when the account has none yet.
    pub fn get(
        users: &UserStore,
        indices: &IndexStore,
        generations: &GenerationStore,
        programs: &ProgramStore,
        gpstore: &crate::assignment::GradeProgressStore,
        options: UsersRetrievalOptions,
        grade_assignment: u32,
    ) -> (r: Result<UsersWithIndexAndGradeProgress, Error>)
        ensures
            r matches Ok(u) && u.0@ == crate::pagination::page_slice(
                sort_rows(
                    options.sorts,
                    filter_rows(
                        users_join_view(*users, *indices, *generations, *programs),
                        options.filters,
                    ),
                ),
                options.max_per_page,
                options.page,
            ).map_values(
                (|row: UserWithIndex| grade_progress_extended(*gpstore, grade_assignment, row)),
            ),
    {
        let base = match UsersWithIndex::get(users, indices, generations, programs, options) {
            Ok(b) => b,
            Err(e) => {
                return Err(e);
            },
        };
        let ghost view = base.0@;
        let total = base.0.len();
        let mut rows = base.0;
        let mut out: Vec<UserWithIndexAndGradeProgress> = Vec::new();
        let mut i: usize = 0;
        while rows.len() > 0
            invariant
                view.len() == total,
                i <= total,
                rows@ =~= view.subrange(i as int, view.len() as int),
                out@.len() == i,
                forall|m: int|
                    0 <= m < i ==> out@[m] == grade_progress_extended(
                        *gpstore,
                        grade_assignment,
                        #[trigger] view[m],
                    ),
            decreases rows@.len(),
        {
            let x = rows.remove(0);
            assert(x == view[i as int]);
            let grade = crate::assignment::grade_progress_for(
                gpstore,
                grade_assignment,
                x.user.id,
            );
            out.push(UserWithIndexAndGradeProgress { user: x.user, index: x.index, grade });
            i = i + 1;
            proof {
                assert(rows@ =~= view.subrange(i as int, view.len() as int));
            }
        }
        proof {
            assert(out@ =~= view.map_values(
                (|row: UserWithIndex| grade_progress_extended(*gpstore, grade_assignment, row)),
            ));
        }
        Ok(UsersWithIndexAndGradeProgress(out))
    }
}

} // verus!