//! Account registration: validating the address, minting a temporary
//! password, hashing it, and recording the account — for students
//! together with their index record, atomically.

use vstd::prelude::*;

use crate::collaborators::{
    bcrypt_hash, bcrypt_matches, email_address_ok, email_address_valid, generate_random_password,
};
use crate::error::Error;
use crate::index::{Generation, GenerationStore, Index, IndexStore, Program, ProgramStore};
use crate::text::opt_view;
use crate::user::{email_taken, first_user_by_email_from, AccountType, User, UserStore};

verus! {

/// How a registration attempt ended.
#[derive(Debug)]
pub enum AccountCreation {
    /// The email does not parse as an address.
    InvalidEmail,
    /// The email is already registered to a live account.
    DuplicateData,
    /// Registered; the generated temporary password, for the invite.
    Created(String),
}

/// The name value a registration stores: a posted name is kept, an empty
/// field is stored as an explicit absence.
pub open spec fn registered_name(name: Seq<char>) -> Option<Seq<char>> {
    if name.len() == 0 {
        Option::None
    } else {
        Option::Some(name)
    }
}

/// The account revision a registration appends: a fresh identity whose
/// payload carries the email, the account kind, a digest the temporary
/// password matches, and the filtered names.
pub open spec fn registered_account(
    store: UserStore,
    prior: UserStore,
    marker: u64,
    email: Seq<char>,
    first_name: Seq<char>,
    last_name: Seq<char>,
    account_type: AccountType,
    plain: Seq<char>,
) -> bool {
    &&& store.rows@.len() == prior.rows@.len() + 1
    &&& store.rows@.drop_last() == prior.rows@
    &&& !prior.has_identity(store.rows@.last().identity)
    &&& store.rows@.last().marker == marker
    &&& !store.rows@.last().deleted
    &&& store.rows@.last().payload.email@ == email
    &&& store.rows@.last().payload.account_type == account_type
    &&& bcrypt_matches(plain, store.rows@.last().payload.password@)
    &&& !store.rows@.last().payload.password_reset_required
    &&& store.rows@.last().payload.last_login_time is None
    &&& opt_view(store.rows@.last().payload.first_name) == registered_name(first_name)
    &&& opt_view(store.rows@.last().payload.last_name) == registered_name(last_name)
}

/// Registers an account: rejects an unparsable email, rejects an email a
/// live account already carries, and otherwise appends one account
/// revision under a fresh identity and returns the temporary password,
/// which matches the stored digest.
pub fn create_account(
    users: &mut UserStore,
    marker: u64,
    email: &str,
    first_name: &str,
    last_name: &str,
    account_type: AccountType,
) -> (r: Result<AccountCreation, Error>)
    ensures
        match r {
            Ok(AccountCreation::InvalidEmail) => !email_address_ok(email@) && final(users).rows@
                == old(users).rows@,
            Ok(AccountCreation::DuplicateData) => email_address_ok(email@) && email_taken(
                *old(users),
                email@,
            ) && final(users).rows@ == old(users).rows@,
            Ok(AccountCreation::Created(plain)) => email_address_ok(email@) && !email_taken(
                *old(users),
                email@,
            ) && plain@.len() == 32 && registered_account(
                *final(users),
                *old(users),
                marker,
                email@,
                first_name@,
                last_name@,
                account_type,
                plain@,
            ),
            Err(e) => e == Error::StorageFailure && final(users).rows@ == old(users).rows@,
        },
{
    if !email_address_valid(email) {
        return Ok(AccountCreation::InvalidEmail);
    }
    let plain = generate_random_password();
    let digest = match bcrypt_hash(plain.as_str()) {
        Ok(d) => d,
        Err(e) => {
            return Err(e);
        },
    };
    let first = if first_name.is_empty() {
        None
    } else {
        Some(first_name.to_owned())
    };
    let last = if last_name.is_empty() {
        None
    } else {
        Some(last_name.to_owned())
    };
    let builder = User::builder(email.to_owned(), digest).with_first_name(first).with_last_name(
        last,
    ).with_account_type(account_type);
    let new_user = builder.build();
    let res = new_user.create(users, marker);
    proof {
        if res is Ok {
            assert(users.rows@.drop_last() =~= old(users).rows@);
        }
    }
    match res {
        Ok(()) => Ok(AccountCreation::Created(plain)),
        Err(Error::DuplicateEntry) => Ok(AccountCreation::DuplicateData),
        Err(e) => Err(e),
    }
}

/// Registers a student account with its index record: the account and the
/// index appear together or not at all. The index points at the first
/// live program under the short name, the first live generation of the
/// year, and the freshly registered account — the first live account
/// under the email. `EntryNotFound` reports a missing program or
/// generation.
pub fn create_student_account(
    users: &mut UserStore,
    indices: &mut IndexStore,
    generations: &GenerationStore,
    programs: &ProgramStore,
    marker: u64,
    email: &str,
    first_name: &str,
    last_name: &str,
    program_short_name: &str,
    generation_year: u32,
    index_number: u32,
) -> (r: Result<AccountCreation, Error>)
    ensures
        match r {
            Ok(AccountCreation::InvalidEmail) => !email_address_ok(email@) && final(users).rows@
                == old(users).rows@ && final(indices).rows@ == old(indices).rows@,
            Ok(AccountCreation::DuplicateData) => email_address_ok(email@) && email_taken(
                *old(users),
                email@,
            ) && final(users).rows@ == old(users).rows@ && final(indices).rows@ == old(indices)
                .rows@,
            Ok(AccountCreation::Created(plain)) => email_address_ok(email@) && !email_taken(
                *old(users),
                email@,
            ) && plain@.len() == 32 && registered_account(
                *final(users),
                *old(users),
                marker,
                email@,
                first_name@,
                last_name@,
                AccountType::Student,
                plain@,
            ) && ({
                let last = final(indices).rows@.last();
                &&& final(indices).created_fresh(
                    *old(indices),
                    marker,
                    crate::index::IndexData {
                        program: last.payload.program,
                        generation: last.payload.generation,
                        number: index_number,
                        student: last.payload.student,
                    },
                )
                &&& exists|pi: int|
                    #[trigger] programs.current_at(pi) && programs.rows@[pi].payload.short_name@
                        == program_short_name@ && last.payload.program == programs.rows@[
                        pi
                    ].identity
                &&& exists|gi: int|
                    #[trigger] generations.current_at(gi) && generations.rows@[gi].payload.year
                        == generation_year && last.payload.generation == generations.rows@[
                        gi
                    ].identity
                &&& first_user_by_email_from(*final(users), email@, 0) < final(users).rows@.len()
                &&& last.payload.student == final(users).rows@[first_user_by_email_from(
                    *final(users),
                    email@,
                    0,
                )].identity
            }),
            Err(Error::EntryNotFound) => email_address_ok(email@) && !email_taken(
                *old(users),
                email@,
            ) && final(users).rows@ == old(users).rows@ && final(indices).rows@ == old(indices)
                .rows@ && ((forall|pi: int|
                #[trigger] programs.current_at(pi) ==> programs.rows@[pi].payload.short_name@
                    != program_short_name@) || (forall|gi: int|
                #[trigger] generations.current_at(gi) ==> generations.rows@[gi].payload.year
                    != generation_year)),
            Err(e) => e == Error::StorageFailure && final(users).rows@ == old(users).rows@
                && final(indices).rows@ == old(indices).rows@,
        },
{
    if !email_address_valid(email) {
        return Ok(AccountCreation::InvalidEmail);
    }
    match User::get_by_email(users, email) {
        Ok(_) => {
            proof {
                let i = first_user_by_email_from(*users, email@, 0);
                assert(users.current_at(i) && users.rows@[i].payload.email@ == email@) by {
                    lemma_first_email_match(*users, email@, 0);
                }
            }
            return Ok(AccountCreation::DuplicateData);
        },
        Err(_) => (),
    }
    let program = match Program::get_by_short_name(programs, program_short_name) {
        Ok(p) => p,
        Err(_) => {
            return Err(Error::EntryNotFound);
        },
    };
    let generation = match Generation::get_by_year(generations, generation_year) {
        Ok(g) => g,
        Err(_) => {
            return Err(Error::EntryNotFound);
        },
    };
    if !indices.can_allocate() {
        return Err(Error::StorageFailure);
    }
    let outcome = create_account(users, marker, email, first_name, last_name, AccountType::Student);
    let plain = match outcome {
        Ok(AccountCreation::Created(plain)) => plain,
        Ok(_) => {
            proof {
                assert(false);
            }
            return Err(Error::StorageFailure);
        },
        Err(e) => {
            return Err(e);
        },
    };
    let new_user = match User::get_by_email(users, email) {
        Ok(u) => u,
        Err(_) => {
            proof {
                let n = users.rows@.len() - 1;
                assert(users.rows@ =~= old(users).rows@.push(users.rows@.last()));
                assert(users.created_fresh(*old(users), marker, users.rows@.last().payload));
                users.lemma_created_fresh_current(*old(users), marker, users.rows@.last().payload);
                lemma_first_email_bound(*users, email@, 0, n);
                assert(false);
            }
            return Err(Error::StorageFailure);
        },
    };
    let res = Index::create(indices, marker, program.id, generation.id, index_number, new_user.id);
    proof {
        let i = first_user_by_email_from(*users, email@, 0);
        assert(users.current_at(i) && users.rows@[i].payload.email@ == email@) by {
            lemma_first_email_match(*users, email@, 0);
        }
    }
    match res {
        Ok(()) => Ok(AccountCreation::Created(plain)),
        Err(e) => {
            proof {
                assert(false);
            }
            Err(e)
        },
    }
}

/// When the first-match scan lands inside the table, it lands on a match.
proof fn lemma_first_email_match(store: UserStore, email: Seq<char>, n: int)
    requires
        0 <= n <= store.rows@.len(),
        first_user_by_email_from(store, email, n) < store.rows@.len(),
    ensures
        store.current_at(first_user_by_email_from(store, email, n)),
        store.rows@[first_user_by_email_from(store, email, n)].payload.email@ == email,
    decreases store.rows@.len() - n,
{
    if !(store.current_at(n) && store.rows@[n].payload.email@ == email) {
        lemma_first_email_match(store, email, n + 1);
    }
}

/// A match at or before `m` bounds the first match by `m`.
proof fn lemma_first_email_bound(store: UserStore, email: Seq<char>, n: int, m: int)
    requires
        0 <= n <= m < store.rows@.len(),
        store.current_at(m),
        store.rows@[m].payload.email@ == email,
    ensures
        first_user_by_email_from(store, email, n) <= m,
    decreases m - n,
{
    if n < m {
        if !(store.current_at(n) && store.rows@[n].payload.email@ == email) {
            lemma_first_email_bound(store, email, n + 1, m);
        }
    }
}

} // verus!
