//! The credential hook: enforces the strength policy and replaces the
//! plaintext secret with an Argon2id encoded hash.
use vstd::prelude::*;
use vstd::string::*;

use crate::person::{Action, AuditRecord, Person, PersonError, PersonHook, PersonRequest};

verus! {

/// Fewest characters a secret may have on create.
pub const MIN_SECRET_CHARS: usize = 8;

/// Bytes of salt drawn for each hash.
pub const SALT_BYTES: usize = 24;

/// The Argon2id (version 1.3, 32-byte output) encoding of `pass` under `salt`
/// and the given costs: memory in KiB, iterations, parallel lanes.
pub uninterp spec fn argon2id_encoded(
    pass: Seq<char>,
    salt: Seq<u8>,
    mem_cost: u32,
    time_cost: u32,
    lanes: u32,
) -> Seq<char>;

/// What verifying `pass` against the encoded hash `encoded` yields: whether
/// it matches, or `None` where `encoded` cannot be decoded.
pub uninterp spec fn argon2_verified(encoded: Seq<char>, pass: Seq<char>) -> Option<bool>;

/// The fixed start of every encoded hash made here: algorithm, version and
/// the memory-cost key, `$argon2id$v=19$m=`.
pub open spec fn hash_prefix() -> Seq<char> {
    seq!['$', 'a', 'r', 'g', 'o', 'n', '2', 'i', 'd', '$', 'v', '=', '1', '9', '$', 'm', '=']
}

/// `s` starts with `hash_prefix()`.
pub open spec fn has_hash_prefix(s: Seq<char>) -> bool {
    s.len() >= hash_prefix().len() && s.take(hash_prefix().len() as int) == hash_prefix()
}

/// Costs that the Argon2 implementation accepts.
pub open spec fn costs_accepted(mem_cost: u32, time_cost: u32, lanes: u32) -> bool {
    &&& 1 <= lanes <= 0x00ff_ffff
    &&& 8 * lanes <= mem_cost <= 0x0020_0000
    &&& 1 <= time_cost
}

/// Relies on `rand::thread_rng` (a cryptographically secure generator) for
/// `SALT_BYTES` random bytes; nothing is known of their values.
#[verifier::external_body]
fn random_salt() -> (r: Vec<u8>)
    ensures
        r@.len() == SALT_BYTES,
{
    rand::Rng::gen::<[u8; 24]>(&mut rand::thread_rng()).to_vec()
}

/// Relies on `argon2::hash_encoded` with Argon2id, version 1.3, no secret,
/// no associated data and a 32-byte output. It fails only on parameters out
/// of the ranges its context checks, none of which arise when the costs are
/// accepted, the salt has 8 or more bytes and the secret's UTF-8 bytes fit
/// in a `u32`. Its encoder writes `$`, the variant, `$v=`, the version (19)
/// and `$m=` first.
#[verifier::external_body]
fn hash_encoded(pass: &String, salt: &Vec<u8>, mem_cost: u32, time_cost: u32, lanes: u32) -> (r:
    Option<String>)
    ensures
        r is Some ==> r->Some_0@ == argon2id_encoded(pass@, salt@, mem_cost, time_cost, lanes),
        r is Some ==> has_hash_prefix(r->Some_0@),
        costs_accepted(mem_cost, time_cost, lanes) && 8 <= salt@.len() <= 0xffff_ffff && 4
            * pass@.len() <= 0xffff_ffff ==> r is Some,
{
    let config = argon2::Config {
        variant: argon2::Variant::Argon2id,
        version: argon2::Version::Version13,
        mem_cost,
        time_cost,
        lanes,
        thread_mode: argon2::ThreadMode::from_threads(lanes),
        secret: &[],
        ad: &[],
        hash_length: 32,
    };
    argon2::hash_encoded(pass.as_bytes(), salt, &config).ok()
}

/// Relies on `argon2::verify_encoded`: it decodes the algorithm, costs and
/// salt from `encoded`, hashes `pass` with them and compares; so a string
/// that `argon2::hash_encoded` produced from `pass` with accepted costs
/// verifies, where the secret's UTF-8 bytes fit in a `u32`.
#[verifier::external_body]
fn verify_encoded(encoded: &String, pass: &String) -> (r: Option<bool>)
    ensures
        r == argon2_verified(encoded@, pass@),
        (exists|salt: Seq<u8>, m: u32, t: u32, l: u32|
            8 <= salt.len() <= 0xffff_ffff && costs_accepted(m, t, l) && encoded@ == #[trigger] argon2id_encoded(pass@, salt, m, t, l))
            && 4 * pass@.len() <= 0xffff_ffff ==> r == Some(true),
{
    argon2::verify_encoded(encoded.as_str(), pass.as_bytes()).ok()
}

/// Hashes secrets with Argon2id under the costs it was built with.
pub struct Password {
    /// Memory per hash, in KiB.
    pub mem_cost: u32,
    /// Number of iterations.
    pub time_cost: u32,
    /// Number of parallel lanes.
    pub lanes: u32,
}

impl Password {
    /// A hasher with the given costs.
    pub fn new(mem_cost: u32, time_cost: u32, lanes: u32) -> (r: Password)
        ensures
            r.mem_cost == mem_cost,
            r.time_cost == time_cost,
            r.lanes == lanes,
    {
        Password { mem_cost, time_cost, lanes }
    }

    /// Whether `prepare` replaces the secret for this action.
    pub open spec fn rehashes(request: PersonRequest, action: Action) -> bool {
        action == Action::Create || (action == Action::Update && request.pass@.len() > 0)
    }

    /// `encoded` is the encoding of `pass` under some salt of `SALT_BYTES`
    /// bytes and this hasher's costs.
    pub open spec fn hashed(&self, pass: Seq<char>, encoded: Seq<char>) -> bool {
        exists|salt: Seq<u8>|
            salt.len() == SALT_BYTES && encoded == #[trigger] argon2id_encoded(
                pass,
                salt,
                self.mem_cost,
                self.time_cost,
                self.lanes,
            )
    }

    /// Whether `pass` matches the encoded hash `encoded`. A hash that this
    /// hasher produced from `pass` always matches, whatever salt it drew.
    pub fn verify(&self, pass: &String, encoded: &String) -> (r: bool)
        ensures
            r == (argon2_verified(encoded@, pass@) == Some(true)),
            costs_accepted(self.mem_cost, self.time_cost, self.lanes) && self.hashed(pass@, encoded@)
                && 4 * pass@.len() <= 0xffff_ffff ==> r,
    {
        match verify_encoded(encoded, pass) {
            Some(b) => b,
            None => false,
        }
    }
}

/// Once the credential hook has rewritten a secret, the plaintext is no
/// longer there, unless the plaintext itself has the shape of an encoded hash.
pub proof fn lemma_plaintext_replaced(
    p: Password,
    before: PersonRequest,
    action: Action,
    after: PersonRequest,
)
    requires
        Password::rehashes(before, action),
        p.prepare_spec(before, action, after, true),
        !has_hash_prefix(before.pass@),
    ensures
        after.pass@ != before.pass@,
        has_hash_prefix(after.pass@),
{
}

impl Default for Password {
    /// Production costs: 256 MiB of memory, 8 iterations, 4 lanes.
    fn default() -> (r: Password)
        ensures
            r.mem_cost == 262144,
            r.time_cost == 8,
            r.lanes == 4,
            costs_accepted(r.mem_cost, r.time_cost, r.lanes),
    {
        Password { mem_cost: 262144, time_cost: 8, lanes: 4 }
    }
}

impl PersonHook for Password {
    open spec fn validate_spec(&self, request: PersonRequest, action: Action) -> Result<(), PersonError> {
        if action == Action::Create && request.pass@.len() < MIN_SECRET_CHARS {
            Err(PersonError::Policy)
        } else {
            Ok(())
        }
    }

    open spec fn prepare_spec(
        &self,
        before: PersonRequest,
        action: Action,
        after: PersonRequest,
        done: bool,
    ) -> bool {
        if Self::rehashes(before, action) {
            &&& done ==> after.email == before.email && self.hashed(before.pass@, after.pass@)
                && has_hash_prefix(after.pass@)
            &&& !done ==> after == before
            &&& costs_accepted(self.mem_cost, self.time_cost, self.lanes) && 4 * before.pass@.len()
                <= 0xffff_ffff ==> done
        } else {
            done && after == before
        }
    }

    open spec fn prepare_id_spec(&self, id: u128, action: Action) -> Result<u128, PersonError> {
        Ok(id)
    }

    open spec fn processed_spec(&self, person: Person, action: Action) -> Option<AuditRecord> {
        None
    }

    /// On create, the secret must have at least `MIN_SECRET_CHARS`
    /// characters; updates are not checked for strength.
    fn validate(&self, request: &PersonRequest, action: Action) -> (r: Result<(), PersonError>) {
        if action == Action::Create && request.pass.as_str().unicode_len() < MIN_SECRET_CHARS {
            Err(PersonError::Policy)
        } else {
            Ok(())
        }
    }

    /// Replaces the secret with its encoded hash under a freshly drawn salt,
    /// on create and on an update that supplies a new secret.
    fn prepare(&self, request: &mut PersonRequest, action: Action) -> (r: Result<(), PersonError>) {
        let len = request.pass.as_str().unicode_len();
        if !(action == Action::Create || (action == Action::Update && len > 0)) {
            return Ok(());
        }
        let salt = random_salt();
        match hash_encoded(&request.pass, &salt, self.mem_cost, self.time_cost, self.lanes) {
            Some(encoded) => {
                request.pass = encoded;
                Ok(())
            },
            None => Err(PersonError::Preparation),
        }
    }

    /// No preprocessing of the identifier is done for passwords.
    fn prepare_id(&self, id: &mut u128, action: Action) -> (r: Result<(), PersonError>) {
        Ok(())
    }

    /// No postprocessing is done of passwords.
    fn processed(&self, person: &Person, action: Action) -> (r: Option<AuditRecord>) {
        None
    }
}

} // verus!
