//! A `Person` is the record managed here (an account or identity). Each
//! lifecycle operation runs the registered hooks in order around one unit of
//! work against the store; the steps that decide live in this module, the
//! store itself is driven by the caller.
use vstd::prelude::*;

use crate::email::{is_email, Email};
use crate::logger::Logger;
use crate::password::{costs_accepted, has_hash_prefix, Password, MIN_SECRET_CHARS};

verus! {

/// The lifecycle operation a hook is invoked for.
#[derive(Clone, Copy, Debug, PartialEq, Eq, Structural)]
pub enum Action {
    Create,
    Read,
    Update,
    Delete,
}

impl Action {
    /// The action's name, as it appears in audit records.
    pub fn name(&self) -> (r: &'static str)
        ensures
            *self == Action::Create ==> r@ == "create"@,
            *self == Action::Read ==> r@ == "read"@,
            *self == Action::Update ==> r@ == "update"@,
            *self == Action::Delete ==> r@ == "delete"@,
    {
        match self {
            Action::Create => "create",
            Action::Read => "read",
            Action::Update => "update",
            Action::Delete => "delete",
        }
    }
}

/// Why a lifecycle operation did not complete.
#[derive(Clone, Copy, Debug, PartialEq, Eq, Structural)]
pub enum PersonError {
    /// The identifier field is not a well-formed address.
    Validation,
    /// The credential does not meet the strength policy.
    Policy,
    /// A hook could not transform the request (e.g. the hashing backend failed).
    Preparation,
    /// The store reported a uniqueness violation.
    Duplicate,
    /// The store failed in any other way.
    Persistence,
    /// No record matches the targeted identifier.
    NotFound,
}

impl PersonError {
    /// A human-readable reason.
    pub fn message(&self) -> (r: &'static str)
        ensures
            *self == PersonError::Validation ==> r@ == "invalid email address"@,
            *self == PersonError::Policy ==> r@ == "credential too weak: must be at least 8 characters long"@,
            *self == PersonError::Preparation ==> r@ == "could not prepare the request"@,
            *self == PersonError::Duplicate ==> r@ == "a person with this identifier already exists"@,
            *self == PersonError::Persistence ==> r@ == "the store failed"@,
            *self == PersonError::NotFound ==> r@ == "no such person"@,
    {
        match self {
            PersonError::Validation => "invalid email address",
            PersonError::Policy => "credential too weak: must be at least 8 characters long",
            PersonError::Preparation => "could not prepare the request",
            PersonError::Duplicate => "a person with this identifier already exists",
            PersonError::Persistence => "the store failed",
            PersonError::NotFound => "no such person",
        }
    }
}

/// A persisted person: `pass` holds only the encoded credential hash.
#[derive(Debug)]
pub struct Person {
    pub id: u128,
    pub email: String,
    pub pass: String,
}

/// What a caller supplies to create or update a person: the identifier field
/// and, possibly empty, a plaintext secret. Hooks rewrite it in place before
/// it is stored.
#[derive(Debug)]
pub struct PersonRequest {
    pub email: String,
    pub pass: String,
}

/// The columns an update writes: the identifier always, the credential only
/// when a new secret was supplied.
#[derive(Debug)]
pub struct PersonUpdate {
    pub email: String,
    pub pass: Option<String>,
}

/// What the audit hook reports once an operation has completed.
#[derive(Debug)]
pub struct AuditRecord {
    pub action: Action,
    pub email: String,
}

/// The four extension points of a lifecycle operation. The spec functions
/// give each one's outcome; `prepare` may draw on chance, so its outcome is
/// a relation between the request before and after.
pub trait PersonHook {
    spec fn validate_spec(&self, request: PersonRequest, action: Action) -> Result<(), PersonError>;

    spec fn prepare_spec(
        &self,
        before: PersonRequest,
        action: Action,
        after: PersonRequest,
        done: bool,
    ) -> bool;

    spec fn prepare_id_spec(&self, id: u128, action: Action) -> Result<u128, PersonError>;

    spec fn processed_spec(&self, person: Person, action: Action) -> Option<AuditRecord>;

    /// Checks the request without changing it.
    fn validate(&self, request: &PersonRequest, action: Action) -> (r: Result<(), PersonError>)
        ensures
            r == self.validate_spec(*request, action),
    ;

    /// Rewrites the request before it is stored.
    fn prepare(&self, request: &mut PersonRequest, action: Action) -> (r: Result<(), PersonError>)
        ensures
            self.prepare_spec(*old(request), action, *final(request), r is Ok),
            r is Err ==> r == Err::<(), PersonError>(PersonError::Preparation),
    ;

    /// Normalises an identifier before a lookup (read and delete).
    fn prepare_id(&self, id: &mut u128, action: Action) -> (r: Result<(), PersonError>)
        ensures
            match self.prepare_id_spec(*old(id), action) {
                Ok(n) => r is Ok && *final(id) == n,
                Err(e) => r == Err::<(), PersonError>(e),
            },
    ;

    /// Observes the stored person once the operation has completed; it never
    /// fails, and what it reports is handed back to the caller.
    fn processed(&self, person: &Person, action: Action) -> (r: Option<AuditRecord>)
        ensures
            r == self.processed_spec(*person, action),
    ;
}

/// A hook that can be registered: one of the library's three.
pub enum Hook {
    Email(Email),
    Password(Password),
    Logger(Logger),
}

impl PersonHook for Hook {
    open spec fn validate_spec(&self, request: PersonRequest, action: Action) -> Result<(), PersonError> {
        match self {
            Hook::Email(h) => h.validate_spec(request, action),
            Hook::Password(h) => h.validate_spec(request, action),
            Hook::Logger(h) => h.validate_spec(request, action),
        }
    }

    open spec fn prepare_spec(
        &self,
        before: PersonRequest,
        action: Action,
        after: PersonRequest,
        done: bool,
    ) -> bool {
        match self {
            Hook::Email(h) => h.prepare_spec(before, action, after, done),
            Hook::Password(h) => h.prepare_spec(before, action, after, done),
            Hook::Logger(h) => h.prepare_spec(before, action, after, done),
        }
    }

    open spec fn prepare_id_spec(&self, id: u128, action: Action) -> Result<u128, PersonError> {
        match self {
            Hook::Email(h) => h.prepare_id_spec(id, action),
            Hook::Password(h) => h.prepare_id_spec(id, action),
            Hook::Logger(h) => h.prepare_id_spec(id, action),
        }
    }

    open spec fn processed_spec(&self, person: Person, action: Action) -> Option<AuditRecord> {
        match self {
            Hook::Email(h) => h.processed_spec(person, action),
            Hook::Password(h) => h.processed_spec(person, action),
            Hook::Logger(h) => h.processed_spec(person, action),
        }
    }

    fn validate(&self, request: &PersonRequest, action: Action) -> (r: Result<(), PersonError>) {
        match self {
            Hook::Email(h) => h.validate(request, action),
            Hook::Password(h) => h.validate(request, action),
            Hook::Logger(h) => h.validate(request, action),
        }
    }

    fn prepare(&self, request: &mut PersonRequest, action: Action) -> (r: Result<(), PersonError>) {
        match self {
            Hook::Email(h) => h.prepare(request, action),
            Hook::Password(h) => h.prepare(request, action),
            Hook::Logger(h) => h.prepare(request, action),
        }
    }

    fn prepare_id(&self, id: &mut u128, action: Action) -> (r: Result<(), PersonError>) {
        match self {
            Hook::Email(h) => h.prepare_id(id, action),
            Hook::Password(h) => h.prepare_id(id, action),
            Hook::Logger(h) => h.prepare_id(id, action),
        }
    }

    fn processed(&self, person: &Person, action: Action) -> (r: Option<AuditRecord>) {
        match self {
            Hook::Email(h) => h.processed(person, action),
            Hook::Password(h) => h.processed(person, action),
            Hook::Logger(h) => h.processed(person, action),
        }
    }
}

/// Outcome of running `validate` on the first `n` hooks: the first failure,
/// if any.
pub open spec fn validated_upto(hooks: Seq<Hook>, n: int, request: PersonRequest, action: Action) -> Result<(), PersonError>
    decreases n,
{
    if n <= 0 {
        Ok(())
    } else {
        match validated_upto(hooks, n - 1, request, action) {
            Err(e) => Err(e),
            Ok(_) => hooks[n - 1].validate_spec(request, action),
        }
    }
}

/// Validating a create with a well-formed identifier through a registry that
/// holds a credential hook fails exactly when the secret has fewer than
/// `MIN_SECRET_CHARS` characters, and then with `Policy`.
pub proof fn lemma_create_policy(hooks: Seq<Hook>, request: PersonRequest)
    requires
        exists|i: int| 0 <= i < hooks.len() && #[trigger] hooks[i] is Password,
        is_email(request.email@),
    ensures
        validated_upto(hooks, hooks.len() as int, request, Action::Create) == if request.pass@.len()
            < MIN_SECRET_CHARS {
            Err::<(), PersonError>(PersonError::Policy)
        } else {
            Ok::<(), PersonError>(())
        },
{
    lemma_create_policy_upto(hooks, hooks.len() as int, request);
}

proof fn lemma_create_policy_upto(hooks: Seq<Hook>, n: int, request: PersonRequest)
    requires
        0 <= n <= hooks.len(),
        is_email(request.email@),
    ensures
        validated_upto(hooks, n, request, Action::Create) == if request.pass@.len() < MIN_SECRET_CHARS
            && exists|i: int| 0 <= i < n && #[trigger] hooks[i] is Password {
            Err::<(), PersonError>(PersonError::Policy)
        } else {
            Ok::<(), PersonError>(())
        },
    decreases n,
{
    if n > 0 {
        lemma_create_policy_upto(hooks, n - 1, request);
        if exists|i: int| 0 <= i < n - 1 && #[trigger] hooks[i] is Password {
            let i = choose|i: int| 0 <= i < n - 1 && #[trigger] hooks[i] is Password;
            assert(0 <= i < n && hooks[i] is Password);
        }
        if hooks[n - 1] is Password {
            assert(exists|i: int| 0 <= i < n && #[trigger] hooks[i] is Password) by {
                assert(hooks[n - 1] is Password);
            }
        } else {
            if exists|i: int| 0 <= i < n && #[trigger] hooks[i] is Password {
                let i = choose|i: int| 0 <= i < n && #[trigger] hooks[i] is Password;
                assert(i < n - 1);
            }
        }
    }
}

/// A failure among the first `i` hooks is the outcome for any longer prefix.
proof fn lemma_validated_stays(hooks: Seq<Hook>, i: int, n: int, request: PersonRequest, action: Action)
    requires
        0 <= i <= n,
        validated_upto(hooks, i, request, action) is Err,
    ensures
        validated_upto(hooks, n, request, action) == validated_upto(hooks, i, request, action),
    decreases n - i,
{
    if n > i {
        lemma_validated_stays(hooks, i, n - 1, request, action);
    }
}

/// Outcome of running `prepare_id` on the first `n` hooks, each on the
/// identifier the one before it produced.
pub open spec fn prepared_id_upto(hooks: Seq<Hook>, n: int, id: u128, action: Action) -> Result<u128, PersonError>
    decreases n,
{
    if n <= 0 {
        Ok(id)
    } else {
        match prepared_id_upto(hooks, n - 1, id, action) {
            Err(e) => Err(e),
            Ok(m) => hooks[n - 1].prepare_id_spec(m, action),
        }
    }
}

/// A failure among the first `i` hooks is the outcome for any longer prefix.
proof fn lemma_prepared_id_stays(hooks: Seq<Hook>, i: int, n: int, id: u128, action: Action)
    requires
        0 <= i <= n,
        prepared_id_upto(hooks, i, id, action) is Err,
    ensures
        prepared_id_upto(hooks, n, id, action) == prepared_id_upto(hooks, i, id, action),
    decreases n - i,
{
    if n > i {
        lemma_prepared_id_stays(hooks, i, n - 1, id, action);
    }
}

/// The audit records that `processed` on the first `n` hooks reports, in order.
pub open spec fn audited_upto(hooks: Seq<Hook>, n: int, person: Person, action: Action) -> Seq<AuditRecord>
    decreases n,
{
    if n <= 0 {
        Seq::empty()
    } else {
        match hooks[n - 1].processed_spec(person, action) {
            Some(a) => audited_upto(hooks, n - 1, person, action).push(a),
            None => audited_upto(hooks, n - 1, person, action),
        }
    }
}

/// `states` is a run of `prepare` through every hook in order, each step
/// completing: `states[i + 1]` is what hook `i` made of `states[i]`.
pub open spec fn is_prepare_run(hooks: Seq<Hook>, action: Action, states: Seq<PersonRequest>) -> bool {
    &&& states.len() == hooks.len() + 1
    &&& forall|i: int|
        0 <= i < hooks.len() ==> #[trigger] hooks[i].prepare_spec(states[i], action, states[i + 1], true)
}

/// `after` is what running `prepare` through every hook can make of `before`.
pub open spec fn prepared(hooks: Seq<Hook>, before: PersonRequest, action: Action, after: PersonRequest) -> bool {
    exists|states: Seq<PersonRequest>|
        #[trigger] is_prepare_run(hooks, action, states) && states[0] == before && states.last() == after
}

/// `states` runs `prepare` through hooks `0..k`, each completing, and hook
/// `k` then failed on `states[k]`, leaving `after`.
pub open spec fn is_failed_run(
    hooks: Seq<Hook>,
    action: Action,
    states: Seq<PersonRequest>,
    k: int,
    after: PersonRequest,
) -> bool {
    &&& 0 <= k < hooks.len()
    &&& states.len() == k + 1
    &&& forall|i: int|
        0 <= i < k ==> #[trigger] hooks[i].prepare_spec(states[i], action, states[i + 1], true)
    &&& hooks[k].prepare_spec(states[k], action, after, false)
}

/// Running `prepare` through the hooks from `before` stopped at a hook whose
/// own contract lets it fail on what it was given, leaving `after`.
pub open spec fn prepare_failed(hooks: Seq<Hook>, before: PersonRequest, action: Action, after: PersonRequest) -> bool {
    exists|states: Seq<PersonRequest>, k: int|
        #[trigger] is_failed_run(hooks, action, states, k, after) && states[0] == before
}

/// Steps `a..b` of a run through hooks that are not credential hooks leave
/// the request as it was.
proof fn lemma_steps_unchanged(hooks: Seq<Hook>, action: Action, states: Seq<PersonRequest>, a: int, b: int)
    requires
        0 <= a <= b < states.len(),
        b <= hooks.len(),
        forall|i: int|
            a <= i < b ==> #[trigger] hooks[i].prepare_spec(states[i], action, states[i + 1], true),
        forall|i: int| a <= i < b ==> !(#[trigger] hooks[i] is Password),
    ensures
        states[b] == states[a],
    decreases b - a,
{
    if b > a {
        lemma_steps_unchanged(hooks, action, states, a, b - 1);
        let i = b - 1;
        assert(hooks[i].prepare_spec(states[i], action, states[i + 1], true));
        assert(!(hooks[i] is Password));
    }
}

/// Preparing through a registry with at most one credential hook, whose
/// costs are accepted, cannot fail on a secret whose UTF-8 bytes fit in a
/// `u32`.
pub proof fn lemma_prepare_cannot_fail(hooks: Seq<Hook>, before: PersonRequest, action: Action)
    requires
        forall|i: int, j: int|
            0 <= i < hooks.len() && 0 <= j < hooks.len() && #[trigger] hooks[i] is Password
                && #[trigger] hooks[j] is Password ==> i == j,
        forall|i: int|
            0 <= i < hooks.len() && #[trigger] hooks[i] is Password ==> costs_accepted(
                hooks[i]->Password_0.mem_cost,
                hooks[i]->Password_0.time_cost,
                hooks[i]->Password_0.lanes,
            ),
        4 * before.pass@.len() <= 0xffff_ffff,
    ensures
        forall|after: PersonRequest| !#[trigger] prepare_failed(hooks, before, action, after),
{
    assert forall|after: PersonRequest| !#[trigger] prepare_failed(hooks, before, action, after) by {
        if prepare_failed(hooks, before, action, after) {
            let (states, k) = choose|states: Seq<PersonRequest>, k: int|
                #[trigger] is_failed_run(hooks, action, states, k, after) && states[0] == before;
            if hooks[k] is Password {
                assert forall|i: int| 0 <= i < k implies !(#[trigger] hooks[i] is Password) by {
                    if hooks[i] is Password {
                        assert(hooks[k] is Password);
                    }
                }
                lemma_steps_unchanged(hooks, action, states, 0, k);
            }
        }
    }
}

/// With exactly one credential hook in the registry, a completed `prepare`
/// that rewrites the secret leaves that hook's encoded hash of the original
/// secret, and the identifier as it was.
pub proof fn lemma_single_credential_hook(
    hooks: Seq<Hook>,
    k: int,
    before: PersonRequest,
    action: Action,
    after: PersonRequest,
)
    requires
        prepared(hooks, before, action, after),
        0 <= k < hooks.len(),
        hooks[k] is Password,
        forall|i: int| 0 <= i < hooks.len() && i != k ==> !(#[trigger] hooks[i] is Password),
        Password::rehashes(before, action),
    ensures
        hooks[k]->Password_0.hashed(before.pass@, after.pass@),
        has_hash_prefix(after.pass@),
        after.email == before.email,
{
    let states = choose|states: Seq<PersonRequest>|
        #[trigger] is_prepare_run(hooks, action, states) && states[0] == before && states.last()
            == after;
    lemma_steps_unchanged(hooks, action, states, 0, k);
    assert(hooks[k].prepare_spec(states[k], action, states[k + 1], true));
    lemma_steps_unchanged(hooks, action, states, k + 1, hooks.len() as int);
}

/// Every hook of this library leaves the identifier field as it found it
/// when it prepares a request.
pub proof fn lemma_hook_keeps_identifier(
    hook: Hook,
    before: PersonRequest,
    action: Action,
    after: PersonRequest,
)
    requires
        hook.prepare_spec(before, action, after, true),
    ensures
        after.email == before.email,
{
}

/// Preparing a request through any registry leaves its identifier field
/// unchanged: only the credential is rewritten.
pub proof fn lemma_prepare_keeps_identifier(
    hooks: Seq<Hook>,
    before: PersonRequest,
    action: Action,
    after: PersonRequest,
)
    requires
        prepared(hooks, before, action, after),
    ensures
        after.email == before.email,
{
    let states = choose|states: Seq<PersonRequest>|
        #[trigger] is_prepare_run(hooks, action, states) && states[0] == before && states.last()
            == after;
    lemma_run_keeps_identifier(hooks, action, states, hooks.len() as int);
}

/// Along a run of `prepare`, every state has the identifier field of the first.
proof fn lemma_run_keeps_identifier(hooks: Seq<Hook>, action: Action, states: Seq<PersonRequest>, k: int)
    requires
        is_prepare_run(hooks, action, states),
        0 <= k <= hooks.len(),
    ensures
        states[k].email == states[0].email,
    decreases k,
{
    if k > 0 {
        lemma_run_keeps_identifier(hooks, action, states, k - 1);
        let i = k - 1;
        assert(hooks[i].prepare_spec(states[i], action, states[i + 1], true));
        lemma_hook_keeps_identifier(hooks[i], states[i], action, states[i + 1]);
    }
}

/// The ordered registry of hooks; registration order is invocation order.
pub struct PersonHooks {
    hooks: Vec<Hook>,
}

impl View for PersonHooks {
    type V = Seq<Hook>;

    closed spec fn view(&self) -> Seq<Hook> {
        self.hooks@
    }
}

impl PersonHooks {
    /// Outcome of `validate` over the whole registry.
    pub open spec fn validated(&self, request: PersonRequest, action: Action) -> Result<(), PersonError> {
        validated_upto(self@, self@.len() as int, request, action)
    }

    /// Outcome of `prepare_id` over the whole registry.
    pub open spec fn prepared_id(&self, id: u128, action: Action) -> Result<u128, PersonError> {
        prepared_id_upto(self@, self@.len() as int, id, action)
    }

    /// What `processed` over the whole registry reports.
    pub open spec fn audited(&self, person: Person, action: Action) -> Seq<AuditRecord> {
        audited_upto(self@, self@.len() as int, person, action)
    }

    /// An empty registry.
    pub fn initialize() -> (r: Self)
        ensures
            r@ == Seq::<Hook>::empty(),
    {
        PersonHooks { hooks: Vec::new() }
    }

    /// Appends a hook; it runs after every hook registered before it.
    pub fn register_hook(&mut self, hook: Hook)
        ensures
            final(self)@ == old(self)@.push(hook),
    {
        self.hooks.push(hook);
    }

    /// Runs `validate` on every hook in order, stopping at the first failure.
    pub fn validate(&self, request: &PersonRequest, action: Action) -> (r: Result<(), PersonError>)
        ensures
            r == self.validated(*request, action),
    {
        let mut i: usize = 0;
        while i < self.hooks.len()
            invariant
                i <= self.hooks@.len(),
                validated_upto(self@, i as int, *request, action) is Ok,
            decreases self.hooks@.len() - i,
        {
            let r = self.hooks[i].validate(request, action);
            if r.is_err() {
                proof {
                    lemma_validated_stays(self@, i + 1, self@.len() as int, *request, action);
                }
                return r;
            }
            i = i + 1;
        }
        Ok(())
    }

    /// Runs `prepare` on every hook in order, each on what the one before it
    /// produced, stopping at the first failure.
    pub fn prepare(&self, request: &mut PersonRequest, action: Action) -> (r: Result<(), PersonError>)
        ensures
            r is Ok ==> prepared(self@, *old(request), action, *final(request)),
            r is Err ==> r == Err::<(), PersonError>(PersonError::Preparation),
            r is Err ==> prepare_failed(self@, *old(request), action, *final(request)),
    {
        let ghost mut states: Seq<PersonRequest> = seq![*request];
        let mut i: usize = 0;
        while i < self.hooks.len()
            invariant
                i <= self.hooks@.len(),
                states.len() == i + 1,
                states[0] == *old(request),
                states.last() == *request,
                forall|k: int|
                    0 <= k < i ==> #[trigger] self@[k].prepare_spec(states[k], action, states[k + 1], true),
            decreases self.hooks@.len() - i,
        {
            let r = self.hooks[i].prepare(request, action);
            if r.is_err() {
                assert(is_failed_run(self@, action, states, i as int, *request));
                return r;
            }
            proof {
                states = states.push(*request);
            }
            i = i + 1;
        }
        assert(is_prepare_run(self@, action, states));
        Ok(())
    }

    /// Runs `prepare_id` on every hook in order, stopping at the first failure.
    pub fn prepare_id(&self, id: u128, action: Action) -> (r: Result<u128, PersonError>)
        ensures
            r == self.prepared_id(id, action),
    {
        let mut current: u128 = id;
        let mut i: usize = 0;
        while i < self.hooks.len()
            invariant
                i <= self.hooks@.len(),
                prepared_id_upto(self@, i as int, id, action) == Ok::<u128, PersonError>(current),
            decreases self.hooks@.len() - i,
        {
            let r = self.hooks[i].prepare_id(&mut current, action);
            if let Err(e) = r {
                proof {
                    lemma_prepared_id_stays(self@, i + 1, self@.len() as int, id, action);
                }
                return Err(e);
            }
            i = i + 1;
        }
        Ok(current)
    }

    /// Runs `processed` on every hook in order and collects what they report.
    pub fn processed(&self, person: &Person, action: Action) -> (r: Vec<AuditRecord>)
        ensures
            r@ == self.audited(*person, action),
    {
        let mut records: Vec<AuditRecord> = Vec::new();
        let mut i: usize = 0;
        while i < self.hooks.len()
            invariant
                i <= self.hooks@.len(),
                records@ == audited_upto(self@, i as int, *person, action),
            decreases self.hooks@.len() - i,
        {
            match self.hooks[i].processed(person, action) {
                Some(a) => records.push(a),
                None => {},
            }
            i = i + 1;
        }
        records
    }
}

impl Person {
    /// The steps of `create` before the store is touched: every hook
    /// validates the request, then every hook prepares it. The result is what
    /// is to be inserted; a failure leaves nothing to persist.
    pub fn before_create(request: PersonRequest, hooks: &PersonHooks) -> (r: Result<PersonRequest, PersonError>)
        ensures
            match hooks.validated(request, Action::Create) {
                Err(e) => r == Err::<PersonRequest, PersonError>(e),
                Ok(_) => match r {
                    Ok(ready) => prepared(hooks@, request, Action::Create, ready),
                    Err(e) => e == PersonError::Preparation && exists|after: PersonRequest|
                        #[trigger] prepare_failed(hooks@, request, Action::Create, after),
                },
            },
    {
        let v = hooks.validate(&request, Action::Create);
        if let Err(e) = v {
            return Err(e);
        }
        let mut ready = request;
        match hooks.prepare(&mut ready, Action::Create) {
            Ok(_) => Ok(ready),
            Err(e) => Err(e),
        }
    }

    /// The steps of `update` before the store is touched: every hook
    /// validates the request; an empty secret means "no change", so the
    /// credential is left out and nothing is prepared; otherwise every hook
    /// prepares the request and the new credential is written too.
    pub fn before_update(request: PersonRequest, hooks: &PersonHooks) -> (r: Result<PersonUpdate, PersonError>)
        ensures
            match hooks.validated(request, Action::Update) {
                Err(e) => r == Err::<PersonUpdate, PersonError>(e),
                Ok(_) => if request.pass@.len() == 0 {
                    &&& r is Ok
                    &&& r->Ok_0.email == request.email
                    &&& r->Ok_0.pass is None
                } else {
                    match r {
                        Ok(u) => u.pass is Some && prepared(
                            hooks@,
                            request,
                            Action::Update,
                            (PersonRequest { email: u.email, pass: u.pass->Some_0 }),
                        ),
                        Err(e) => e == PersonError::Preparation && exists|after: PersonRequest|
                            #[trigger] prepare_failed(hooks@, request, Action::Update, after),
                    }
                },
            },
    {
        let v = hooks.validate(&request, Action::Update);
        if let Err(e) = v {
            return Err(e);
        }
        if request.pass.as_str().unicode_len() == 0 {
            return Ok(PersonUpdate { email: request.email, pass: None });
        }
        let mut ready = request;
        match hooks.prepare(&mut ready, Action::Update) {
            Ok(_) => {
                let PersonRequest { email, pass } = ready;
                Ok(PersonUpdate { email, pass: Some(pass) })
            },
            Err(e) => Err(e),
        }
    }

    /// The result of `read` from the rows the store returned: a targeted read
    /// that found nothing fails with `NotFound`; a listing, even an empty
    /// one, is returned as it is.
    pub fn after_read(id: Option<u128>, rows: Vec<Person>) -> (r: Result<Vec<Person>, PersonError>)
        ensures
            id is Some && rows@.len() == 0 ==> r == Err::<Vec<Person>, PersonError>(PersonError::NotFound),
            !(id is Some && rows@.len() == 0) ==> r is Ok && r->Ok_0@ == rows@,
    {
        if id.is_some() && rows.len() == 0 {
            Err(PersonError::NotFound)
        } else {
            Ok(rows)
        }
    }

    /// The result of `update` from the row the store returned: no row means
    /// that no person has the identifier.
    pub fn after_update(row: Option<Person>) -> (r: Result<Person, PersonError>)
        ensures
            match row {
                Some(p) => r == Ok::<Person, PersonError>(p),
                None => r == Err::<Person, PersonError>(PersonError::NotFound),
            },
    {
        match row {
            Some(p) => Ok(p),
            None => Err(PersonError::NotFound),
        }
    }
}

} // verus!
