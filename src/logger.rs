//! The audit hook: it reports each completed write as a record.
use vstd::prelude::*;

use crate::person::{Action, AuditRecord, Person, PersonError, PersonHook, PersonRequest};

verus! {

/// Produces an audit record (the action and the affected identifier) once an
/// operation has completed; it takes no part in validation or preparation.
pub struct Logger;

impl PersonHook for Logger {
    open spec fn validate_spec(&self, request: PersonRequest, action: Action) -> Result<(), PersonError> {
        Ok(())
    }

    open spec fn prepare_spec(
        &self,
        before: PersonRequest,
        action: Action,
        after: PersonRequest,
        done: bool,
    ) -> bool {
        done && after == before
    }

    open spec fn prepare_id_spec(&self, id: u128, action: Action) -> Result<u128, PersonError> {
        Ok(id)
    }

    open spec fn processed_spec(&self, person: Person, action: Action) -> Option<AuditRecord> {
        Some(AuditRecord { action, email: person.email })
    }

    /// No audit event for validate.
    fn validate(&self, request: &PersonRequest, action: Action) -> (r: Result<(), PersonError>) {
        Ok(())
    }

    /// No audit event for prepare.
    fn prepare(&self, request: &mut PersonRequest, action: Action) -> (r: Result<(), PersonError>) {
        Ok(())
    }

    /// No audit event for prepare_id.
    fn prepare_id(&self, id: &mut u128, action: Action) -> (r: Result<(), PersonError>) {
        Ok(())
    }

    /// Reports the action and the identifier of the person it was applied to.
    fn processed(&self, person: &Person, action: Action) -> (r: Option<AuditRecord>) {
        Some(AuditRecord { action, email: person.email.clone() })
    }
}

} // verus!
