//! The identifier hook: checks the syntax of an e-mail address.
use vstd::prelude::*;
use vstd::string::*;

use crate::person::{Action, AuditRecord, Person, PersonError, PersonHook, PersonRequest};

verus! {

/// Checks that the identifier field has the shape `local@label(.label)*`.
pub struct Email;

/// A character of Unicode's White_Space property.
pub open spec fn is_white_space(c: char) -> bool {
    let u = c as u32;
    (0x9 <= u <= 0xd) || u == 0x20 || u == 0x85 || u == 0xa0 || u == 0x1680 || (0x2000 <= u
        <= 0x200a) || u == 0x2028 || u == 0x2029 || u == 0x202f || u == 0x205f || u == 0x3000
}

/// An ASCII letter, digit or underscore.
pub open spec fn is_word_char(c: char) -> bool {
    ('a' <= c && c <= 'z') || ('A' <= c && c <= 'Z') || ('0' <= c && c <= '9') || c == '_'
}

/// One or more characters, none of them `@` or white space.
pub open spec fn is_local_part(s: Seq<char>) -> bool {
    &&& s.len() > 0
    &&& forall|i: int| 0 <= i < s.len() ==> #[trigger] s[i] != '@' && !is_white_space(s[i])
}

/// One or more labels of word characters, separated by single dots.
pub open spec fn is_domain(s: Seq<char>) -> bool {
    &&& s.len() > 0
    &&& forall|i: int| 0 <= i < s.len() ==> is_word_char(#[trigger] s[i]) || s[i] == '.'
    &&& s[0] != '.'
    &&& s.last() != '.'
    &&& forall|i: int| 0 <= i < s.len() - 1 ==> !(#[trigger] s[i] == '.' && s[i + 1] == '.')
}

/// A local part, an `@`, and a domain.
pub open spec fn is_email(s: Seq<char>) -> bool {
    exists|i: int|
        0 <= i < s.len() && s[i] == '@' && is_local_part(#[trigger] s.take(i)) && is_domain(
            s.skip(i + 1),
        )
}

/// With `at` the first `@` of `s`, only `at` can split `s` into a local part
/// and a domain.
proof fn lemma_split_at_first(s: Seq<char>, at: int)
    requires
        0 <= at < s.len(),
        s[at] == '@',
        forall|k: int| 0 <= k < at ==> s[k] != '@',
        !(is_local_part(s.take(at)) && is_domain(s.skip(at + 1))),
    ensures
        !is_email(s),
{
    if is_email(s) {
        let i = choose|i: int|
            0 <= i < s.len() && s[i] == '@' && is_local_part(#[trigger] s.take(i)) && is_domain(
                s.skip(i + 1),
            );
        if i > at {
            assert(s.take(i)[at] == '@');
        }
    }
}

/// An identifier with no `@`, with more than one `@`, or with white space
/// before an `@` is not a valid address.
pub proof fn lemma_malformed_rejected(s: Seq<char>)
    requires
        (forall|i: int| 0 <= i < s.len() ==> s[i] != '@') || (exists|i: int, j: int|
            0 <= i < j < s.len() && #[trigger] s[i] == '@' && #[trigger] s[j] == '@') || (exists|
            i: int,
            j: int,
        | 0 <= i < j < s.len() && is_white_space(#[trigger] s[i]) && #[trigger] s[j] == '@'),
    ensures
        !is_email(s),
{
    if is_email(s) {
        let w = choose|w: int|
            0 <= w < s.len() && s[w] == '@' && is_local_part(#[trigger] s.take(w)) && is_domain(
                s.skip(w + 1),
            );
        let local = s.take(w);
        let dom = s.skip(w + 1);
        if exists|i: int, j: int| 0 <= i < j < s.len() && #[trigger] s[i] == '@' && #[trigger] s[j] == '@' {
            let (i, j) = choose|i: int, j: int|
                0 <= i < j < s.len() && #[trigger] s[i] == '@' && #[trigger] s[j] == '@';
            if i < w {
                assert(local[i] == '@');
            } else if i == w {
                assert(dom[j - w - 1] == '@');
            } else {
                assert(dom[i - w - 1] == '@');
            }
        } else if exists|i: int, j: int|
            0 <= i < j < s.len() && is_white_space(#[trigger] s[i]) && #[trigger] s[j] == '@' {
            let (i, j) = choose|i: int, j: int|
                0 <= i < j < s.len() && is_white_space(#[trigger] s[i]) && #[trigger] s[j] == '@';
            if i < w {
                assert(local[i] == s[i]);
            } else {
                assert(dom[i - w - 1] == s[i]);
            }
        }
    }
}

fn white_space(c: char) -> (r: bool)
    ensures
        r == is_white_space(c),
{
    let u = c as u32;
    (0x9 <= u && u <= 0xd) || u == 0x20 || u == 0x85 || u == 0xa0 || u == 0x1680 || (0x2000 <= u
        && u <= 0x200a) || u == 0x2028 || u == 0x2029 || u == 0x202f || u == 0x205f || u == 0x3000
}

fn word_char(c: char) -> (r: bool)
    ensures
        r == is_word_char(c),
{
    ('a' <= c && c <= 'z') || ('A' <= c && c <= 'Z') || ('0' <= c && c <= '9') || c == '_'
}

/// Whether `s` is a syntactically valid address.
pub fn valid_email(s: &str) -> (r: bool)
    ensures
        r == is_email(s@),
{
    let n = s.unicode_len();
    let mut at: usize = 0;
    while at < n && s.get_char(at) != '@'
        invariant
            n == s@.len(),
            at <= n,
            forall|k: int| 0 <= k < at ==> s@[k] != '@',
        decreases n - at,
    {
        at = at + 1;
    }
    if at == n {
        assert(!is_email(s@));
        return false;
    }
    if at == 0 {
        proof {
            lemma_split_at_first(s@, 0);
        }
        return false;
    }
    let mut k: usize = 0;
    while k < at
        invariant
            n == s@.len(),
            at < n,
            s@[at as int] == '@',
            forall|j: int| 0 <= j < at ==> s@[j] != '@',
            k <= at,
            forall|j: int| 0 <= j < k ==> s@[j] != '@' && !is_white_space(s@[j]),
        decreases at - k,
    {
        if white_space(s.get_char(k)) {
            assert(s@.take(at as int)[k as int] == s@[k as int]);
            proof {
                lemma_split_at_first(s@, at as int);
            }
            return false;
        }
        k = k + 1;
    }
    let ghost local = s@.take(at as int);
    assert(is_local_part(local)) by {
        assert forall|i: int| 0 <= i < local.len() implies #[trigger] local[i] != '@' && !is_white_space(local[i]) by {
            assert(local[i] == s@[i]);
        }
    }
    let ghost dom = s@.skip(at + 1);
    let start = at + 1;
    if start == n || s.get_char(start) == '.' || s.get_char(n - 1) == '.' {
        proof {
            lemma_split_at_first(s@, at as int);
        }
        return false;
    }
    let mut k: usize = start;
    while k < n
        invariant
            n == s@.len(),
            at < n,
            start == at + 1,
            s@[at as int] == '@',
            forall|j: int| 0 <= j < at ==> s@[j] != '@',
            start <= k <= n,
            dom == s@.skip(start as int),
            forall|j: int| start <= j < k ==> is_word_char(s@[j]) || s@[j] == '.',
            forall|j: int| start <= j < k - 1 ==> !(#[trigger] s@[j] == '.' && s@[j + 1] == '.'),
        decreases n - k,
    {
        let c = s.get_char(k);
        if !(word_char(c) || c == '.') {
            assert(dom[k - start] == c);
            proof {
                lemma_split_at_first(s@, at as int);
            }
            return false;
        }
        if c == '.' && k > start && s.get_char(k - 1) == '.' {
            assert(dom[k - 1 - start] == '.' && dom[k - start] == '.');
            proof {
                lemma_split_at_first(s@, at as int);
            }
            return false;
        }
        k = k + 1;
    }
    assert(is_domain(dom)) by {
        assert forall|i: int| 0 <= i < dom.len() implies is_word_char(#[trigger] dom[i]) || dom[i] == '.' by {
            assert(dom[i] == s@[start + i]);
        }
        assert forall|i: int| 0 <= i < dom.len() - 1 implies !(#[trigger] dom[i] == '.' && dom[i + 1] == '.') by {
            assert(dom[i] == s@[start + i]);
            assert(dom[i + 1] == s@[start + i + 1]);
        }
    }
    assert(is_local_part(s@.take(at as int)));
    true
}

impl PersonHook for Email {
    open spec fn validate_spec(&self, request: PersonRequest, action: Action) -> Result<(), PersonError> {
        if is_email(request.email@) {
            Ok(())
        } else {
            Err(PersonError::Validation)
        }
    }

    open spec fn prepare_spec(
        &self,
        before: PersonRequest,
        action: Action,
        after: PersonRequest,
        done: bool,
    ) -> bool {
        done && after == before
    }

    open spec fn prepare_id_spec(&self, id: u128, action: Action) -> Result<u128, PersonError> {
        Ok(id)
    }

    open spec fn processed_spec(&self, person: Person, action: Action) -> Option<AuditRecord> {
        None
    }

    /// Validates the syntax of the e-mail address.
    fn validate(&self, request: &PersonRequest, action: Action) -> (r: Result<(), PersonError>) {
        if valid_email(request.email.as_str()) {
            Ok(())
        } else {
            Err(PersonError::Validation)
        }
    }

    /// No preprocessing is done of emails.
    fn prepare(&self, request: &mut PersonRequest, action: Action) -> (r: Result<(), PersonError>) {
        Ok(())
    }

    /// No preprocessing is done of identifiers.
    fn prepare_id(&self, id: &mut u128, action: Action) -> (r: Result<(), PersonError>) {
        Ok(())
    }

    /// No postprocessing is done of emails.
    fn processed(&self, person: &Person, action: Action) -> (r: Option<AuditRecord>) {
        None
    }
}

} // verus!
