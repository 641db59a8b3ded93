use vstd::prelude::*;
use vstd::string::StrSliceExecFns;
use vstd::string::StringExecFns;

use crate::store::ShortlinkStore;
use crate::codegen::{generate_shortlink, is_base62_char, is_code, salt_view, shortlink_code};

verus! {

/// The character whose code is one above `c`'s low byte, wrapping from 255 to 0.
pub open spec fn next_char(c: char) -> char {
    (((c as u8) as nat + 1) % 256) as u8 as char
}

fn next_char_exec(c: char) -> (r: char)
    ensures
        r == next_char(c),
{
    let b = c as u8;
    if b == 255 {
        0u8 as char
    } else {
        (b + 1) as char
    }
}

/// Relies on `String::push`: appends one character.
#[verifier::external_body]
pub(crate) fn push_char(s: &mut String, c: char)
    ensures
        final(s)@ == old(s)@.push(c),
{
    s.push(c)
}

/// A candidate with its last character advanced by one.
pub open spec fn bump_last(code: Seq<char>) -> Seq<char> {
    if code.len() == 0 {
        code
    } else {
        code.drop_last().push(next_char(code.last()))
    }
}

/// The candidate tried after `k` collisions, starting from `first`.
pub open spec fn candidate_at(first: Seq<char>, k: nat) -> Seq<char>
    decreases k,
{
    if k == 0 {
        first
    } else {
        bump_last(candidate_at(first, (k - 1) as nat))
    }
}

/// Every one of the first `n` candidates is taken.
pub open spec fn all_taken(taken: Set<Seq<char>>, first: Seq<char>, n: nat) -> bool {
    forall|k: nat| k < n ==> #[trigger] taken.contains(candidate_at(first, k))
}

/// Advances the last character of a candidate by one.
pub fn bump_last_char(code: &String) -> (r: String)
    ensures
        r@ == bump_last(code@),
{
    let n = code.as_str().unicode_len();
    if n == 0 {
        return code.clone();
    }
    let last = code.as_str().get_char(n - 1);
    let mut r = code.as_str().substring_char(0, n - 1).to_owned();
    push_char(&mut r, next_char_exec(last));
    proof {
        assert(r@ =~= bump_last(code@));
    }
    r
}

/// The largest retry budget: the last character of a candidate runs from `A` up to
/// `Z`, so every candidate stays within the 62 symbols.
pub const MAX_HASH_RETRIES: u16 = 26;

/// The code that a candidate search starts from: a code one character shorter than
/// `code_length`, generated for `url` salted with `salt`, followed by `A` (just `A`
/// for a length of one).
pub open spec fn first_candidate(url: Seq<char>, salt: Seq<char>, code_length: usize) -> Seq<char> {
    if code_length <= 1 {
        seq!['A']
    } else {
        shortlink_code(url, Some(salt), Some((code_length - 1) as usize)).push('A')
    }
}

/// Builds the first candidate for `url`, salted with `salt`.
pub fn initial_candidate(url: &str, salt: &str, code_length: usize) -> (r: String)
    requires
        1 <= code_length <= 16,
    ensures
        r@ == first_candidate(url@, salt@, code_length),
        is_code(r@, code_length as nat),
        r@.last() == 'A',
{
    let mut code = if code_length == 1 {
        String::new()
    } else {
        generate_shortlink(url, Some(salt), Some(code_length - 1))
    };
    assert(salt_view(Some(salt)) == Some(salt@));
    let ghost prefix = code@;
    push_char(&mut code, 'A');
    assert(code@ =~= first_candidate(url@, salt@, code_length));
    assert(is_code(code@, code_length as nat)) by {
        assert forall|i: int| 0 <= i < code@.len() implies #[trigger] is_base62_char(code@[i]) by {
            if i < prefix.len() {
                assert(code@[i] == prefix[i]);
            }
        }
    }
    code
}

/// The `k`-th candidate from a code ending in `A` ends in the `k`-th letter after `A`.
proof fn lemma_candidate_last(first: Seq<char>, k: nat)
    requires
        first.len() > 0,
        first.last() == 'A',
        k < 26,
    ensures
        candidate_at(first, k) == first.drop_last().push((65 + k) as u8 as char),
    decreases k,
{
    if k > 0 {
        lemma_candidate_last(first, (k - 1) as nat);
        let prev = first.drop_last().push((65 + k - 1) as u8 as char);
        assert(prev.drop_last() =~= first.drop_last());
        assert(bump_last(prev) =~= first.drop_last().push((65 + k) as u8 as char));
    }
}

/// Within the retry budget, every candidate that starts from a code ending in `A`
/// is still a code of the same length over the 62 symbols.
pub proof fn candidate_stays_code(first: Seq<char>, k: nat, length: nat)
    requires
        is_code(first, length),
        length >= 1,
        first.last() == 'A',
        k < MAX_HASH_RETRIES,
    ensures
        is_code(candidate_at(first, k), length),
{
    lemma_candidate_last(first, k);
    let c = candidate_at(first, k);
    assert forall|i: int| 0 <= i < c.len() implies #[trigger] is_base62_char(c[i]) by {
        if i < c.len() - 1 {
            assert(c[i] == first[i]);
        }
    }
}

/// What a candidate search asks for next.
pub enum Step {
    /// Look the code up in the store, then report with `Resolver::on_lookup`.
    Probe(String),
    /// The code was free when it was looked up.
    Reserved(String),
    /// Every candidate of the budget was taken; holds the number tried.
    Exhausted(u16),
}

/// The decisions of a bounded candidate search, one store lookup at a time.
pub struct Resolver {
    pub candidate: String,
    pub attempts: u16,
    pub max_attempts: u16,
    pub first: Ghost<Seq<char>>,
}

impl Resolver {
    pub open spec fn wf(&self) -> bool {
        &&& self.attempts <= self.max_attempts
        &&& self.candidate@ == candidate_at(self.first@, self.attempts as nat)
    }

    /// Starts a search from `first` that tries at most `max_attempts` candidates.
    pub fn new(first: String, max_attempts: u16) -> (r: Resolver)
        ensures
            r.wf(),
            r.first@ == first@,
            r.attempts == 0,
            r.max_attempts == max_attempts,
    {
        let ghost f = first@;
        Resolver { candidate: first, attempts: 0, max_attempts, first: Ghost(f) }
    }

    /// The first step of the search: probe the first candidate, or give up at once
    /// when the budget is zero.
    pub fn first_step(&self) -> (r: Step)
        requires
            self.wf(),
        ensures
            self.attempts < self.max_attempts ==> r == Step::Probe(self.candidate),
            self.attempts >= self.max_attempts ==> r == Step::Exhausted(self.attempts),
            r matches Step::Probe(c) ==> self.attempts < self.max_attempts && c@ == candidate_at(
                self.first@,
                self.attempts as nat,
            ),
    {
        if self.attempts < self.max_attempts {
            Step::Probe(self.candidate.clone())
        } else {
            Step::Exhausted(self.attempts)
        }
    }

    /// Takes the answer of a lookup of the current candidate. A free candidate is
    /// reserved; a taken one is advanced by one character code, and the search goes
    /// on while the budget lasts.
    pub fn on_lookup(&mut self, taken: bool) -> (r: Step)
        requires
            old(self).wf(),
            old(self).attempts < old(self).max_attempts,
        ensures
            final(self).wf(),
            final(self).first == old(self).first,
            final(self).max_attempts == old(self).max_attempts,
            !taken ==> r == Step::Reserved(old(self).candidate) && final(self).attempts == old(
                self,
            ).attempts,
            taken ==> final(self).attempts == old(self).attempts + 1,
            taken && final(self).attempts < final(self).max_attempts ==> r == Step::Probe(
                final(self).candidate,
            ),
            taken && final(self).attempts == final(self).max_attempts ==> r == Step::Exhausted(
                final(self).attempts,
            ),
            r matches Step::Probe(c) ==> final(self).attempts < final(self).max_attempts && c@
                == candidate_at(final(self).first@, final(self).attempts as nat),
    {
        if !taken {
            return Step::Reserved(self.candidate.clone());
        }
        self.candidate = bump_last_char(&self.candidate);
        self.attempts = self.attempts + 1;
        if self.attempts < self.max_attempts {
            Step::Probe(self.candidate.clone())
        } else {
            Step::Exhausted(self.attempts)
        }
    }
}

/// Why no code could be reserved.
#[derive(Debug, PartialEq, Eq, Structural)]
pub enum ResolveError {
    /// Every candidate of the budget was taken; holds the number tried.
    RetryBudgetExhausted { attempts: u16 },
}

/// Searches for a free code, starting from `first` and advancing the last character on
/// each collision, trying at most `max_attempts` candidates. It fails exactly when all
/// of them are taken; a code it returns is not in the store, and every candidate before
/// it is.
pub fn reserve_code(store: &ShortlinkStore, first: String, max_attempts: u16) -> (r: Result<String, ResolveError>)
    requires
        store.wf(),
        max_attempts <= MAX_HASH_RETRIES,
    ensures
        r is Err <==> all_taken(store@.dom(), first@, max_attempts as nat),
        r matches Err(e) ==> e == (ResolveError::RetryBudgetExhausted { attempts: max_attempts }),
        r matches Ok(c) ==> !store@.contains_key(c@) && exists|k: nat|
            k < max_attempts && c@ == candidate_at(first@, k) && all_taken(
                store@.dom(),
                first@,
                k,
            ),
{
    let ghost f = first@;
    let mut resolver = Resolver::new(first, max_attempts);
    while resolver.attempts < resolver.max_attempts
        invariant
            store.wf(),
            resolver.wf(),
            resolver.first@ == f,
            f == first@,
            resolver.max_attempts == max_attempts,
            all_taken(store@.dom(), f, resolver.attempts as nat),
        decreases resolver.max_attempts - resolver.attempts,
    {
        let ghost k = resolver.attempts as nat;
        let ghost cand = resolver.candidate@;
        let taken = store.contains(resolver.candidate.as_str());
        match resolver.on_lookup(taken) {
            Step::Reserved(c) => {
                assert(c@ == cand && cand == candidate_at(f, k));
                assert(!store@.dom().contains(candidate_at(f, k)));
                assert(!all_taken(store@.dom(), f, max_attempts as nat));
                assert(c@ == candidate_at(f, k) && all_taken(store@.dom(), f, k));
                return Ok(c);
            },
            _ => {
                assert forall|j: nat| j < resolver.attempts implies #[trigger] store@.dom().contains(
                    candidate_at(f, j),
                ) by {
                    if j < k {
                        assert(store@.dom().contains(candidate_at(f, j)));
                    }
                }
            },
        }
    }
    Err(ResolveError::RetryBudgetExhausted { attempts: resolver.attempts })
}

} // verus!
