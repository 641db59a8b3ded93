use vstd::prelude::*;
use vstd::string::StringExecFns;

pub use crate::codegen::generate_shortlink;
use crate::config::Config;
use crate::codegen::is_code;
use crate::resolver::{all_taken, candidate_at, candidate_stays_code, first_candidate, initial_candidate, reserve_code, ResolveError};
use crate::store::{LinkEntry, NewShortlink, ShortLink, ShortlinkStore};
use crate::time::{naive_display, naive_utc_text, utc_display, utc_text, Timestamp, SECS_PER_DAY};

verus! {

/// What a successful creation hands back: the public short link and when it expires.
pub struct ShortlinkResponse {
    pub shortlink: String,
    pub expire_at: String,
}

/// Why a short link could not be created.
#[derive(Debug, PartialEq, Eq, Structural)]
pub enum CreateError {
    /// The target URL is empty.
    EmptyUrl,
    /// Every candidate code of the budget was taken; holds the number tried.
    Conflict { attempts: u16 },
    /// The current time, or the expiry, lies outside the range that can be written.
    TimeOutOfRange,
}

/// Why a code could not be followed.
#[derive(Debug, PartialEq, Eq, Structural)]
pub enum RedirectError {
    /// No live link has this code.
    NotFound,
}

/// The public short link for a code: the base URL, a slash, and the code.
pub open spec fn shortlink_text(base_url: Seq<char>, hash: Seq<char>) -> Seq<char> {
    base_url.push('/') + hash
}

/// The expiry of a link created at `now` that lives `days` days.
pub open spec fn expiry_secs(now: Timestamp, days: u16) -> int {
    now.secs + days * SECS_PER_DAY
}

/// Where a code leads in a store at time `now`: the target of a link with that code
/// that has not expired yet.
pub open spec fn redirect_target(links: Map<Seq<char>, LinkEntry>, hash: Seq<char>, now: Timestamp) -> Option<Seq<char>> {
    if links.contains_key(hash) && now.before(links[hash].1) {
        Some(links[hash].0)
    } else {
        None
    }
}

/// The target URL that a redirect result carries, if any.
pub open spec fn redirect_view(r: Result<String, RedirectError>) -> Option<Seq<char>> {
    match r {
        Ok(u) => Some(u@),
        Err(_) => None,
    }
}

/// The target of a found link at time `now`: its URL, unless it has expired.
pub open spec fn found_target(found: Option<&ShortLink>, now: Timestamp) -> Option<Seq<char>> {
    match found {
        Some(l) => if now.before(l.expire_at) {
            Some(l.url@)
        } else {
            None
        },
        None => None,
    }
}

/// Checks a target URL before creation: only an empty one is refused.
pub fn validate_url(url: &str) -> (r: Result<(), CreateError>)
    ensures
        url@.len() == 0 ==> r == Err::<(), CreateError>(CreateError::EmptyUrl),
        url@.len() > 0 ==> r is Ok,
{
    if url.is_empty() {
        Err(CreateError::EmptyUrl)
    } else {
        Ok(())
    }
}

/// Builds the public short link for `hash` under `base_url`.
pub fn shortlink_url(base_url: &str, hash: &str) -> (r: String)
    ensures
        r@ == shortlink_text(base_url@, hash@),
{
    let slash = "/";
    proof {
        reveal_strlit("/");
    }
    let r = String::from_str(base_url).concat(slash).concat(hash);
    assert(r@ =~= shortlink_text(base_url@, hash@));
    r
}

/// Decides a lookup's answer: the target of the link that was found, unless it has
/// expired by `now`.
pub fn link_target(found: Option<&ShortLink>, now: &Timestamp) -> (r: Result<String, RedirectError>)
    ensures
        redirect_view(r) == found_target(found, *now),
{
    match found {
        Some(l) => {
            if now.is_before(&l.expire_at) {
                Ok(l.url.clone())
            } else {
                Err(RedirectError::NotFound)
            }
        },
        None => Err(RedirectError::NotFound),
    }
}

/// Follows `hash`: the target URL of its link, or `NotFound` when no link has this
/// code or the link has expired.
pub fn redirect_shortlink(store: &ShortlinkStore, hash: &str, now: &Timestamp) -> (r: Result<String, RedirectError>)
    requires
        store.wf(),
    ensures
        redirect_view(r) == redirect_target(store@, hash@, *now),
{
    link_target(store.find(hash), now)
}

/// The instant a link created at `now` expires, `days` days later.
pub open spec fn expiry_stamp(now: Timestamp, days: u16) -> Timestamp {
    Timestamp { secs: expiry_secs(now, days) as i64, nanos: now.nanos }
}

/// The salt a creation at `now` mixes into its first candidate: the time as text.
pub open spec fn salt_at(now: Timestamp) -> Option<Seq<char>> {
    utc_display(now.secs, now.nanos)
}

/// The first candidate for a creation of a link to `url` at `now`.
pub open spec fn first_for(config: &Config, url: Seq<char>, now: Timestamp) -> Seq<char> {
    first_candidate(url, salt_at(now)->Some_0, config.shortlink_length)
}

/// The creation stored `url` under the `k`-th candidate, the first free one, a code of
/// the configured length over the 62 symbols, and answered with that code's public link.
pub open spec fn stored_link(
    before: Map<Seq<char>, LinkEntry>,
    after: Map<Seq<char>, LinkEntry>,
    config: &Config,
    url: Seq<char>,
    now: Timestamp,
    shortlink: Seq<char>,
) -> bool {
    let first = first_for(config, url, now);
    exists|k: nat|
        #![trigger candidate_at(first, k)]
        k < config.shortlink_max_hash_retries && all_taken(before.dom(), first, k)
            && !before.contains_key(candidate_at(first, k)) && is_code(
            candidate_at(first, k),
            config.shortlink_length as nat,
        ) && after == before.insert(
            candidate_at(first, k),
            (url, expiry_stamp(now, config.shortlink_expire_days)),
        ) && shortlink == shortlink_text(config.shortlink_base_url@, candidate_at(first, k))
}

/// Creates a short link to `url` at time `now`: finds a free code, stores the link
/// with its expiry, and answers with the public link and the expiry as text.
pub fn create_shortlink(store: &mut ShortlinkStore, config: &Config, url: &str, now: &Timestamp) -> (r: Result<ShortlinkResponse, CreateError>)
    requires
        old(store).wf(),
        config.valid(),
    ensures
        final(store).wf(),
        r is Err ==> final(store)@ == old(store)@,
        url@.len() == 0 ==> r == Err::<ShortlinkResponse, CreateError>(CreateError::EmptyUrl),
        url@.len() > 0 && salt_at(*now) is None ==> r == Err::<ShortlinkResponse, CreateError>(
            CreateError::TimeOutOfRange,
        ),
        url@.len() > 0 && salt_at(*now) is Some && all_taken(
            old(store)@.dom(),
            first_for(config, url@, *now),
            config.shortlink_max_hash_retries as nat,
        ) ==> r == Err::<ShortlinkResponse, CreateError>(
            (CreateError::Conflict { attempts: config.shortlink_max_hash_retries }),
        ),
        url@.len() > 0 && salt_at(*now) is Some && !all_taken(
            old(store)@.dom(),
            first_for(config, url@, *now),
            config.shortlink_max_hash_retries as nat,
        ) && expiry_secs(*now, config.shortlink_expire_days) <= i64::MAX && naive_display(
            expiry_stamp(*now, config.shortlink_expire_days).secs,
            now.nanos,
        ) is Some ==> r is Ok,
        url@.len() > 0 && salt_at(*now) is Some && !all_taken(
            old(store)@.dom(),
            first_for(config, url@, *now),
            config.shortlink_max_hash_retries as nat,
        ) && !(expiry_secs(*now, config.shortlink_expire_days) <= i64::MAX && naive_display(
            expiry_stamp(*now, config.shortlink_expire_days).secs,
            now.nanos,
        ) is Some) ==> r == Err::<ShortlinkResponse, CreateError>(CreateError::TimeOutOfRange),
        r matches Ok(resp) ==> url@.len() > 0 && salt_at(*now) is Some && stored_link(
            old(store)@,
            final(store)@,
            config,
            url@,
            *now,
            resp.shortlink@,
        ) && Some(resp.expire_at@) == naive_display(
            expiry_stamp(*now, config.shortlink_expire_days).secs,
            now.nanos,
        ),
{
    match validate_url(url) {
        Ok(()) => {},
        Err(e) => {
            return Err(e);
        },
    }
    let salt = match utc_text(now) {
        Some(s) => s,
        None => {
            return Err(CreateError::TimeOutOfRange);
        },
    };
    let first = initial_candidate(url, salt.as_str(), config.shortlink_length);
    let ghost f = first@;
    assert(f == first_for(config, url@, *now));
    let hash = match reserve_code(store, first, config.shortlink_max_hash_retries) {
        Ok(h) => h,
        Err(ResolveError::RetryBudgetExhausted { attempts }) => {
            return Err(CreateError::Conflict { attempts });
        },
    };
    let expire_at = match now.plus_days(config.shortlink_expire_days) {
        Some(t) => t,
        None => {
            return Err(CreateError::TimeOutOfRange);
        },
    };
    let expire_text = match naive_utc_text(&expire_at) {
        Some(t) => t,
        None => {
            return Err(CreateError::TimeOutOfRange);
        },
    };
    let shortlink = shortlink_url(config.shortlink_base_url.as_str(), hash.as_str());
    let ghost before = store@;
    let ghost h = hash@;
    assert(expire_at == expiry_stamp(*now, config.shortlink_expire_days));
    store.insert(NewShortlink { hash, url: url.to_owned(), expire_at });
    proof {
        let k = choose|k: nat|
            k < config.shortlink_max_hash_retries && h == candidate_at(f, k) && all_taken(
                before.dom(),
                f,
                k,
            );
        assert(candidate_at(f, k) == h);
        candidate_stays_code(f, k, config.shortlink_length as nat);
    }
    Ok(ShortlinkResponse { shortlink, expire_at: expire_text })
}

/// Create, then redirect: once a creation has stored a link, following its code
/// before the link expires leads to exactly the URL it was created for.
pub proof fn created_link_redirects(
    before: Map<Seq<char>, LinkEntry>,
    after: Map<Seq<char>, LinkEntry>,
    config: &Config,
    url: Seq<char>,
    now: Timestamp,
    shortlink: Seq<char>,
    later: Timestamp,
)
    requires
        stored_link(before, after, config, url, now, shortlink),
        later.before(expiry_stamp(now, config.shortlink_expire_days)),
    ensures
        exists|hash: Seq<char>|
            shortlink == shortlink_text(config.shortlink_base_url@, hash) && redirect_target(
                after,
                hash,
                later,
            ) == Some(url),
{
    let first = first_for(config, url, now);
    let k = choose|k: nat|
        #![trigger candidate_at(first, k)]
        k < config.shortlink_max_hash_retries && all_taken(before.dom(), first, k)
            && !before.contains_key(candidate_at(first, k)) && is_code(
            candidate_at(first, k),
            config.shortlink_length as nat,
        ) && after == before.insert(
            candidate_at(first, k),
            (url, expiry_stamp(now, config.shortlink_expire_days)),
        ) && shortlink == shortlink_text(config.shortlink_base_url@, candidate_at(first, k));
    let hash = candidate_at(first, k);
    assert(redirect_target(after, hash, later) == Some(url));
}

/// A code that no stored link has is answered with not-found.
pub proof fn unknown_code_not_found(links: Map<Seq<char>, LinkEntry>, hash: Seq<char>, now: Timestamp)
    requires
        !links.contains_key(hash),
    ensures
        redirect_target(links, hash, now) is None,
{
}

} // verus!
