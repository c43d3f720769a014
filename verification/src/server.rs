//! The rules of the internal HTTP bridge: how it is configured, whom it lets
//! in, and what it answers. Receiving requests and sending replies is left to
//! the program around it.

use crate::clock::Span;
use crate::error::KvError;
use crate::rate_limiter::RateLimiter;
use crate::revocation::RevocationCache;
use subtle::ConstantTimeEq;
use vstd::prelude::*;

verus! {

/// The longest window, in seconds, that a caller may ask for.
pub const WINDOW_SECS_MAX: u64 = 86_400;

/// The port to listen on where none is configured.
pub const PORT_DEFAUT: u16 = 3210;

/// How many requests are served at once where no limit is configured.
pub const LIMITE_CONCURRENCE_DEFAUT: usize = 256;

/// Why an environment variable has no value.
#[derive(Debug, Clone, Copy, PartialEq, Eq, Structural)]
pub enum VarError {
    /// The variable is not set.
    NotPresent,
    /// Its value is not Unicode.
    NotUnicode,
}

/// The body of a reply.
#[derive(Debug)]
pub enum Body {
    /// What went wrong.
    Error(String),
    /// Whether the attempt is allowed.
    Allowed(bool),
    /// The cached version, or that there is none.
    Version(Option<u32>),
    /// The write was done.
    Written,
    /// The service of this name is up.
    Healthy(&'static str),
}

/// A reply.
#[derive(Debug)]
pub struct Reply {
    /// The HTTP status.
    pub status: u16,
    /// Whether the reply asks for a bearer token (`WWW-Authenticate: Bearer`).
    pub challenge: bool,
    /// The body.
    pub body: Body,
}

impl Reply {
    /// Whether this is an error of the given status and text.
    pub open spec fn is_error(self, status: u16, text: Seq<char>) -> bool {
        &&& self.status == status
        &&& !self.challenge
        &&& self.body matches Body::Error(message)
        &&& message@ == text
    }

    /// Whether this asks the caller to authenticate.
    pub open spec fn is_challenge(self) -> bool {
        &&& self.status == 401
        &&& self.challenge
        &&& self.body matches Body::Error(message)
        &&& message@ == "authentification requise"@
    }
}

/// The number that a decimal numeral without a sign stands for, if all of
/// `text` are digits.
pub open spec fn digits_value(text: Seq<char>) -> Option<nat>
    decreases text.len(),
{
    if text.len() == 0 {
        Some(0)
    } else {
        match digits_value(text.drop_last()) {
            Some(high) if '0' <= text.last() <= '9' => Some(
                (high * 10 + (text.last() as u32 - '0' as u32)) as nat,
            ),
            _ => None,
        }
    }
}

/// The number that `text` stands for: an optional plus sign and one or more
/// digits, and nothing else.
pub open spec fn decimal(text: Seq<char>) -> Option<nat> {
    let digits = if text.len() > 0 && text[0] == '+' {
        text.skip(1)
    } else {
        text
    };
    if digits.len() == 0 {
        None
    } else {
        digits_value(digits)
    }
}

/// A numeral is read digit by digit, the highest first: a further digit makes
/// ten times the number and the digit, anything else makes it no number. A plus
/// sign in front changes nothing, and without a digit there is no number.
pub proof fn law_numeral_is_read_digit_by_digit(digits: Seq<char>, last: char)
    ensures
        '0' <= last <= '9' && digits_value(digits) is Some ==> digits_value(digits.push(last))
            == Some((digits_value(digits)->0 * 10 + (last as u32 - '0' as u32)) as nat),
        !('0' <= last <= '9') ==> digits_value(digits.push(last)) is None,
        digits_value(digits) is None ==> digits_value(digits.push(last)) is None,
        digits_value(Seq::empty()) == Some(0nat),
        digits.len() > 0 && digits[0] != '+' ==> decimal(digits) == digits_value(digits),
        digits.len() > 0 ==> decimal(seq!['+'] + digits) == digits_value(digits),
        decimal(Seq::empty()) is None,
        decimal(seq!['+']) is None,
{
    assert(digits.push(last).drop_last() =~= digits);
    assert((seq!['+'] + digits).skip(1) =~= digits);
}

/// `str::parse` to a `u16`: an optional plus sign followed by digits only, for
/// a number in range.
#[verifier::external_body]
fn parse_u16(text: &str) -> (number: Option<u16>)
    ensures
        number == match decimal(text@) {
            Some(value) if value <= u16::MAX => Some(value as u16),
            _ => None,
        },
{
    text.parse().ok()
}

/// `str::parse` to a `usize`: an optional plus sign followed by digits only,
/// for a number in range.
#[verifier::external_body]
fn parse_usize(text: &str) -> (number: Option<usize>)
    ensures
        number == match decimal(text@) {
            Some(value) if value <= usize::MAX => Some(value as usize),
            _ => None,
        },
{
    text.parse().ok()
}

/// `str::strip_prefix`: what follows `prefix` in `text`, `None` if `text` does
/// not start with it.
#[verifier::external_body]
fn strip_prefix<'a>(text: &'a str, prefix: &str) -> (rest: Option<&'a str>)
    ensures
        match rest {
            Some(tail) => text@ == prefix@ + tail@,
            None => !prefix@.is_prefix_of(text@),
        },
{
    text.strip_prefix(prefix)
}

/// `subtle`'s `ConstantTimeEq::ct_eq` on byte slices: whether they are equal,
/// in a time that depends on their lengths alone. Only the result is stated,
/// not the time.
#[verifier::external_body]
fn bytes_equal(left: &[u8], right: &[u8]) -> (equal: bool)
    ensures
        equal == (left@ == right@),
{
    bool::from(left.ct_eq(right))
}

/// The port to listen on, from the `PORT` variable: the default where it is
/// missing or no port number.
pub fn port(value: Option<&str>) -> (port: u16)
    ensures
        port == match value {
            Some(text) => match decimal(text@) {
                Some(number) if number <= u16::MAX => number as u16,
                _ => PORT_DEFAUT,
            },
            None => PORT_DEFAUT,
        },
{
    match value {
        Some(text) => match parse_u16(text) {
            Some(number) => number,
            None => PORT_DEFAUT,
        },
        None => PORT_DEFAUT,
    }
}

/// How many requests to serve at once, from the
/// `PAWCHAT_KV_MAX_CONCURRENT_REQUESTS` variable: the default where it is
/// missing or no number.
pub fn limite_concurrence(value: Option<&str>) -> (limit: usize)
    ensures
        limit == match value {
            Some(text) => match decimal(text@) {
                Some(number) if number <= usize::MAX => number as usize,
                _ => LIMITE_CONCURRENCE_DEFAUT,
            },
            None => LIMITE_CONCURRENCE_DEFAUT,
        },
{
    match value {
        Some(text) => match parse_usize(text) {
            Some(number) => number,
            None => LIMITE_CONCURRENCE_DEFAUT,
        },
        None => LIMITE_CONCURRENCE_DEFAUT,
    }
}

/// The path of the `redb` file, from the `PAWCHAT_KV_DB_PATH` variable. Where
/// it is missing or empty there is no file, and the cache lives in memory.
pub fn chemin_db(value: Option<String>) -> (path: Option<String>)
    ensures
        path == if value is Some && value->0@.len() > 0 {
            value
        } else {
            None
        },
{
    match value {
        Some(path) => if path.as_str().is_empty() {
            None
        } else {
            Some(path)
        },
        None => None,
    }
}

/// The shared secret, from the `PAWCHAT_KV_INTERNAL_SECRET` variable. The
/// bridge does not start without one.
pub fn secret_depuis_env(value: Result<String, VarError>) -> (secret: Result<String, &'static str>)
    ensures
        match value {
            Ok(text) if text@.len() > 0 => secret == Ok::<String, &'static str>(text),
            _ => secret is Err && secret->Err_0@
                == "PAWCHAT_KV_INTERNAL_SECRET manquant ou vide"@,
        },
{
    match value {
        Ok(text) => if text.as_str().is_empty() {
            Err("PAWCHAT_KV_INTERNAL_SECRET manquant ou vide")
        } else {
            Ok(text)
        },
        Err(_) => Err("PAWCHAT_KV_INTERNAL_SECRET manquant ou vide"),
    }
}

/// Whether the secret that a caller provides is the configured one. Secrets of
/// one length are compared in constant time.
pub fn secret_valide(configure: &str, fourni: Option<&str>) -> (valid: bool)
    ensures
        valid == (fourni is Some && fourni->0@ == configure@),
{
    match fourni {
        None => false,
        Some(fourni) => {
            proof {
                vstd::utf8::encode_utf8_decode_utf8(fourni@);
                vstd::utf8::encode_utf8_decode_utf8(configure@);
            }
            fourni.len() == configure.len() && bytes_equal(
                fourni.as_bytes(),
                configure.as_bytes(),
            )
        },
    }
}

/// Whether an `Authorization` header carries the secret.
pub open spec fn carries(authorization: Option<Seq<char>>, secret: Seq<char>) -> bool {
    authorization == Some("Bearer "@ + secret)
}

/// The header that carries a secret is `Bearer `, then the secret, whatever the
/// secret is, and no other header: not one with anything before, between or
/// after, and not one with another secret.
pub proof fn law_header_carries_one_secret(header: Seq<char>, secret: Seq<char>, other: Seq<char>)
    ensures
        carries(Some("Bearer "@ + secret), secret),
        carries(Some(header), secret) <==> header == "Bearer "@ + secret,
        carries(Some("Bearer "@ + other), secret) <==> other == secret,
        !carries(None, secret),
{
    assert(("Bearer "@ + other).skip("Bearer "@.len() as int) =~= other);
    assert(("Bearer "@ + secret).skip("Bearer "@.len() as int) =~= secret);
}

/// An error reply has the status and the text that it is made of, and a
/// challenge is a 401 that asks for a bearer token.
pub proof fn law_replies_are_what_they_say(reply: Reply, status: u16, text: Seq<char>)
    ensures
        reply.is_error(status, text) <==> reply.status == status && !reply.challenge
            && reply.body is Error && reply.body->Error_0@ == text,
        reply.is_challenge() <==> reply.status == 401 && reply.challenge && reply.body is Error
            && reply.body->Error_0@ == "authentification requise"@,
{
}

/// Lets a request pass that carries `Authorization: Bearer <secret>`, and
/// answers every other one with a challenge. `authorization` is the header's
/// text, if it is there and is text.
pub fn authentifier(secret: &str, authorization: Option<&str>) -> (passed: Result<(), Reply>)
    ensures
        passed is Ok <==> authorization is Some && carries(Some(authorization->0@), secret@),
        passed is Ok <==> authorization is Some && authorization->0@ == "Bearer "@ + secret@,
        passed matches Err(reply) ==> reply.is_challenge(),
        passed matches Err(reply) ==> {
            &&& reply.status == 401
            &&& reply.challenge
            &&& reply.body matches Body::Error(message)
            &&& message@ == "authentification requise"@
        },
{
    let fourni = match authorization {
        Some(header) => strip_prefix(header, "Bearer "),
        None => None,
    };
    proof {
        if let Some(header) = authorization {
            let prefix = "Bearer "@;
            if fourni is Some {
                assert(header@.skip(prefix.len() as int) =~= fourni->0@);
            }
            assert((prefix + secret@).skip(prefix.len() as int) =~= secret@);
            assert(prefix.is_prefix_of(prefix + secret@));
        }
    }
    if secret_valide(secret, fourni) {
        Ok(())
    } else {
        Err(
            Reply {
                status: 401,
                challenge: true,
                body: Body::Error("authentification requise".to_owned()),
            },
        )
    }
}

/// Lets a request to `chemin` pass, or answers it with a challenge: every path
/// but `/health` demands the secret. The decision is made on the path and the
/// `Authorization` header alone, before the body is looked at.
pub fn garder(chemin: &str, secret: &str, authorization: Option<&str>) -> (passed: Result<
    (),
    Reply,
>)
    ensures
        passed is Ok <==> chemin@ == "/health"@ || (authorization is Some && carries(
            Some(authorization->0@),
            secret@,
        )),
        passed is Ok <==> chemin@ == "/health"@ || (authorization is Some && authorization->0@
            == "Bearer "@ + secret@),
        passed matches Err(reply) ==> reply.is_challenge(),
        passed matches Err(reply) ==> {
            &&& reply.status == 401
            &&& reply.challenge
            &&& reply.body matches Body::Error(message)
            &&& message@ == "authentification requise"@
        },
{
    let public = match strip_prefix(chemin, "/health") {
        Some(rest) => rest.is_empty(),
        None => false,
    };
    assert(public <==> chemin@ == "/health"@) by {
        assert("/health"@ + Seq::empty() =~= "/health"@);
        assert("/health"@.is_prefix_of("/health"@));
    }
    if public {
        Ok(())
    } else {
        authentifier(secret, authorization)
    }
}

/// An error reply.
pub fn erreur(statut: u16, message: &str) -> (reply: Reply)
    ensures
        reply.is_error(statut, message@),
        reply.status == statut,
        !reply.challenge,
        reply.body matches Body::Error(text) && text@ == message@,
{
    Reply { status: statut, challenge: false, body: Body::Error(message.to_owned()) }
}

/// The reply to a request beyond the limit of concurrency.
pub fn gerer_surcharge() -> (reply: Reply)
    ensures
        reply.is_error(503, "serveur sature, reessayer"@),
        reply.status == 503,
        reply.body matches Body::Error(text) && text@ == "serveur sature, reessayer"@,
{
    erreur(503, "serveur sature, reessayer")
}

/// The reply to a probe of the service's health.
pub fn health() -> (reply: Reply)
    ensures
        reply.status == 200,
        !reply.challenge,
        reply.body matches Body::Healthy(service) && service@ == "pawchat-kv-server"@,
{
    Reply { status: 200, challenge: false, body: Body::Healthy("pawchat-kv-server") }
}

/// Why a request to check a rate limit is refused at the boundary, if it is.
pub open spec fn refusal(key: Seq<char>, window_secs: u64) -> Option<Seq<char>> {
    if key.len() == 0 {
        Some("key ne doit pas etre vide"@)
    } else if window_secs == 0 || window_secs > WINDOW_SECS_MAX {
        Some("window_secs hors domaine (1..=86400)"@)
    } else {
        None
    }
}

/// A request reaches the limiter if and only if its key is not empty and its
/// window lies in `1..=86400` seconds; an empty key is what a refused request
/// is told first.
pub proof fn law_request_is_refused_out_of_range(key: Seq<char>, window_secs: u64)
    ensures
        refusal(key, window_secs) is None <==> key.len() > 0 && 1 <= window_secs <= 86_400,
        key.len() == 0 ==> refusal(key, window_secs) == Some("key ne doit pas etre vide"@),
        key.len() > 0 && !(1 <= window_secs <= 86_400) ==> refusal(key, window_secs) == Some(
            "window_secs hors domaine (1..=86400)"@,
        ),
{
}

/// Checks a request before it reaches the limiter: the key must not be empty,
/// and the window must lie in `1..=86400` seconds.
pub fn verifier_requete(key: &str, window_secs: u64) -> (checked: Result<(), Reply>)
    ensures
        checked is Ok <==> refusal(key@, window_secs) is None,
        checked is Ok <==> key@.len() > 0 && 1 <= window_secs <= 86_400,
        checked matches Err(reply) ==> reply.is_error(400, refusal(key@, window_secs)->0),
        checked matches Err(reply) ==> {
            &&& reply.status == 400
            &&& !reply.challenge
            &&& reply.body matches Body::Error(message)
            &&& message@ == if key@.len() == 0 {
                "key ne doit pas etre vide"@
            } else {
                "window_secs hors domaine (1..=86400)"@
            }
        },
{
    if key.is_empty() {
        return Err(erreur(400, "key ne doit pas etre vide"));
    }
    if window_secs == 0 || window_secs > WINDOW_SECS_MAX {
        return Err(erreur(400, "window_secs hors domaine (1..=86400)"));
    }
    Ok(())
}

/// Answers a request to check a rate limit at the moment `now`. A refused
/// request does not touch the limiter.
pub fn rate_limit_check_at(
    limiter: &mut RateLimiter,
    key: &str,
    limit: u32,
    window_secs: u64,
    now: u128,
) -> (reply: Reply)
    ensures
        match refusal(key@, window_secs) {
            Some(text) => reply.is_error(400, text) && final(limiter)@ == old(limiter)@,
            None => {
                let window = (window_secs * 1_000_000_000) as nat;
                &&& reply == (Reply {
                    status: 200,
                    challenge: false,
                    body: Body::Allowed(
                        crate::rate_limiter::allows(old(limiter)@, key@, limit, window, now),
                    ),
                })
                &&& final(limiter)@ == crate::rate_limiter::attempted(
                    old(limiter)@,
                    key@,
                    limit,
                    window,
                    now,
                )
            },
        },
        (reply.status == 200 && reply.body is Allowed) <==> key@.len() > 0 && 1 <= window_secs
            <= 86_400,
        reply.status != 200 ==> reply.status == 400 && reply.body is Error && final(limiter)@
            == old(limiter)@,
        reply.body matches Body::Allowed(allowed) ==> (allowed <==> Set::new(
            |i: int|
                0 <= i < crate::rate_limiter::log_of(old(limiter)@, key@).len() && now
                    < crate::rate_limiter::log_of(old(limiter)@, key@)[i] + window_secs
                    * 1_000_000_000,
        ).len() < limit),
        final(limiter).reached() == old(limiter).reached(),
        final(limiter).started() == old(limiter).started(),
        final(limiter).interval() == old(limiter).interval(),
{
    match verifier_requete(key, window_secs) {
        Err(reply) => reply,
        Ok(()) => {
            proof {
                let log = crate::rate_limiter::log_of(limiter@, key@);
                crate::window::law_hits_in_the_window_decide(
                    log,
                    limit,
                    (window_secs * 1_000_000_000) as nat,
                    now,
                    now,
                );
                assert(Set::new(
                    |i: int| 0 <= i < log.len() && now < log[i] + window_secs * 1_000_000_000,
                ) =~= Set::new(
                    |i: int|
                        0 <= i < log.len() && now < log[i] + (window_secs * 1_000_000_000) as nat,
                ));
            }
            let allowed = limiter.incr_and_check_at(key, limit, Span::from_secs(window_secs), now);
            Reply { status: 200, challenge: false, body: Body::Allowed(allowed) }
        },
    }
}

/// Answers a request to check a rate limit, at the moment that the limiter's
/// clock reads. A refused request does not touch the limiter.
pub fn rate_limit_check(
    limiter: &mut RateLimiter,
    key: &str,
    limit: u32,
    window_secs: u64,
) -> (reply: Reply)
    ensures
        match refusal(key@, window_secs) {
            Some(text) => reply.is_error(400, text) && final(limiter)@ == old(limiter)@
                && final(limiter).reached() == old(limiter).reached(),
            None => {
                let window = (window_secs * 1_000_000_000) as nat;
                let now = final(limiter).reached();
                &&& old(limiter).reached() <= now <= crate::clock::last_moment()
                &&& reply == (Reply {
                    status: 200,
                    challenge: false,
                    body: Body::Allowed(
                        crate::rate_limiter::allows(old(limiter)@, key@, limit, window, now),
                    ),
                })
                &&& final(limiter)@ == crate::rate_limiter::attempted(
                    old(limiter)@,
                    key@,
                    limit,
                    window,
                    now,
                )
            },
        },
        (reply.status == 200 && reply.body is Allowed) <==> key@.len() > 0 && 1 <= window_secs
            <= 86_400,
        reply.status != 200 ==> reply.status == 400 && reply.body is Error && final(limiter)@
            == old(limiter)@,
        reply.status == 200 ==> exists|read: u128|
            {
                &&& #[trigger] crate::clock::elapsed_read(old(limiter).started(), read)
                &&& final(limiter).reached() >= read
                &&& final(limiter).reached() == read || final(limiter).reached()
                    == old(limiter).reached()
            },
        final(limiter).started() == old(limiter).started(),
        final(limiter).interval() == old(limiter).interval(),
{
    match verifier_requete(key, window_secs) {
        Err(reply) => reply,
        Ok(()) => {
            let allowed = limiter.incr_and_check(key, limit, Span::from_secs(window_secs));
            Reply { status: 200, challenge: false, body: Body::Allowed(allowed) }
        },
    }
}

/// Answers a request to read a user's credential version. No version means
/// "not in cache", not "version 0".
pub fn revocation_get(cache: &mut RevocationCache, user_id: u64) -> (reply: Reply)
    requires
        old(cache).wf(),
    ensures
        final(cache).wf(),
        reply == (Reply {
            status: 200,
            challenge: false,
            body: Body::Version(crate::revocation::cached(old(cache)@, user_id)),
        }),
        final(cache)@ == crate::revocation::read(old(cache)@, user_id),
        final(cache).persists() == old(cache).persists(),
{
    let version = cache.get_cv(user_id);
    Reply { status: 200, challenge: false, body: Body::Version(version) }
}

/// Answers a request to set a user's credential version, from what `set_cv`
/// came to.
pub fn revocation_set(outcome: &Result<(), KvError>) -> (reply: Reply)
    ensures
        match *outcome {
            Ok(()) => reply == (Reply { status: 200, challenge: false, body: Body::Written }),
            Err(error) => reply.is_error(500, error.text()),
        },
{
    match outcome {
        Ok(()) => Reply { status: 200, challenge: false, body: Body::Written },
        Err(error) => erreur(500, error.message().as_str()),
    }
}

} // verus!
