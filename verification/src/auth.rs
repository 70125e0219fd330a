//! SMTP client authentication (RFC 4954): which mechanism the client tries
//! next, from the strongest down, the credentials it sends for a mechanism,
//! and what it makes of the server's replies.

use vstd::prelude::*;
use vstd::string::StringSliceAdditionalSpecFns;
use vstd::utf8::encode_utf8;
use crate::external::{base64_decode, base64_decoded, base64_encode, base64_encoded, mechanism_name, to_mechanism};
use crate::queue::Response;
use crate::text::push_str;

verus! {

/// The `OAUTHBEARER` mechanism (RFC 7628).
pub const AUTH_OAUTHBEARER: u64 = 1u64 << 4u64;
/// The `XOAUTH2` mechanism.
pub const AUTH_XOAUTH2: u64 = 1u64 << 6u64;
/// The `LOGIN` mechanism.
pub const AUTH_LOGIN: u64 = 1u64 << 39u64;
/// The `PLAIN` mechanism (RFC 4616).
pub const AUTH_PLAIN: u64 = 1u64 << 40u64;

/// What a client authenticates with.
pub enum Credentials {
    Basic { username: String, secret: String },
    Bearer { token: String, username: Option<String> },
}

/// Why the client cannot answer for a mechanism.
#[derive(Clone, Copy, Debug, PartialEq, Eq, Structural)]
pub enum AuthError {
    UnsupportedAuthMechanism,
    InvalidChallenge,
    Base64,
}

/// How an authentication attempt with one mechanism ended.
pub enum AuthAttempt {
    /// The server accepted the credentials.
    Accepted,
    /// The server rejected them with this reply.
    Rejected(Response),
    /// The client cannot use the mechanism.
    Unsupported,
    /// The attempt failed otherwise; authentication stops.
    Failed,
}

/// The state of an authentication: the mechanisms left to try, the last
/// rejection, and whether the server refused the credentials themselves.
pub struct AuthState {
    pub available: u64,
    pub last_reply: Option<Response>,
    pub failed: bool,
}

/// How authentication ended.
pub enum AuthOutcome {
    Authenticated,
    /// An attempt failed for another reason than a rejection.
    Aborted,
    /// Every mechanism tried was rejected; this was the last rejection.
    AuthenticationFailed(Response),
    /// No mechanism could be tried.
    UnsupportedAuthMechanism,
}

/// What to do next.
pub enum AuthNext {
    Try(u64),
    Finish(AuthOutcome),
}

/// Whether `n` is a power of two.
pub open spec fn is_pow2(n: u64) -> bool {
    exists|k: nat| k < 64 && n == vstd::arithmetic::power2::pow2(k)
}

/// The mechanisms that credentials can use among those a server offers.
pub open spec fn usable_mechanisms(c: Credentials, offered: u64) -> u64 {
    match c {
        Credentials::Basic { .. } => (AUTH_LOGIN | AUTH_PLAIN) & offered,
        Credentials::Bearer { .. } => (AUTH_OAUTHBEARER | AUTH_XOAUTH2) & offered,
    }
}

/// The largest power of two that is at most `n` (`n > 0`): the strongest
/// mechanism of a set.
pub fn strongest_mechanism(n: u64) -> (r: u64)
    requires
        n > 0,
    ensures
        is_pow2(r),
        r <= n,
        n < 2 * r,
{
    let mut m: u64 = 1;
    let ghost mut k: nat = 0;
    proof {
        vstd::arithmetic::power2::lemma2_to64();
    }
    while m <= n / 2
        invariant
            k < 64,
            m == vstd::arithmetic::power2::pow2(k),
            1 <= m <= n,
        decreases n - m,
    {
        proof {
            vstd::arithmetic::power2::lemma_pow2_unfold(k + 1);
            if k + 1 >= 64 {
                vstd::arithmetic::power2::lemma2_to64();
                assert(false);
            }
        }
        m = m * 2;
        proof {
            k = k + 1;
        }
    }
    m
}

impl AuthState {
    /// The state before the first attempt, with the credentials and the
    /// mechanisms that the server offers.
    pub fn new(credentials: &Credentials, offered: u64) -> (r: Self)
        ensures
            r.available == usable_mechanisms(*credentials, offered),
            r.last_reply is None,
            !r.failed,
    {
        let available = match credentials {
            Credentials::Basic { .. } => (AUTH_LOGIN | AUTH_PLAIN) & offered,
            Credentials::Bearer { .. } => (AUTH_OAUTHBEARER | AUTH_XOAUTH2) & offered,
        };
        AuthState { available, last_reply: None, failed: false }
    }

    /// The next step: the strongest mechanism not yet tried, while the
    /// server has not refused the credentials; else the outcome.
    pub fn next(&mut self) -> (r: AuthNext)
        ensures
            old(self).available != 0 && !old(self).failed ==> r is Try && is_pow2(r->Try_0)
                && r->Try_0 <= old(self).available && old(self).available < 2 * r->Try_0
                && final(self).available == old(self).available ^ r->Try_0
                && final(self).last_reply == old(self).last_reply && final(self).failed == old(self).failed,
            !(old(self).available != 0 && !old(self).failed) ==> *final(self) == *old(self) && r is Finish && match old(self).last_reply {
                Some(reply) => r->Finish_0 == AuthOutcome::AuthenticationFailed(reply),
                None => r->Finish_0 is UnsupportedAuthMechanism,
            },
    {
        if self.available != 0 && !self.failed {
            let m = strongest_mechanism(self.available);
            self.available = self.available ^ m;
            AuthNext::Try(m)
        } else {
            match &self.last_reply {
                Some(reply) => AuthNext::Finish(
                    AuthOutcome::AuthenticationFailed(
                        Response { code: reply.code, esc: reply.esc, message: reply.message.clone() },
                    ),
                ),
                None => AuthNext::Finish(AuthOutcome::UnsupportedAuthMechanism),
            }
        }
    }

    /// Takes in how an attempt ended: success and other failures end the
    /// authentication; a rejection is remembered, and a 535 reply means the
    /// credentials themselves were refused.
    pub fn record(&mut self, attempt: AuthAttempt) -> (r: Option<AuthOutcome>)
        ensures
            attempt is Accepted ==> r == Some(AuthOutcome::Authenticated) && *final(self) == *old(self),
            attempt is Failed ==> r == Some(AuthOutcome::Aborted) && *final(self) == *old(self),
            attempt is Unsupported ==> r is None && *final(self) == *old(self),
            attempt is Rejected ==> r is None && final(self).available == old(self).available
                && final(self).failed == (attempt->Rejected_0.code == 535)
                && final(self).last_reply == Some(attempt->Rejected_0),
    {
        match attempt {
            AuthAttempt::Accepted => Some(AuthOutcome::Authenticated),
            AuthAttempt::Failed => Some(AuthOutcome::Aborted),
            AuthAttempt::Unsupported => None,
            AuthAttempt::Rejected(reply) => {
                self.failed = reply.code == 535;
                self.last_reply = Some(reply);
                None
            },
        }
    }
}

/// `b` with ASCII upper case letters in lower case.
pub open spec fn ascii_lower(b: u8) -> u8 {
    if 65 <= b <= 90 {
        (b + 32) as u8
    } else {
        b
    }
}

/// Whether two byte strings are equal ignoring ASCII case.
pub open spec fn eq_ignore_case(a: Seq<u8>, b: Seq<u8>) -> bool {
    a.len() == b.len() && forall|i: int| 0 <= i < a.len() ==> ascii_lower(#[trigger] a[i]) == ascii_lower(b[i])
}

fn eq_ignore_ascii_case(a: &[u8], b: &[u8]) -> (r: bool)
    ensures
        r == eq_ignore_case(a@, b@),
{
    if a.len() != b.len() {
        return false;
    }
    let mut i: usize = 0;
    while i < a.len()
        invariant
            a@.len() == b@.len(),
            i <= a@.len(),
            forall|j: int| 0 <= j < i ==> ascii_lower(#[trigger] a@[j]) == ascii_lower(b@[j]),
        decreases a.len() - i,
    {
        let x = if 65 <= a[i] && a[i] <= 90 {
            a[i] + 32
        } else {
            a[i]
        };
        let y = if 65 <= b[i] && b[i] <= 90 {
            b[i] + 32
        } else {
            b[i]
        };
        if x != y {
            return false;
        }
        i = i + 1;
    }
    true
}

/// `user name`, as bytes.
pub open spec fn user_name_bytes() -> Seq<u8> {
    seq![117u8, 115u8, 101u8, 114u8, 32u8, 110u8, 97u8, 109u8, 101u8]
}

/// `username`, as bytes.
pub open spec fn username_bytes() -> Seq<u8> {
    seq![117u8, 115u8, 101u8, 114u8, 110u8, 97u8, 109u8, 101u8]
}

/// `password`, as bytes.
pub open spec fn password_bytes() -> Seq<u8> {
    seq![112u8, 97u8, 115u8, 115u8, 119u8, 111u8, 114u8, 100u8]
}

/// What a `LOGIN` challenge asks for, once decoded: the user name, the
/// password, or something the client does not understand. A challenge
/// shorter than nine bytes is not understood.
pub open spec fn login_answer(username: Seq<char>, secret: Seq<char>, challenge: Seq<u8>) -> Result<Seq<char>, AuthError> {
    match base64_decoded(challenge) {
        None => Err(AuthError::Base64),
        Some(c) => if c.len() < 9 {
            Err(AuthError::InvalidChallenge)
        } else if eq_ignore_case(c.take(9), user_name_bytes()) || eq_ignore_case(c.take(8), username_bytes()) {
            Ok(username)
        } else if eq_ignore_case(c.take(8), password_bytes()) {
            Ok(secret)
        } else {
            Err(AuthError::InvalidChallenge)
        },
    }
}

/// The text that credentials answer with for a mechanism, before encoding.
pub open spec fn credential_text(c: Credentials, mechanism: u64, challenge: Seq<u8>) -> Result<Seq<char>, AuthError> {
    match c {
        Credentials::Basic { username, secret } => if mechanism == AUTH_PLAIN {
            Ok(seq!['\0'] + username@ + seq!['\0'] + secret@)
        } else if mechanism == AUTH_LOGIN {
            login_answer(username@, secret@, challenge)
        } else {
            Err(AuthError::UnsupportedAuthMechanism)
        },
        Credentials::Bearer { token, username } => if mechanism == AUTH_XOAUTH2 {
            Ok("user="@ + (match username {
                Some(u) => u@,
                None => Seq::empty(),
            }) + "\x01auth=Bearer "@ + token@ + "\x01\x01"@)
        } else if mechanism == AUTH_OAUTHBEARER {
            Ok(token@)
        } else {
            Err(AuthError::UnsupportedAuthMechanism)
        },
    }
}

fn login_text(username: &String, secret: &String, challenge: &str) -> (r: Result<String, AuthError>)
    ensures
        match login_answer(username@, secret@, challenge.spec_bytes()) {
            Ok(t) => r is Ok && r->Ok_0@ == t,
            Err(e) => r == Err::<String, AuthError>(e),
        },
{
    let decoded = match base64_decode(challenge.as_bytes()) {
        Some(d) => d,
        None => return Err(AuthError::Base64),
    };
    if decoded.len() < 9 {
        return Err(AuthError::InvalidChallenge);
    }
    let user_name: Vec<u8> = vec![117u8, 115u8, 101u8, 114u8, 32u8, 110u8, 97u8, 109u8, 101u8];
    let user: Vec<u8> = vec![117u8, 115u8, 101u8, 114u8, 110u8, 97u8, 109u8, 101u8];
    let pass: Vec<u8> = vec![112u8, 97u8, 115u8, 115u8, 119u8, 111u8, 114u8, 100u8];
    assert(user_name@ == user_name_bytes());
    assert(user@ == username_bytes());
    assert(pass@ == password_bytes());
    let head9 = slice_prefix(decoded.as_slice(), 9);
    let head8 = slice_prefix(decoded.as_slice(), 8);
    if eq_ignore_ascii_case(head9.as_slice(), user_name.as_slice()) || eq_ignore_ascii_case(
        head8.as_slice(),
        user.as_slice(),
    ) {
        Ok(username.clone())
    } else if eq_ignore_ascii_case(head8.as_slice(), pass.as_slice()) {
        Ok(secret.clone())
    } else {
        Err(AuthError::InvalidChallenge)
    }
}

fn slice_prefix(data: &[u8], n: usize) -> (r: Vec<u8>)
    requires
        n <= data@.len(),
    ensures
        r@ == data@.take(n as int),
{
    let mut out: Vec<u8> = Vec::new();
    let mut i: usize = 0;
    while i < n
        invariant
            n <= data@.len(),
            i <= n,
            out@ == data@.take(i as int),
        decreases n - i,
    {
        out.push(data[i]);
        assert(data@.take(i + 1) =~= data@.take(i as int).push(data@[i as int]));
        i = i + 1;
    }
    out
}

/// The Base64 answer of credentials for a mechanism (and, for `LOGIN`, the
/// server's challenge).
pub fn encode_credentials(credentials: &Credentials, mechanism: u64, challenge: &str) -> (r: Result<String, AuthError>)
    ensures
        match credential_text(*credentials, mechanism, challenge.spec_bytes()) {
            Ok(t) => r is Ok && r->Ok_0@ == base64_encoded(encode_utf8(t)),
            Err(e) => r == Err::<String, AuthError>(e),
        },
{
    let text: String = match credentials {
        Credentials::Basic { username, secret } => {
            if mechanism == AUTH_PLAIN {
                let mut t = String::new();
                crate::text::push_char(&mut t, '\0');
                push_str(&mut t, username.as_str());
                crate::text::push_char(&mut t, '\0');
                push_str(&mut t, secret.as_str());
                assert(t@ =~= seq!['\0'] + username@ + seq!['\0'] + secret@);
                t
            } else if mechanism == AUTH_LOGIN {
                match login_text(username, secret, challenge) {
                    Ok(t) => t,
                    Err(e) => return Err(e),
                }
            } else {
                return Err(AuthError::UnsupportedAuthMechanism);
            }
        },
        Credentials::Bearer { token, username } => {
            if mechanism == AUTH_XOAUTH2 {
                let mut t = String::from_str("user=");
                match username {
                    Some(u) => push_str(&mut t, u.as_str()),
                    None => {},
                }
                push_str(&mut t, "\x01auth=Bearer ");
                push_str(&mut t, token.as_str());
                push_str(&mut t, "\x01\x01");
                proof {
                    reveal_strlit("");
                }
                assert(t@ =~= "user="@ + (match username {
                    Some(u) => u@,
                    None => Seq::empty(),
                }) + "\x01auth=Bearer "@ + token@ + "\x01\x01"@);
                t
            } else if mechanism == AUTH_OAUTHBEARER {
                token.clone()
            } else {
                return Err(AuthError::UnsupportedAuthMechanism);
            }
        },
    };
    Ok(base64_encode(text.as_str().as_bytes()))
}

/// The `AUTH` command that opens an attempt with a mechanism: mechanisms
/// with an initial response (`PLAIN`, `XOAUTH2`, `OAUTHBEARER`) send it at
/// once.
pub fn auth_command(credentials: &Credentials, mechanism: u64) -> (r: Result<String, AuthError>)
    ensures
        mechanism & (AUTH_PLAIN | AUTH_XOAUTH2 | AUTH_OAUTHBEARER) != 0 ==> match credential_text(
            *credentials,
            mechanism,
            "".spec_bytes(),
        ) {
            Ok(t) => r is Ok && r->Ok_0@ == "AUTH "@ + mechanism_name(mechanism) + " "@ + base64_encoded(
                encode_utf8(t),
            ) + "\r\n"@,
            Err(e) => r == Err::<String, AuthError>(e),
        },
        mechanism & (AUTH_PLAIN | AUTH_XOAUTH2 | AUTH_OAUTHBEARER) == 0 ==> r is Ok && r->Ok_0@ == "AUTH "@
            + mechanism_name(mechanism) + "\r\n"@,
{
    let mut cmd = String::from_str("AUTH ");
    push_str(&mut cmd, to_mechanism(mechanism));
    if mechanism & (AUTH_PLAIN | AUTH_XOAUTH2 | AUTH_OAUTHBEARER) != 0 {
        let encoded = match encode_credentials(credentials, mechanism, "") {
            Ok(e) => e,
            Err(e) => return Err(e),
        };
        push_str(&mut cmd, " ");
        push_str(&mut cmd, encoded.as_str());
    }
    push_str(&mut cmd, "\r\n");
    Ok(cmd)
}

/// What a client does with the server's reply during an attempt.
pub enum ChallengeStep {
    /// Answer the challenge (a 334 reply), while rounds remain.
    Answer,
    /// The server accepted the credentials (a 235 reply).
    Accepted,
    /// The attempt failed with the reply.
    Rejected,
}

/// The client's step on a reply with `code` after `rounds` challenges
/// (an attempt answers at most three).
pub fn challenge_step(code: u16, rounds: u32) -> (r: ChallengeStep)
    ensures
        rounds < 3 && code == 334 ==> r is Answer,
        rounds < 3 && code == 235 ==> r is Accepted,
        !(rounds < 3 && (code == 334 || code == 235)) ==> r is Rejected,
{
    if rounds < 3 && code == 334 {
        ChallengeStep::Answer
    } else if rounds < 3 && code == 235 {
        ChallengeStep::Accepted
    } else {
        ChallengeStep::Rejected
    }
}


/// Which mechanisms credentials may be tried with: only mechanisms that the
/// server offers; with a bearer token each of `OAUTHBEARER` and `XOAUTH2`
/// exactly when offered, and never `LOGIN` or `PLAIN`; with a user name and
/// secret each of `LOGIN` and `PLAIN` exactly when offered, and never an
/// OAuth mechanism.
pub proof fn lemma_usable_mechanisms(c: Credentials, offered: u64)
    ensures
        usable_mechanisms(c, offered) & !offered == 0,
        c is Bearer ==> {
            &&& (usable_mechanisms(c, offered) & AUTH_XOAUTH2 != 0 <==> offered & AUTH_XOAUTH2 != 0)
            &&& (usable_mechanisms(c, offered) & AUTH_OAUTHBEARER != 0 <==> offered & AUTH_OAUTHBEARER != 0)
            &&& usable_mechanisms(c, offered) & AUTH_LOGIN == 0
            &&& usable_mechanisms(c, offered) & AUTH_PLAIN == 0
        },
        c is Basic ==> {
            &&& (usable_mechanisms(c, offered) & AUTH_LOGIN != 0 <==> offered & AUTH_LOGIN != 0)
            &&& (usable_mechanisms(c, offered) & AUTH_PLAIN != 0 <==> offered & AUTH_PLAIN != 0)
            &&& usable_mechanisms(c, offered) & AUTH_XOAUTH2 == 0
            &&& usable_mechanisms(c, offered) & AUTH_OAUTHBEARER == 0
        },
{
    let m = usable_mechanisms(c, offered);
    let x = AUTH_XOAUTH2;
    let o = AUTH_OAUTHBEARER;
    let l = AUTH_LOGIN;
    let p = AUTH_PLAIN;
    assert(x == 1u64 << 6u64 && o == 1u64 << 4u64 && l == 1u64 << 39u64 && p == 1u64 << 40u64);
    if c is Bearer {
        assert(m == (o | x) & offered);
        assert({
            &&& m & !offered == 0
            &&& (m & x != 0 <==> offered & x != 0)
            &&& (m & o != 0 <==> offered & o != 0)
            &&& m & l == 0
            &&& m & p == 0
        }) by (bit_vector)
            requires
                m == (o | x) & offered,
                x == 1u64 << 6u64,
                o == 1u64 << 4u64,
                l == 1u64 << 39u64,
                p == 1u64 << 40u64,
        ;
    } else {
        assert(m == (l | p) & offered);
        assert({
            &&& m & !offered == 0
            &&& (m & l != 0 <==> offered & l != 0)
            &&& (m & p != 0 <==> offered & p != 0)
            &&& m & x == 0
            &&& m & o == 0
        }) by (bit_vector)
            requires
                m == (l | p) & offered,
                x == 1u64 << 6u64,
                o == 1u64 << 4u64,
                l == 1u64 << 39u64,
                p == 1u64 << 40u64,
        ;
    }
}

} // verus!
