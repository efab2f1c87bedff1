//! Security tokens: who granted access to whom, and until when. The token
//! text is the encrypted authorization `assignee:expires`; the cipher is
//! applied by the caller.
use crate::number::{i64_text, i64_value, parse_i64, parses_i64, signed_decimal};
use crate::text::{count_leading, leading_count};
use vstd::prelude::*;

verus! {

/// A security token.
pub struct SecurityToken {
    grantor_id: String,
    assignee_id: String,
    expires: i64,
    token: String,
}

/// Why a token was refused.
pub enum ParseSecurityTokenError {
    /// The token or a field in it could not be decoded or decrypted.
    DecodeError(String),
    /// The expiry is not a timestamp.
    ParseExpiresError(String),
    /// The token has expired.
    ValidPeriodExpired,
    /// The authorization has no `:`.
    InvalidFormat,
}

/// The authorization text that a token encrypts.
pub open spec fn authorization_spec(assignee_id: Seq<char>, expires: i64) -> Seq<char> {
    assignee_id + ":"@ + signed_decimal(expires as int)
}

/// Where the first `:` of an authorization stands.
pub open spec fn colon_at(s: Seq<char>) -> int {
    leading_count(s, ":"@, false) as int
}

impl SecurityToken {
    pub closed spec fn grantor_view(&self) -> Seq<char> {
        self.grantor_id@
    }

    pub closed spec fn assignee_view(&self) -> Seq<char> {
        self.assignee_id@
    }

    pub closed spec fn expires_view(&self) -> i64 {
        self.expires
    }

    pub closed spec fn token_view(&self) -> Seq<char> {
        self.token@
    }

    /// A token from its parts: the grantor, the assignee (the encrypted
    /// grantor id), the expiry in Unix seconds and the token text.
    pub fn new(grantor_id: String, assignee_id: String, expires: i64, token: String) -> (r: SecurityToken)
        ensures
            r.grantor_view() == grantor_id@,
            r.assignee_view() == assignee_id@,
            r.expires_view() == expires,
            r.token_view() == token@,
    {
        SecurityToken { grantor_id, assignee_id, expires, token }
    }

    /// The expiry, in Unix seconds.
    pub fn expires(&self) -> (r: i64)
        ensures
            r == self.expires_view(),
    {
        self.expires
    }

    /// The grantor's access key id.
    pub fn grantor_id(&self) -> (r: &str)
        ensures
            r@ == self.grantor_view(),
    {
        self.grantor_id.as_str()
    }

    /// The assignee's access key id.
    pub fn assignee_id(&self) -> (r: &str)
        ensures
            r@ == self.assignee_view(),
    {
        self.assignee_id.as_str()
    }

    /// The token text.
    pub fn as_str(&self) -> (r: &str)
        ensures
            r@ == self.token_view(),
    {
        self.token.as_str()
    }

    /// The authorization text to encrypt for an assignee and an expiry.
    pub fn authorization(assignee_id: &str, expires: i64) -> (r: String)
        ensures
            r@ == authorization_spec(assignee_id@, expires),
    {
        let mut out = String::new();
        out.append(assignee_id);
        out.append(":");
        out.append(i64_text(expires).as_str());
        out
    }

    /// Reads a decrypted authorization at time `now`: the assignee before
    /// the first `:` and the expiry after it, which must not have passed.
    pub fn parse_authorization(authorization: &str, now: i64) -> (r: Result<(String, i64), ParseSecurityTokenError>)
        ensures
            ({
                let s = authorization@;
                let i = colon_at(s);
                let ts = s.subrange(i + 1, s.len() as int);
                &&& !s.contains(':') ==> (r matches Err(ParseSecurityTokenError::InvalidFormat))
                &&& s.contains(':') && !parses_i64(ts) ==> (r matches Err(ParseSecurityTokenError::ParseExpiresError(_)))
                &&& s.contains(':') && parses_i64(ts) && now > i64_value(ts) ==> (r matches Err(ParseSecurityTokenError::ValidPeriodExpired))
                &&& r is Ok <==> (s.contains(':') && parses_i64(ts) && now <= i64_value(ts))
                &&& (r matches Ok((a, e)) ==> a@ == s.subrange(0, i) && e as int == i64_value(ts))
            }),
    {
        let n = authorization.unicode_len();
        let i = count_leading(authorization, ":", false);
        proof {
            reveal_strlit(":");
            crate::text::lemma_leading_count_bound(authorization@, ":"@, false);
            lemma_colon(authorization@);
        }
        if i == n {
            return Err(ParseSecurityTokenError::InvalidFormat);
        }
        let assignee = authorization.substring_char(0, i);
        let timestamp = authorization.substring_char(i + 1, n);
        match parse_i64(timestamp) {
            Some(secs) => if now <= secs {
                Ok((assignee.to_owned(), secs))
            } else {
                Err(ParseSecurityTokenError::ValidPeriodExpired)
            },
            None => Err(ParseSecurityTokenError::ParseExpiresError("invalid timestamp".to_owned())),
        }
    }
}

proof fn lemma_colon(s: Seq<char>)
    ensures
        (colon_at(s) == s.len()) == !s.contains(':'),
    decreases s.len(),
{
    reveal_strlit(":");
    assert(":"@[0] == ':');
    if s.len() > 0 {
        lemma_colon(s.drop_first());
        if s[0] != ':' {
            assert(!":"@.contains(s[0]));
            if s.drop_first().contains(':') {
                let j = choose|j: int| 0 <= j < s.drop_first().len() && s.drop_first()[j] == ':';
                assert(s[j + 1] == ':');
            }
            if s.contains(':') {
                let j = choose|j: int| 0 <= j < s.len() && s[j] == ':';
                assert(s.drop_first()[j - 1] == ':');
            }
        } else {
            assert(":"@.contains(s[0]));
        }
    }
}

} // verus!
