use vstd::prelude::*;

verus! {

use vstd::string::StrSliceExecFns;
use vstd::string::StringExecFns;
use vstd::utf8::encode_utf8;
use crate::auth::{Claims, ClaimsView, Identity, Role};
use crate::errors::AuthError;
use crate::strutil::{find_char, is_digit, parse_dec, parse_u64, rfind_char, str_suffix, u64_dec,
    u64_to_dec, lemma_u64_dec_val, lemma_parse_u64_round_trip};

// A token is the claims payload followed by a dot and a signature over
// the payload's bytes. The payload is `exp.roles.sub`: the expiry in
// decimal, one letter per role, then the subject, which may itself
// contain dots — the signature carries none, so the last dot always
// splits payload from signature.

/// The letter a role is written as.
pub open spec fn role_char(r: Role) -> char {
    match r {
        Role::Admin => 'A',
        Role::Agent => 'G',
        Role::Viewer => 'V',
    }
}

/// Whether `c` is a role letter.
pub open spec fn is_role_char(c: char) -> bool {
    c == 'A' || c == 'G' || c == 'V'
}

/// The role a letter denotes; only meaningful on role letters.
pub open spec fn role_of_char(c: char) -> Role {
    if c == 'A' {
        Role::Admin
    } else if c == 'G' {
        Role::Agent
    } else {
        Role::Viewer
    }
}

/// A role list as letters.
pub open spec fn roles_str(roles: Seq<Role>) -> Seq<char> {
    roles.map_values(|r: Role| role_char(r))
}

/// What parsing a role string yields: one role per letter, or nothing
/// if any character is no role letter.
pub open spec fn parse_roles(s: Seq<char>) -> Option<Seq<Role>> {
    if forall|i: int| 0 <= i < s.len() ==> is_role_char(#[trigger] s[i]) {
        Some(s.map_values(|c: char| role_of_char(c)))
    } else {
        None
    }
}

/// Role lists round-trip through their letters.
pub proof fn lemma_roles_round_trip(roles: Seq<Role>)
    ensures
        parse_roles(roles_str(roles)) == Some(roles),
{
    let s = roles_str(roles);
    assert(forall|i: int| 0 <= i < s.len() ==> is_role_char(#[trigger] s[i]));
    assert(s.map_values(|c: char| role_of_char(c)) =~= roles);
}

/// The index of the first occurrence of `c` in `s`, or `-1`.
pub open spec fn find_idx(s: Seq<char>, c: char) -> int
    decreases s.len(),
{
    if s.len() == 0 {
        -1
    } else if s[0] == c {
        0
    } else {
        let r = find_idx(s.skip(1), c);
        if r < 0 {
            -1
        } else {
            r + 1
        }
    }
}

/// `find_idx` yields the first occurrence, or `-1` when there is none.
pub proof fn lemma_find_idx(s: Seq<char>, c: char)
    ensures
        find_idx(s, c) == -1 ==> forall|j: int| 0 <= j < s.len() ==> s[j] != c,
        find_idx(s, c) != -1 ==> {
            &&& 0 <= find_idx(s, c) < s.len()
            &&& s[find_idx(s, c)] == c
            &&& forall|j: int| 0 <= j < find_idx(s, c) ==> s[j] != c
        },
    decreases s.len(),
{
    if s.len() > 0 && s[0] != c {
        lemma_find_idx(s.skip(1), c);
        let r = find_idx(s.skip(1), c);
        assert(forall|j: int| 0 <= j < s.skip(1).len() ==> s.skip(1)[j] == s[j + 1]);
        if r == -1 {
            assert forall|j: int| 0 <= j < s.len() implies s[j] != c by {
                if j > 0 {
                    assert(s.skip(1)[j - 1] != c);
                }
            }
        } else {
            assert(s[r + 1] == s.skip(1)[r]);
            assert forall|j: int| 0 <= j < r + 1 implies s[j] != c by {
                if j > 0 {
                    assert(s.skip(1)[j - 1] != c);
                }
            }
        }
    }
}

/// The index of the last occurrence of `c` in `s`, or `-1`.
pub open spec fn rfind_idx(s: Seq<char>, c: char) -> int
    decreases s.len(),
{
    if s.len() == 0 {
        -1
    } else if s.last() == c {
        s.len() - 1
    } else {
        rfind_idx(s.drop_last(), c)
    }
}

/// `rfind_idx` yields the last occurrence, or `-1` when there is none.
pub proof fn lemma_rfind_idx(s: Seq<char>, c: char)
    ensures
        rfind_idx(s, c) == -1 ==> forall|j: int| 0 <= j < s.len() ==> s[j] != c,
        rfind_idx(s, c) != -1 ==> {
            &&& 0 <= rfind_idx(s, c) < s.len()
            &&& s[rfind_idx(s, c)] == c
            &&& forall|j: int| rfind_idx(s, c) < j < s.len() ==> s[j] != c
        },
    decreases s.len(),
{
    if s.len() > 0 && s.last() != c {
        lemma_rfind_idx(s.drop_last(), c);
        assert(forall|j: int| 0 <= j < s.drop_last().len() ==> s.drop_last()[j] == s[j]);
    }
}

/// The signed payload of a claims value: the expiry in decimal, the
/// role letters, and the subject, dot-separated.
pub open spec fn claims_payload(c: ClaimsView) -> Seq<char> {
    u64_dec(c.exp) + seq!['.'] + roles_str(c.roles) + seq!['.'] + c.sub
}

/// What parsing a payload yields: the digits before the first dot as
/// the expiry, the letters up to the next dot as the roles, and the
/// rest — dots and all — as the subject.
pub open spec fn parse_payload(s: Seq<char>) -> Option<ClaimsView> {
    let d1 = find_idx(s, '.');
    if d1 < 0 {
        None
    } else {
        let rest = s.skip(d1 + 1);
        let d2 = find_idx(rest, '.');
        if d2 < 0 {
            None
        } else {
            match parse_u64(s.take(d1)) {
                None => None,
                Some(exp) => match parse_roles(rest.take(d2)) {
                    None => None,
                    Some(roles) => Some(ClaimsView { sub: rest.skip(d2 + 1), roles, exp }),
                },
            }
        }
    }
}

/// Every claims value round-trips through its payload, whatever the
/// subject holds — dots included.
pub proof fn lemma_payload_round_trip(c: ClaimsView)
    ensures
        parse_payload(claims_payload(c)) == Some(c),
{
    let p = claims_payload(c);
    let e = u64_dec(c.exp);
    let r = roles_str(c.roles);
    lemma_u64_dec_val(c.exp);
    lemma_find_idx(p, '.');
    let d1 = find_idx(p, '.');
    assert(p[e.len() as int] == '.');
    assert forall|j: int| 0 <= j < e.len() implies p[j] != '.' by {
        assert(p[j] == e[j]);
        assert(is_digit(e[j]));
    }
    assert(d1 != -1);
    assert(d1 == e.len()) by {
        if d1 < e.len() {
            assert(p[d1] != '.');
        }
    }
    let rest = p.skip(d1 + 1);
    assert(rest =~= r + seq!['.'] + c.sub);
    lemma_find_idx(rest, '.');
    let d2 = find_idx(rest, '.');
    assert(rest[r.len() as int] == '.');
    assert forall|j: int| 0 <= j < r.len() implies rest[j] != '.' by {
        assert(rest[j] == r[j]);
        assert(is_role_char(r[j]));
    }
    assert(d2 != -1);
    assert(d2 == r.len()) by {
        if d2 < r.len() {
            assert(rest[d2] != '.');
        }
    }
    assert(p.take(d1) =~= e);
    lemma_parse_u64_round_trip(c.exp);
    assert(rest.take(d2) =~= r);
    lemma_roles_round_trip(c.roles);
    assert(rest.skip(d2 + 1) =~= c.sub);
}

/// The base64 text of the HMAC-SHA256 tag of `message` under `key`, as
/// the signer renders it. A function of its arguments alone; no
/// contract says what it is on given values.
pub uninterp spec fn hmac_tag(message: Seq<u8>, key: Seq<u8>) -> Seq<char>;

/// Relies on `jsonwebtoken::crypto::sign` with `Algorithm::HS256` and
/// an `EncodingKey::from_secret` key: it returns the base64 url-safe
/// unpadded rendering of the HMAC-SHA256 tag, a function of message
/// and key alone, never fails for an HMAC key, and yields only
/// alphabet characters — never a dot.
#[verifier::external_body]
fn hmac_sign(message: &[u8], secret: &[u8]) -> (sig: String)
    ensures
        sig@ == hmac_tag(message@, secret@),
        forall|i: int| 0 <= i < sig@.len() ==> sig@[i] != '.',
{
    let key = jsonwebtoken::EncodingKey::from_secret(secret);
    jsonwebtoken::crypto::sign(message, &key, jsonwebtoken::Algorithm::HS256).unwrap()
}

/// Relies on `jsonwebtoken::crypto::verify` with `Algorithm::HS256`
/// and a `DecodingKey::from_secret` key: it base64-decodes the given
/// signature and compares it with the recomputed HMAC-SHA256 tag.
/// The url-safe unpadded decoder rejects padding and spare trailing
/// bits, so exactly the canonical rendering — what `sign` returns —
/// passes; a decode failure reads as a mismatch.
#[verifier::external_body]
fn hmac_verify(sig: &str, message: &[u8], secret: &[u8]) -> (ok: bool)
    ensures
        ok == (sig@ == hmac_tag(message@, secret@)),
{
    let key = jsonwebtoken::DecodingKey::from_secret(secret);
    jsonwebtoken::crypto::verify(sig, message, &key, jsonwebtoken::Algorithm::HS256).unwrap_or(
        false,
    )
}

/// The token a claims value signs to under `key`.
pub open spec fn spec_token(c: ClaimsView, key: Seq<u8>) -> Seq<char> {
    claims_payload(c) + seq!['.'] + hmac_tag(encode_utf8(claims_payload(c)), key)
}

/// What validating a token yields: the text before the last dot is
/// the payload and the text after it the signature; the claims come
/// back exactly when the signature is the payload's tag under `key`,
/// the payload parses, and the expiry lies strictly in the future.
pub open spec fn spec_validate(t: Seq<char>, key: Seq<u8>, now_secs: u64) -> Option<ClaimsView> {
    let d = rfind_idx(t, '.');
    if d < 0 {
        None
    } else if t.skip(d + 1) != hmac_tag(encode_utf8(t.take(d)), key) {
        None
    } else {
        match parse_payload(t.take(d)) {
            None => None,
            Some(c) => if now_secs < c.exp {
                Some(c)
            } else {
                None
            },
        }
    }
}

/// Renders a role list as its letters.
fn roles_to_str(roles: &Vec<Role>) -> (r: String)
    ensures
        r@ == roles_str(roles@),
{
    let mut r = String::new();
    let mut i: usize = 0;
    while i < roles.len()
        invariant
            0 <= i <= roles@.len(),
            r@ == roles_str(roles@.take(i as int)),
        decreases roles@.len() - i,
    {
        let lit: &str = match roles[i] {
            Role::Admin => "A",
            Role::Agent => "G",
            Role::Viewer => "V",
        };
        proof {
            reveal_strlit("A");
            reveal_strlit("G");
            reveal_strlit("V");
            assert(lit@ =~= seq![role_char(roles@[i as int])]);
        }
        r.append(lit);
        i = i + 1;
        proof {
            assert(r@ =~= roles_str(roles@.take(i as int)));
        }
    }
    proof {
        assert(roles@.take(roles@.len() as int) =~= roles@);
    }
    r
}

/// Parses a role string: one role per letter.
fn parse_roles_str(s: &str) -> (r: Option<Vec<Role>>)
    ensures
        match r {
            Some(v) => parse_roles(s@) == Some(v@),
            None => parse_roles(s@) is None,
        },
{
    let n = s.unicode_len();
    let mut v: Vec<Role> = Vec::new();
    let mut i: usize = 0;
    while i < n
        invariant
            n == s@.len(),
            0 <= i <= n,
            v@.len() == i,
            forall|j: int| 0 <= j < i ==> is_role_char(#[trigger] s@[j]),
            forall|j: int| 0 <= j < i ==> v@[j] == role_of_char(s@[j]),
        decreases n - i,
    {
        let c = s.get_char(i);
        let role = match c {
            'A' => Role::Admin,
            'G' => Role::Agent,
            'V' => Role::Viewer,
            _ => {
                proof {
                    assert(!is_role_char(s@[i as int]));
                }
                return None;
            },
        };
        v.push(role);
        i = i + 1;
    }
    proof {
        assert(s@.map_values(|c: char| role_of_char(c)) =~= v@);
    }
    Some(v)
}

/// Parses a claims payload; exactly the strings some claims value
/// renders to — with any expiry and subject — come back as claims.
fn parse_claims_payload(s: &str) -> (r: Option<Claims>)
    ensures
        match r {
            Some(c) => parse_payload(s@) == Some(c@),
            None => parse_payload(s@) is None,
        },
{
    proof {
        lemma_find_idx(s@, '.');
    }
    let d1 = match find_char(s, '.') {
        None => {
            proof {
                assert(find_idx(s@, '.') == -1) by {
                    if find_idx(s@, '.') != -1 {
                        assert(s@[find_idx(s@, '.')] == '.');
                    }
                }
            }
            return None;
        },
        Some(i) => i,
    };
    proof {
        assert(find_idx(s@, '.') == d1) by {
            let fi = find_idx(s@, '.');
            assert(s@[d1 as int] == '.');
            if fi == -1 {
                assert(s@[d1 as int] != '.');
            } else if fi < d1 {
                assert(s@[fi] != '.');
            } else if fi > d1 {
                assert(s@[d1 as int] != '.');
            }
        }
    }
    let n = s.unicode_len();
    let expstr = s.substring_char(0, d1);
    let rest = str_suffix(s, d1 + 1);
    proof {
        assert(expstr@ =~= s@.take(d1 as int));
        lemma_find_idx(rest@, '.');
    }
    let d2 = match find_char(rest, '.') {
        None => {
            proof {
                assert(find_idx(rest@, '.') == -1) by {
                    if find_idx(rest@, '.') != -1 {
                        assert(rest@[find_idx(rest@, '.')] == '.');
                    }
                }
            }
            return None;
        },
        Some(i) => i,
    };
    proof {
        assert(find_idx(rest@, '.') == d2) by {
            let fi = find_idx(rest@, '.');
            assert(rest@[d2 as int] == '.');
            if fi == -1 {
                assert(rest@[d2 as int] != '.');
            } else if fi < d2 {
                assert(rest@[fi] != '.');
            } else if fi > d2 {
                assert(rest@[d2 as int] != '.');
            }
        }
    }
    let rolestr = rest.substring_char(0, d2);
    let sub = str_suffix(rest, d2 + 1);
    proof {
        assert(rolestr@ =~= rest@.take(d2 as int));
    }
    let exp = match parse_dec(expstr) {
        None => {
            return None;
        },
        Some(e) => e,
    };
    let roles = match parse_roles_str(rolestr) {
        None => {
            return None;
        },
        Some(v) => v,
    };
    Some(Claims { sub: String::from_str(sub), roles, exp })
}

/// The claims issued for an identity: the subject is its common name,
/// the roles are the snapshot taken now, and the expiry is as given.
pub open spec fn issued_claims(id: crate::auth::IdentityView, exp: u64) -> ClaimsView {
    ClaimsView { sub: id.common_name, roles: id.roles, exp }
}

/// Builds and signs a token for an identity: subject and role
/// snapshot from the identity, expiry `ttl_secs` past `now_secs`.
/// Validation under the same secret recovers exactly these claims
/// until the expiry, and nothing after it.
pub fn issue_token(identity: &Identity, secret: &[u8], now_secs: u64, ttl_secs: u64) -> (token:
    String)
    requires
        now_secs + ttl_secs <= u64::MAX,
    ensures
        token@ == spec_token(issued_claims(identity@, (now_secs + ttl_secs) as u64), secret@),
        forall|t: u64|
            spec_validate(token@, secret@, t) == (if t < now_secs + ttl_secs {
                Some(issued_claims(identity@, (now_secs + ttl_secs) as u64))
            } else {
                None::<ClaimsView>
            }),
{
    let exp = now_secs + ttl_secs;
    let ghost cv = issued_claims(identity@, exp);
    let mut payload = u64_to_dec(exp);
    let dot: &str = ".";
    proof {
        reveal_strlit(".");
        assert(dot@ =~= seq!['.']);
    }
    let roles_s = roles_to_str(&identity.roles);
    payload.append(dot);
    payload.append(roles_s.as_str());
    payload.append(dot);
    payload.append(identity.common_name.as_str());
    proof {
        assert(payload@ =~= claims_payload(cv));
    }
    let msg = payload.as_str().as_bytes_vec();
    let sig = hmac_sign(msg.as_slice(), secret);
    let ghost p = payload@;
    let ghost sg = sig@;
    let mut token = payload;
    token.append(dot);
    token.append(sig.as_str());
    proof {
        assert(token@ =~= spec_token(cv, secret@));
        let t = token@;
        lemma_rfind_idx(t, '.');
        let d = rfind_idx(t, '.');
        assert(t[p.len() as int] == '.');
        assert forall|j: int| p.len() < j < t.len() implies t[j] != '.' by {
            assert(t[j] == sg[j - p.len() - 1]);
        }
        assert(d != -1);
        assert(d == p.len()) by {
            if d > p.len() {
                assert(t[d] != '.');
            } else if d < p.len() {
                assert(t[p.len() as int] != '.');
            }
        }
        assert(t.take(d) =~= p);
        assert(t.skip(d + 1) =~= sg);
        assert(encode_utf8(t.take(d)) == msg@);
        lemma_payload_round_trip(cv);
        assert forall|tm: u64|
            spec_validate(t, secret@, tm) == (if tm < now_secs + ttl_secs {
                Some(cv)
            } else {
                None::<ClaimsView>
            }) by {
            assert(parse_payload(t.take(d)) == Some(cv));
        }
    }
    token
}

/// Verifies a token's signature and expiry; any failure — a malformed
/// token, a wrong signature, or an expiry at or before `now_secs` —
/// reads as `Unauthenticated`, and the store is never consulted.
pub fn validate_token(token: &str, secret: &[u8], now_secs: u64) -> (r: Result<Claims, AuthError>)
    ensures
        match r {
            Ok(c) => spec_validate(token@, secret@, now_secs) == Some(c@),
            Err(e) => e == AuthError::Unauthenticated && spec_validate(
                token@,
                secret@,
                now_secs,
            ) is None,
        },
{
    proof {
        lemma_rfind_idx(token@, '.');
    }
    let d = match rfind_char(token, '.') {
        None => {
            proof {
                assert(rfind_idx(token@, '.') == -1) by {
                    if rfind_idx(token@, '.') != -1 {
                        assert(token@[rfind_idx(token@, '.')] == '.');
                    }
                }
            }
            return Err(AuthError::Unauthenticated);
        },
        Some(i) => i,
    };
    proof {
        assert(rfind_idx(token@, '.') == d) by {
            let fi = rfind_idx(token@, '.');
            assert(token@[d as int] == '.');
            if fi == -1 {
                assert(token@[d as int] != '.');
            } else if fi < d {
                assert(token@[d as int] != '.');
            } else if fi > d {
                assert(token@[fi] != '.');
            }
        }
    }
    let n = token.unicode_len();
    let payload = token.substring_char(0, d);
    let sig = str_suffix(token, d + 1);
    proof {
        assert(payload@ =~= token@.take(d as int));
        assert(sig@ =~= token@.skip(d as int + 1));
    }
    let msg = payload.as_bytes_vec();
    if !hmac_verify(sig, msg.as_slice(), secret) {
        return Err(AuthError::Unauthenticated);
    }
    match parse_claims_payload(payload) {
        None => Err(AuthError::Unauthenticated),
        Some(c) => {
            if now_secs < c.exp {
                Ok(c)
            } else {
                Err(AuthError::Unauthenticated)
            }
        },
    }
}

} // verus!
