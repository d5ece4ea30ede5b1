//! Tokens that name an authenticated user.

use vstd::prelude::*;
use vstd::string::*;

use crate::clock::unix_millis;
use crate::json::{check_form, read_record, write_object, Kind, Schema, Value};
use crate::text::{join2, text, to_chars};

verus! {

/// What a token says.
#[derive(Debug, Clone)]
pub struct Claims {
    /// username
    pub sub: String,
    /// expiry timestamp (seconds)
    pub exp: u64,
    /// issued at (seconds)
    pub iat: u64,
}

/// The values of claims.
pub struct ClaimsData {
    pub sub: Seq<char>,
    pub exp: u64,
    pub iat: u64,
}

impl View for Claims {
    type V = ClaimsData;

    open spec fn view(&self) -> ClaimsData {
        ClaimsData { sub: self.sub@, exp: self.exp, iat: self.iat }
    }
}

/// The fields of the payload of a token.
pub open spec fn claims_record() -> crate::json::Record {
    crate::json::Record {
        shape: "struct Claims with 3 elements"@,
        fields: seq![
            ("sub"@, crate::json::Kind::Text),
            ("exp"@, crate::json::Kind::Number),
            ("iat"@, crate::json::Kind::Number),
        ],
    }
}

/// The claims that a payload says, or the message of the error.
pub open spec fn claims_in(payload: Seq<char>) -> Result<ClaimsData, Seq<char>> {
    match crate::json::json_form(payload) {
        Ok(_) => match crate::json::says(payload, claims_record()) {
            Ok(data) => Ok(
                ClaimsData {
                    sub: data[0]->Text_0,
                    exp: data[1]->Number_0,
                    iat: data[2]->Number_0,
                },
            ),
            Err(message) => Err(message),
        },
        Err(message) => Err(message),
    }
}

/// Claims as fields.
pub open spec fn claims_fields(claims: ClaimsData) -> Seq<(Seq<char>, crate::json::Datum)> {
    seq![
        ("sub"@, crate::json::Datum::Text(claims.sub)),
        ("exp"@, crate::json::Datum::Number(claims.exp)),
        ("iat"@, crate::json::Datum::Number(claims.iat)),
    ]
}

/// The payload that is made of claims.
pub open spec fn claims_text(claims: ClaimsData) -> Seq<char> {
    crate::json::object_text(claims_fields(claims))
}

/// The token that is made of a payload with a secret, or the message of the error.
pub uninterp spec fn jwt_token(secret: Seq<u8>, payload: Seq<char>) -> Result<
    Seq<char>,
    Seq<char>,
>;

/// Whether the header of a token can be read, or the message of the error.
pub uninterp spec fn jwt_header(token: Seq<char>) -> Result<(), Seq<char>>;

/// Whether a token with a header is signed with the secret, or the message of the
/// error.
pub uninterp spec fn jwt_signature(secret: Seq<u8>, token: Seq<char>) -> Result<(), Seq<char>>;

/// The bytes that a text in Base64 without padding stands for.
pub uninterp spec fn b64_bytes(text: Seq<char>) -> Option<Seq<u8>>;

/// The last place of a dot before another.
pub open spec fn last_dot(s: Seq<char>, to: int) -> Option<int>
    decreases to,
{
    if to <= 0 {
        None
    } else if s[to - 1] == '.' {
        Some(to - 1)
    } else {
        last_dot(s, to - 1)
    }
}

/// The part of a token between its last two dots.
pub open spec fn middle(token: Seq<char>) -> Option<Seq<char>> {
    match last_dot(token, token.len() as int) {
        None => None,
        Some(end) => match last_dot(token, end) {
            None => None,
            Some(start) => Some(token.subrange(start + 1, end)),
        },
    }
}

/// A character of the alphabet for names in the standard alphabet.
pub open spec fn standard_char(c: char) -> char {
    if c == '-' {
        '+'
    } else if c == '_' {
        '/'
    } else {
        c
    }
}

/// The text that a part of a token stands for.
pub open spec fn part_text(part: Seq<char>) -> Option<Seq<char>> {
    match b64_bytes(part.map_values(|c: char| standard_char(c))) {
        Some(bytes) => if vstd::utf8::valid_utf8(bytes) {
            Some(vstd::utf8::decode_utf8(bytes))
        } else {
            None
        },
        None => None,
    }
}

/// The payload of a token that is signed with the secret, or the message of the
/// error.
pub open spec fn jwt_payload(secret: Seq<u8>, token: Seq<char>) -> Result<Seq<char>, Seq<char>> {
    match (jwt_header(token), jwt_signature(secret, token)) {
        (Err(message), _) => Err(message),
        (Ok(_), Err(message)) => Err(message),
        (Ok(_), Ok(_)) => match middle(token) {
            Some(part) => match part_text(part) {
                Some(payload) => Ok(payload),
                None => Err("JSON error: invalid unicode code point"@),
            },
            None => Err("InvalidToken"@),
        },
    }
}

/// The claims that a token says; none if it is not signed with the secret or its
/// payload says none.
pub open spec fn jwt_claims(secret: Seq<u8>, token: Seq<char>) -> Option<ClaimsData> {
    match jwt_payload(secret, token) {
        Ok(payload) => match claims_in(payload) {
            Ok(claims) => Some(claims),
            Err(_) => None,
        },
        Err(_) => None,
    }
}

/// The token is made of three parts with dots between them, the middle one of which
/// stands for the payload.
pub open spec fn carries(
    token: Seq<char>,
    head: Seq<char>,
    part: Seq<char>,
    tail: Seq<char>,
    payload: Seq<char>,
) -> bool {
    &&& token == head + seq!['.'] + part + seq!['.'] + tail
    &&& !part.contains('.')
    &&& !tail.contains('.')
    &&& b64_bytes(part.map_values(|c: char| standard_char(c))) == Some(crate::text::utf8(payload))
}

/// `jsonwebtoken::encode` with the default header (HS256), on a payload in JSON.
/// The result is determined by the secret and the payload. The token that it gives
/// for claims has a header that can be read, is signed with the secret, and carries
/// the payload in Base64, in the alphabet for names and without padding, between
/// its dots.
#[verifier::external_body]
fn encode_token(secret: &[u8], payload: &str) -> (r: Result<String, String>)
    ensures
        match r {
            Ok(token) => {
                &&& jwt_token(secret@, payload@) == Ok::<Seq<char>, Seq<char>>(token@)
                &&& forall|claims: ClaimsData|
                    payload@ == #[trigger] claims_text(claims) ==> {
                        &&& jwt_header(token@) is Ok
                        &&& jwt_signature(secret@, token@) is Ok
                        &&& exists|head: Seq<char>, part: Seq<char>, tail: Seq<char>|
                            carries(token@, head, part, tail, payload@)
                    }
            },
            Err(message) => jwt_token(secret@, payload@) == Err::<Seq<char>, Seq<char>>(message@),
        },
{
    let claims = serde_json::value::RawValue::from_string(payload.to_string())
        .map_err(|e| e.to_string())?;
    let key = jsonwebtoken::EncodingKey::from_secret(secret);
    jsonwebtoken::encode(&jsonwebtoken::Header::default(), &claims, &key).map_err(|e| e.to_string())
}

/// `jsonwebtoken::decode_header`. The result is determined by the token.
#[verifier::external_body]
fn check_header(token: &str) -> (r: Result<(), String>)
    ensures
        match r {
            Ok(_) => jwt_header(token@) == Ok::<(), Seq<char>>(()),
            Err(message) => jwt_header(token@) == Err::<(), Seq<char>>(message@),
        },
{
    jsonwebtoken::decode_header(token).map(|_| ()).map_err(|e| e.to_string())
}

/// `jsonwebtoken::decode` (HS256) without checks of the claims. The result is
/// determined by the secret and the token. Where the header can be read, an error
/// in JSON is one of the payload, which is looked at behind the signature: it does
/// not count.
#[verifier::external_body]
fn check_signature(secret: &[u8], token: &str) -> (r: Result<(), String>)
    ensures
        match r {
            Ok(_) => jwt_signature(secret@, token@) == Ok::<(), Seq<char>>(()),
            Err(message) => jwt_signature(secret@, token@) == Err::<(), Seq<char>>(message@),
        },
{
    let key = jsonwebtoken::DecodingKey::from_secret(secret);
    let mut validation = jsonwebtoken::Validation::default();
    validation.required_spec_claims.clear();
    validation.validate_exp = false;
    validation.validate_aud = false;
    match jsonwebtoken::decode::<serde::de::IgnoredAny>(token, &key, &validation) {
        Ok(_) => Ok(()),
        Err(e) => match e.kind() {
            jsonwebtoken::errors::ErrorKind::Json(_) => Ok(()),
            _ => Err(e.to_string()),
        },
    }
}

/// `Encoding::decode` of the crate `password-hash`, for Base64 in the standard
/// alphabet and without padding. The result is determined by the text.
#[verifier::external_body]
fn decode_b64(text: &str) -> (r: Option<Vec<u8>>)
    ensures
        match r {
            Some(bytes) => b64_bytes(text@) == Some(bytes@),
            None => b64_bytes(text@) is None,
        },
{
    let mut buffer = vec![0u8; text.len()];
    argon2::password_hash::Encoding::B64.decode(text, &mut buffer).ok().map(|bytes| bytes.to_vec())
}

/// `String::from_utf8`: the text that bytes stand for, if they are UTF-8.
#[verifier::external_body]
fn text_of(bytes: Vec<u8>) -> (r: Option<String>)
    ensures
        match r {
            Some(s) => vstd::utf8::valid_utf8(bytes@) && s@ == vstd::utf8::decode_utf8(bytes@),
            None => !vstd::utf8::valid_utf8(bytes@),
        },
{
    String::from_utf8(bytes).ok()
}

fn find_last_dot(chars: &Vec<char>, to: usize) -> (r: Option<usize>)
    requires
        to <= chars@.len(),
    ensures
        match r {
            Some(i) => last_dot(chars@, to as int) == Some(i as int) && i < to,
            None => last_dot(chars@, to as int) is None,
        },
{
    let mut i: usize = to;
    while i > 0
        invariant
            i <= to <= chars@.len(),
            last_dot(chars@, to as int) == last_dot(chars@, i as int),
        decreases i,
    {
        if chars[i - 1] == '.' {
            return Some(i - 1);
        }
        i = i - 1;
    }
    None
}

/// The text that a part of a token stands for.
fn read_part(part: &str) -> (r: Option<String>)
    ensures
        match r {
            Some(s) => part_text(part@) == Some(s@),
            None => part_text(part@) is None,
        },
{
    let chars = to_chars(part);
    let mut standard: String = String::new();
    let mut i: usize = 0;
    assert(standard@ =~= part@.take(0).map_values(|c: char| standard_char(c)));
    while i < chars.len()
        invariant
            i <= chars@.len(),
            chars@ == part@,
            standard@ == part@.take(i as int).map_values(|c: char| standard_char(c)),
        decreases chars@.len() - i,
    {
        if chars[i] == '-' {
            standard.append("+");
        } else if chars[i] == '_' {
            standard.append("/");
        } else {
            standard.append(part.substring_char(i, i + 1));
        }
        proof {
            reveal_strlit("+");
            reveal_strlit("/");
            assert(standard@ =~= part@.take(i + 1).map_values(|c: char| standard_char(c)));
        }
        i = i + 1;
    }
    assert(part@.take(i as int) =~= part@);
    match decode_b64(standard.as_str()) {
        Some(bytes) => text_of(bytes),
        None => None,
    }
}

/// The payload of a token that is signed with the secret.
fn open_token(secret: &[u8], token: &str) -> (r: Result<String, String>)
    ensures
        match jwt_payload(secret@, token@) {
            Ok(payload) => r is Ok && r->Ok_0@ == payload,
            Err(message) => r is Err && r->Err_0@ == message,
        },
{
    if let Err(message) = check_header(token) {
        return Err(message);
    }
    if let Err(message) = check_signature(secret, token) {
        return Err(message);
    }
    let chars = to_chars(token);
    match find_last_dot(&chars, chars.len()) {
        None => Err(text("InvalidToken")),
        Some(end) => match find_last_dot(&chars, end) {
            None => Err(text("InvalidToken")),
            Some(start) => match read_part(token.substring_char(start + 1, end)) {
                Some(payload) => Ok(payload),
                None => Err(text("JSON error: invalid unicode code point")),
            },
        },
    }
}

proof fn no_dot_before(s: Seq<char>, from: int, to: int)
    requires
        0 <= from <= to <= s.len(),
        forall|i: int| from <= i < to ==> #[trigger] s[i] != '.',
    ensures
        last_dot(s, to) == last_dot(s, from),
    decreases to - from,
{
    if from < to {
        assert(s[to - 1] != '.');
        no_dot_before(s, from, to - 1);
    }
}

/// A token that carries a payload, has a header that can be read and is signed with
/// the secret, has that payload.
proof fn carried_is_payload(
    secret: Seq<u8>,
    token: Seq<char>,
    head: Seq<char>,
    part: Seq<char>,
    tail: Seq<char>,
    payload: Seq<char>,
)
    requires
        carries(token, head, part, tail, payload),
        jwt_header(token) is Ok,
        jwt_signature(secret, token) is Ok,
    ensures
        jwt_payload(secret, token) == Ok::<Seq<char>, Seq<char>>(payload),
{
    let start = head.len() as int;
    let end = start + 1 + part.len();
    assert(token[start] == '.');
    assert(token[end] == '.');
    assert forall|i: int| end < i < token.len() implies #[trigger] token[i] != '.' by {
        assert(token[i] == tail[i - end - 1]);
        assert(tail.contains(tail[i - end - 1]));
    }
    assert forall|i: int| start < i < end implies #[trigger] token[i] != '.' by {
        assert(token[i] == part[i - start - 1]);
        assert(part.contains(part[i - start - 1]));
    }
    no_dot_before(token, end + 1, token.len() as int);
    no_dot_before(token, start + 1, end);
    assert(token.subrange(start + 1, end) =~= part);
    vstd::utf8::encode_utf8_valid_utf8(payload);
    vstd::utf8::encode_utf8_decode_utf8(payload);
}

/// `jsonwebtoken::decode` with the default validation (HS256, expiry time). The
/// header of a token that is accepted can be read, and the token is signed with the
/// secret. Which ones are accepted depends on the time and is not said.
#[verifier::external_body]
fn check_token(secret: &[u8], token: &str) -> (r: Result<(), String>)
    ensures
        r is Ok ==> jwt_header(token@) is Ok && jwt_signature(secret@, token@) is Ok,
{
    let key = jsonwebtoken::DecodingKey::from_secret(secret);
    let validation = jsonwebtoken::Validation::default();
    jsonwebtoken::decode::<serde::de::IgnoredAny>(token, &key, &validation)
        .map(|_| ())
        .map_err(|e| e.to_string())
}

fn claims_schema() -> (r: Schema)
    ensures
        r@ == claims_record(),
{
    let mut fields: Vec<(&'static str, Kind)> = Vec::new();
    fields.push(("sub", Kind::Text));
    fields.push(("exp", Kind::Number));
    fields.push(("iat", Kind::Number));
    let r = Schema { shape: "struct Claims with 3 elements", fields };
    assert(r@.fields =~= claims_record().fields);
    r
}

/// The claims that a payload says.
pub fn read_claims(payload: &str) -> (r: Result<Claims, String>)
    ensures
        match claims_in(payload@) {
            Ok(claims) => r is Ok && r->Ok_0@ == claims,
            Err(message) => r is Err && r->Err_0@ == message,
        },
{
    if let Err(message) = check_form(payload) {
        return Err(message);
    }
    match read_record(payload, &claims_schema()) {
        Ok(read) => {
            let mut values = read;
            let ghost all = values@;
            proof {
                crate::json::as_many_values(payload@, claims_record());
                assert(crate::json::data(all)[0] == all[0]@);
                assert(crate::json::data(all)[1] == all[1]@);
                assert(crate::json::data(all)[2] == all[2]@);
            }
            match (values.remove(0), values.remove(0), values.remove(0)) {
                (Value::Text(sub), Value::Number(exp), Value::Number(iat)) => Ok(
                    Claims { sub, exp, iat },
                ),
                _ => {
                    Err(String::new())
                },
            }
        },
        Err(message) => Err(message),
    }
}

/// The payload that is made of claims; it says them.
fn claims_payload(sub: &str, exp: u64, iat: u64) -> (r: Result<String, String>)
    ensures
        r is Ok,
        r->Ok_0@ == claims_text(ClaimsData { sub: sub@, exp, iat }),
        claims_in(r->Ok_0@) == Ok::<ClaimsData, Seq<char>>(ClaimsData { sub: sub@, exp, iat }),
{
    let mut fields: Vec<(&'static str, Value)> = Vec::new();
    fields.push(("sub", Value::Text(text(sub))));
    fields.push(("exp", Value::Number(exp)));
    fields.push(("iat", Value::Number(iat)));
    let ghost claims = ClaimsData { sub: sub@, exp, iat };
    proof {
        reveal_strlit("sub");
        reveal_strlit("exp");
        reveal_strlit("iat");
        assert("sub"@[0] == 's' && "exp"@[0] == 'e' && "iat"@[0] == 'i');
        assert(crate::json::named(fields@) =~= claims_fields(claims));
    }
    let r = write_object(&fields);
    proof {
        let all = claims_fields(claims);
        crate::json::written_reads_back(claims_record(), all);
        let data = all.map_values(|f: (Seq<char>, crate::json::Datum)| f.1);
        assert(data[0] == crate::json::Datum::Text(sub@));
        assert(data[1] == crate::json::Datum::Number(exp));
        assert(data[2] == crate::json::Datum::Number(iat));
    }
    r
}

/// Validates and creates JWT tokens
pub struct TokenValidator {
    signing_key: Vec<u8>,
    token_expiry_hours: u64,
}

/// The answer for claims that were made into a token.
pub open spec fn token_answer(
    secret: Seq<u8>,
    sub: Seq<char>,
    exp: u64,
    iat: u64,
    r: Result<String, String>,
) -> bool {
    match jwt_token(secret, claims_text(ClaimsData { sub, exp, iat })) {
        Ok(token) => r is Ok && r->Ok_0@ == token,
        Err(message) => r is Err && r->Err_0@ == "token creation failed: "@ + message,
    }
}

/// The answer for claims that a token says, given what checking the token gave.
pub open spec fn check_answer(
    claims: ClaimsData,
    check: Result<(), String>,
    r: Result<Claims, String>,
) -> bool {
    match check {
        Ok(_) => r is Ok && r->Ok_0@ == claims,
        Err(message) => r is Err && r->Err_0@ == "token validation failed: "@ + message@,
    }
}

/// The claims of a token that was checked.
pub fn checked_claims(claims: Claims, check: Result<(), String>) -> (r: Result<Claims, String>)
    ensures
        check_answer(claims@, check, r),
{
    match check {
        Ok(_) => Ok(claims),
        Err(message) => Err(join2("token validation failed: ", message.as_str())),
    }
}

impl TokenValidator {
    /// The bytes that tokens are signed with.
    pub closed spec fn secret(&self) -> Seq<u8> {
        self.signing_key@
    }

    /// For how many hours a token is valid.
    pub closed spec fn hours(&self) -> u64 {
        self.token_expiry_hours
    }

    pub fn new(signing_key: &str, token_expiry_hours: u64) -> (r: Self)
        ensures
            r.secret() == crate::text::utf8(signing_key@),
            r.hours() == token_expiry_hours,
    {
        TokenValidator { signing_key: crate::text::to_bytes(signing_key), token_expiry_hours }
    }

    /// Create a JWT token for the given username, issued at the given time in
    /// seconds
    pub fn create_token_at(&self, username: &str, now: u64) -> (r: Result<String, String>)
        requires
            now + self.hours() * 3600 <= u64::MAX,
        ensures
            token_answer(
                self.secret(),
                username@,
                (now + self.hours() * 3600) as u64,
                now,
                r,
            ),
            r matches Ok(token) ==> jwt_claims(self.secret(), token@) == Some(
                ClaimsData {
                    sub: username@,
                    exp: (now + self.hours() * 3600) as u64,
                    iat: now,
                },
            ),
    {
        let exp: u64 = now + self.token_expiry_hours * 3600;
        match claims_payload(username, exp, now) {
            Ok(payload) => match encode_token(self.signing_key.as_slice(), payload.as_str()) {
                Ok(token) => {
                    proof {
                        let claims = ClaimsData { sub: username@, exp, iat: now };
                        assert(payload@ == claims_text(claims));
                        let (head, part, tail) = choose|
                            head: Seq<char>,
                            part: Seq<char>,
                            tail: Seq<char>,
                        | carries(token@, head, part, tail, payload@);
                        carried_is_payload(self.secret(), token@, head, part, tail, payload@);
                    }
                    Ok(token)
                },
                Err(message) => Err(join2("token creation failed: ", message.as_str())),
            },
            Err(message) => Err(join2("token creation failed: ", message.as_str())),
        }
    }

    /// Create a JWT token for the given username, issued at the given time in
    /// milliseconds; there is none if the system clock is before the Unix epoch.
    pub fn create_token_on(&self, username: &str, millis: Option<u128>) -> (r: Result<
        String,
        String,
    >)
        ensures
            issue_answer(self.secret(), self.hours(), username@, millis, r),
            r matches Ok(token) ==> created(self.secret(), self.hours(), username@, token@),
    {
        match millis {
            Some(millis) => {
                let seconds: u128 = millis / 1000;
                let exp: u128 = self.token_expiry_hours as u128 * 3600;
                if seconds > u64::MAX as u128 || exp > u64::MAX as u128 - seconds {
                    return Err(text("token creation failed: expiry time out of range"));
                }
                let now: u64 = seconds as u64;
                let r = self.create_token_at(username, now);
                assert(r is Ok ==> says(
                    self.secret(),
                    self.hours(),
                    username@,
                    r->Ok_0@,
                    now,
                ));
                r
            },
            None => Err(text("token creation failed: system clock is before the Unix epoch")),
        }
    }

    /// Create a JWT token for the given username
    pub fn create_token(&self, username: &str) -> (r: Result<String, String>)
        ensures
            exists|millis: Option<u128>|
                crate::clock::is_reading(millis) && #[trigger] issue_answer(
                    self.secret(),
                    self.hours(),
                    username@,
                    millis,
                    r,
                ),
            r matches Ok(token) ==> created(self.secret(), self.hours(), username@, token@),
    {
        let millis = unix_millis();
        let r = self.create_token_on(username, millis);
        assert(issue_answer(self.secret(), self.hours(), username@, millis, r));
        r
    }

    /// Validate a JWT token and return the claims. A token that is not signed with
    /// the secret, or whose payload does not say the claims, is refused in any case;
    /// whether another is accepted depends on the time.
    pub fn validate_token(&self, token: &str) -> (r: Result<Claims, String>)
        ensures
            match jwt_payload(self.secret(), token@) {
                Err(message) => r is Err && r->Err_0@ == "token validation failed: "@ + message,
                Ok(payload) => match claims_in(payload) {
                    Err(message) => r is Err && r->Err_0@ == "token validation failed: JSON error: "@
                        + message,
                    Ok(claims) => exists|check: Result<(), String>| check_answer(claims, check, r),
                },
            },
    {
        match open_token(self.signing_key.as_slice(), token) {
            Err(message) => Err(join2("token validation failed: ", message.as_str())),
            Ok(payload) => match read_claims(payload.as_str()) {
                Err(message) => Err(
                    join2("token validation failed: JSON error: ", message.as_str()),
                ),
                Ok(claims) => {
                    let ghost said = claims@;
                    let check = check_token(self.signing_key.as_slice(), token);
                    let r = checked_claims(claims, check);
                    assert(check_answer(said, check, r));
                    r
                },
            },
        }
    }
}

/// The token that a user who asks for one at a time in milliseconds is given, or
/// the message of the error. There is none if the clock is before the Unix epoch
/// or the expiry time is out of range.
pub open spec fn issued(
    secret: Seq<u8>,
    hours: u64,
    sub: Seq<char>,
    millis: Option<u128>,
) -> Result<Seq<char>, Seq<char>> {
    match millis {
        None => Err("token creation failed: system clock is before the Unix epoch"@),
        Some(millis) => {
            let now = millis as int / 1000;
            let exp = now + hours * 3600;
            if exp > u64::MAX {
                Err("token creation failed: expiry time out of range"@)
            } else {
                match jwt_token(
                    secret,
                    claims_text(ClaimsData { sub, exp: exp as u64, iat: now as u64 }),
                ) {
                    Ok(token) => Ok(token),
                    Err(message) => Err("token creation failed: "@ + message),
                }
            }
        },
    }
}

/// The answer for a user who asks for a token at a time in milliseconds.
pub open spec fn issue_answer(
    secret: Seq<u8>,
    hours: u64,
    sub: Seq<char>,
    millis: Option<u128>,
    r: Result<String, String>,
) -> bool {
    match issued(secret, hours, sub, millis) {
        Ok(token) => r is Ok && r->Ok_0@ == token,
        Err(message) => r is Err && r->Err_0@ == message,
    }
}

/// The token says the user, issued at `now` and valid for the given hours.
pub open spec fn says(secret: Seq<u8>, hours: u64, sub: Seq<char>, token: Seq<char>, now: u64) -> bool {
    &&& now + hours * 3600 <= u64::MAX
    &&& jwt_claims(secret, token) == Some(
        ClaimsData { sub, exp: (now + hours * 3600) as u64, iat: now },
    )
}

/// The token says the user, issued at some time and valid for the given hours
/// from then on.
pub open spec fn created(secret: Seq<u8>, hours: u64, sub: Seq<char>, token: Seq<char>) -> bool {
    exists|now: u64| says(secret, hours, sub, token, now)
}

/// Validating a token that was created for a user, with the same secret, names
/// that user if it succeeds.
pub proof fn validated_is_created(
    secret: Seq<u8>,
    hours: u64,
    sub: Seq<char>,
    token: Seq<char>,
    claims: Claims,
)
    requires
        created(secret, hours, sub, token),
        jwt_claims(secret, token) == Some(claims@),
    ensures
        claims.sub@ == sub,
        claims.exp == claims.iat + hours * 3600,
{
}

/// The middle part of a token is what stands between its last two dots, and it has
/// one if and only if it has two dots.
pub proof fn middle_stands_between_dots(
    token: Seq<char>,
    head: Seq<char>,
    part: Seq<char>,
    tail: Seq<char>,
)
    ensures
        token == head + seq!['.'] + part + seq!['.'] + tail && !part.contains('.')
            && !tail.contains('.') ==> middle(token) == Some(part),
        middle(token) matches Some(p) ==> {
            &&& !p.contains('.')
            &&& exists|h: Seq<char>, t: Seq<char>|
                token == #[trigger] (h + seq!['.'] + p + seq!['.'] + t) && !t.contains('.')
        },
{
    if token == head + seq!['.'] + part + seq!['.'] + tail && !part.contains('.')
        && !tail.contains('.') {
        let start = head.len() as int;
        let end = start + 1 + part.len();
        assert(token[start] == '.');
        assert(token[end] == '.');
        assert forall|i: int| end < i < token.len() implies #[trigger] token[i] != '.' by {
            assert(token[i] == tail[i - end - 1]);
            assert(tail.contains(tail[i - end - 1]));
        }
        assert forall|i: int| start < i < end implies #[trigger] token[i] != '.' by {
            assert(token[i] == part[i - start - 1]);
            assert(part.contains(part[i - start - 1]));
        }
        no_dot_before(token, end + 1, token.len() as int);
        no_dot_before(token, start + 1, end);
        assert(token.subrange(start + 1, end) =~= part);
    }
    if middle(token) is Some {
        let end = last_dot(token, token.len() as int)->Some_0;
        let start = last_dot(token, end)->Some_0;
        last_dot_is_last(token, token.len() as int);
        last_dot_is_last(token, end);
        let p = middle(token)->Some_0;
        let (h, t) = (token.take(start), token.skip(end + 1));
        assert(token =~= h + seq!['.'] + p + seq!['.'] + t);
        if p.contains('.') {
            let i = p.index_of('.');
            assert(token[start + 1 + i] == '.');
        }
        if t.contains('.') {
            let i = t.index_of('.');
            assert(token[end + 1 + i] == '.');
        }
    }
}

proof fn last_dot_is_last(s: Seq<char>, to: int)
    requires
        0 <= to <= s.len(),
    ensures
        match last_dot(s, to) {
            Some(i) => 0 <= i < to && s[i] == '.' && forall|j: int| i < j < to ==> s[j] != '.',
            None => forall|j: int| 0 <= j < to ==> s[j] != '.',
        },
    decreases to,
{
    if to > 0 && s[to - 1] != '.' {
        last_dot_is_last(s, to - 1);
    }
}

/// Only a token whose header can be read and that is signed with the secret has a
/// payload, and only such a token has claims.
pub proof fn only_signed_tokens_count(secret: Seq<u8>, token: Seq<char>)
    ensures
        jwt_payload(secret, token) is Ok ==> jwt_header(token) is Ok && jwt_signature(
            secret,
            token,
        ) is Ok,
        jwt_claims(secret, token) is Some ==> {
            &&& jwt_header(token) is Ok
            &&& jwt_signature(secret, token) is Ok
            &&& jwt_payload(secret, token) is Ok
            &&& claims_in(jwt_payload(secret, token)->Ok_0) == Ok::<ClaimsData, Seq<char>>(
                jwt_claims(secret, token)->Some_0,
            )
        },
        jwt_header(token) is Ok && jwt_signature(secret, token) is Err ==> jwt_payload(
            secret,
            token,
        ) is Err,
{
}

/// The letters of the two alphabets are the same but for two of them.
pub proof fn alphabets_differ_in_two_letters(c: char)
    ensures
        standard_char(c) == '+' <==> c == '+' || c == '-',
        standard_char(c) == '/' <==> c == '/' || c == '_',
        c != '-' && c != '_' ==> standard_char(c) == c,
{
}

/// The text of a part is that of its bytes: a part whose bytes are those of a text
/// has that text, and a part that is not made of bytes has none.
pub proof fn parts_have_the_text_of_their_bytes(part: Seq<char>, payload: Seq<char>)
    ensures
        b64_bytes(part.map_values(|c: char| standard_char(c))) == Some(crate::text::utf8(payload))
            ==> part_text(part) == Some(payload),
        b64_bytes(part.map_values(|c: char| standard_char(c))) is None ==> part_text(part) is None,
{
    vstd::utf8::encode_utf8_valid_utf8(payload);
    vstd::utf8::encode_utf8_decode_utf8(payload);
}

/// Every claim stands under its own name, both where it is written and where it is
/// read.
pub proof fn claims_stand_under_their_names(claims: ClaimsData, payload: Seq<char>)
    ensures
        claims_fields(claims).len() == 3,
        claims_fields(claims).contains(("sub"@, crate::json::Datum::Text(claims.sub))),
        claims_fields(claims).contains(("exp"@, crate::json::Datum::Number(claims.exp))),
        claims_fields(claims).contains(("iat"@, crate::json::Datum::Number(claims.iat))),
        claims_text(claims) == crate::json::object_text(claims_fields(claims)),
        claims_in(payload) == Ok::<ClaimsData, Seq<char>>(claims) ==> {
            &&& crate::json::says(payload, claims_record()) matches Ok(data)
            &&& claims_record().fields.len() == 3
            &&& forall|i: int|
                0 <= i < 3 ==> {
                    let name = (#[trigger] claims_record().fields[i]).0;
                    ||| name == "sub"@ && data[i]->Text_0 == claims.sub
                    ||| name == "exp"@ && data[i]->Number_0 == claims.exp
                    ||| name == "iat"@ && data[i]->Number_0 == claims.iat
                }
        },
{
    let fields = claims_fields(claims);
    assert(fields[0] == ("sub"@, crate::json::Datum::Text(claims.sub)));
    assert(fields[1] == ("exp"@, crate::json::Datum::Number(claims.exp)));
    assert(fields[2] == ("iat"@, crate::json::Datum::Number(claims.iat)));
}

/// A token is issued in the second in which the clock is read, and expires as many
/// hours later as tokens live; without a clock, or without such a time, none is.
pub proof fn tokens_expire_after_their_hours(
    secret: Seq<u8>,
    hours: u64,
    sub: Seq<char>,
    millis: Option<u128>,
)
    ensures
        millis is None ==> issued(secret, hours, sub, millis) is Err,
        issued(secret, hours, sub, millis) matches Ok(token) ==> exists|exp: u64, iat: u64|
            {
                &&& iat * 1000 <= millis->Some_0 < (iat + 1) * 1000
                &&& exp == iat + hours * 3600
                &&& #[trigger] jwt_token(
                    secret,
                    claims_text(ClaimsData { sub, exp, iat }),
                ) == Ok::<Seq<char>, Seq<char>>(token)
            },
        millis is Some && millis->Some_0 / 1000 + hours * 3600 > u64::MAX ==> issued(
            secret,
            hours,
            sub,
            millis,
        ) is Err,
{
    if issued(secret, hours, sub, millis) is Ok {
        let iat = (millis->Some_0 as int / 1000) as u64;
        let exp = (millis->Some_0 as int / 1000 + hours * 3600) as u64;
        assert(hours * 3600 >= 0);
        assert(jwt_token(secret, claims_text(ClaimsData { sub, exp, iat })) is Ok);
    }
}

/// A token is accepted if and only if the check passes, with the claims that it
/// has; otherwise it is said why not.
pub proof fn checked_tokens_have_their_claims(
    claims: ClaimsData,
    check: Result<(), String>,
    r: Result<Claims, String>,
)
    requires
        check_answer(claims, check, r),
    ensures
        r is Ok <==> check is Ok,
        r matches Ok(read) ==> read.sub@ == claims.sub && read.exp == claims.exp && read.iat
            == claims.iat,
        r matches Err(message) ==> message@ == "token validation failed: "@ + check->Err_0@,
{
}

/// What is answered when a token is asked for is the token for the claims, or why
/// there is none.
pub proof fn tokens_are_answered(
    secret: Seq<u8>,
    hours: u64,
    sub: Seq<char>,
    millis: Option<u128>,
    exp: u64,
    iat: u64,
    r: Result<String, String>,
)
    ensures
        token_answer(secret, sub, exp, iat, r) ==> {
            let token = jwt_token(secret, claims_text(ClaimsData { sub, exp, iat }));
            &&& r is Ok <==> token is Ok
            &&& r is Ok ==> r->Ok_0@ == token->Ok_0
            &&& r is Err ==> r->Err_0@ == "token creation failed: "@ + token->Err_0
        },
        issue_answer(secret, hours, sub, millis, r) ==> {
            &&& r is Ok <==> issued(secret, hours, sub, millis) is Ok
            &&& r is Ok ==> r->Ok_0@ == issued(secret, hours, sub, millis)->Ok_0
            &&& r is Err ==> r->Err_0@ == issued(secret, hours, sub, millis)->Err_0
        },
{
}

} // verus!
