use aether::auth::token::{checked_claims, read_claims, Claims, TokenValidator};
use aether::cluster::discovery::{PeerInfo, TokenDiscovery};
use serde::de::{Deserialize, Deserializer, Error, IgnoredAny, MapAccess, SeqAccess, Visitor};

#[derive(Debug, PartialEq)]
struct Typed {
    sub: String,
    exp: u64,
    iat: u64,
}

struct TypedVisitor;

impl<'de> Visitor<'de> for TypedVisitor {
    type Value = Typed;

    fn expecting(&self, f: &mut std::fmt::Formatter) -> std::fmt::Result {
        f.write_str("struct Claims")
    }

    fn visit_seq<A: SeqAccess<'de>>(self, mut seq: A) -> Result<Typed, A::Error> {
        let expected = &"struct Claims with 3 elements";
        let sub = seq.next_element()?.ok_or_else(|| A::Error::invalid_length(0, expected))?;
        let exp = seq.next_element()?.ok_or_else(|| A::Error::invalid_length(1, expected))?;
        let iat = seq.next_element()?.ok_or_else(|| A::Error::invalid_length(2, expected))?;
        Ok(Typed { sub, exp, iat })
    }

    fn visit_map<A: MapAccess<'de>>(self, mut map: A) -> Result<Typed, A::Error> {
        let (mut sub, mut exp, mut iat) = (None, None, None);
        while let Some(key) = map.next_key::<String>()? {
            match key.as_str() {
                "sub" if sub.is_some() => return Err(A::Error::duplicate_field("sub")),
                "exp" if exp.is_some() => return Err(A::Error::duplicate_field("exp")),
                "iat" if iat.is_some() => return Err(A::Error::duplicate_field("iat")),
                "sub" => sub = Some(map.next_value()?),
                "exp" => exp = Some(map.next_value()?),
                "iat" => iat = Some(map.next_value()?),
                _ => {
                    map.next_value::<IgnoredAny>()?;
                }
            }
        }
        Ok(Typed {
            sub: sub.ok_or_else(|| A::Error::missing_field("sub"))?,
            exp: exp.ok_or_else(|| A::Error::missing_field("exp"))?,
            iat: iat.ok_or_else(|| A::Error::missing_field("iat"))?,
        })
    }
}

impl<'de> Deserialize<'de> for Typed {
    fn deserialize<D: Deserializer<'de>>(d: D) -> Result<Typed, D::Error> {
        d.deserialize_struct("Claims", &["sub", "exp", "iat"], TypedVisitor)
    }
}

fn deep() -> String {
    format!("{}1{}", "[".repeat(500), "]".repeat(500))
}

fn payloads() -> Vec<String> {
    let mut all: Vec<String> = [
        "{}",
        "{ }",
        "[]",
        "[ ]",
        "{\"sub\":\"a\",\"exp\":2,\"iat\":1}",
        "{ \"iat\" : 1 ,\n\t\"exp\":2 , \"sub\" : \"a\" }",
        "{\"s\\u0075b\":\"\\u00e9\\n\\\"x\\\\\",\"exp\":18446744073709551615,\"iat\":0}",
        "{\"exp\":2,\"iat\":1}",
        "{\"sub\":\"a\",\"iat\":1}",
        "{\"sub\":\"\u{e9}\u{20ac}\u{1d11e}\",\n\"exp\":1}",
        "{\"sub\":\"a\",\"exp\":2,\"iat\":1,\"iat\":1}",
        "{\"sub\":\"a\",\"exp\":2,\"iat\":1,\n \"sub\" :\"b\"}",
        "{\"sub\":\"a\",\"exp\":2,\"exp\":\"x\",\"iat\":1}",
        "{\"sub\":\"a\",\"exp\":2,\"iat\":1,\"x\":[1,{\"y\":\"],}\"}],\"x\":null}",
        "{\"sub\":\"a\",\"exp\":2,\"iat\":1,\"x\":1e999,\"y\":\"\\ud800\"}",
        "{\"sub\":5,\"exp\":2,\"iat\":1}",
        "{\"sub\":null,\"exp\":2,\"iat\":1}",
        "{\"sub\":[\"a\"],\"exp\":2,\"iat\":1}",
        "{\"sub\":{\"a\":1},\"exp\":2,\"iat\":1}",
        "{\"sub\":true,\"exp\":2,\"iat\":1}",
        "{\"sub\":\"\\ud800\",\"exp\":2,\"iat\":1}",
        "{\"\\ud800\":1,\"sub\":\"a\",\"exp\":2,\"iat\":1}",
        "{\"sub\":\"a\",\"exp\":\"2\",\"iat\":1}",
        "{\"sub\":\"a\",\"exp\":-2,\"iat\":1}",
        "{\"sub\":\"a\",\"exp\":2.5,\"iat\":1}",
        "{\"sub\":\"a\",\"exp\":2e0,\"iat\":1}",
        "{\"sub\":\"a\",\"exp\":18446744073709551616,\"iat\":1}",
        "{\"sub\":\"a\",\"exp\":2,\"iat\":false}",
        "{\"sub\":\"a\",\n\"exp\":2,\n  \"iat\": \"\u{e9}\" }",
        "[\"a\",2,1]",
        "[ \"a\" , 2 ,\n 1 ]",
        "[\"a\"]",
        "[\"a\",2]",
        "[\"a\",2,1,0]",
        "[\"a\",2,1, [3] ]",
        "[2,\"a\",1]",
        "[\"a\",\"b\",1]",
    ]
    .iter()
    .map(|s| s.to_string())
    .collect();
    all.push(format!("{{\"sub\":\"a\",\"x\":{},\"exp\":2,\"iat\":1}}", deep()));
    all
}

#[test]
fn claims_are_read_as_a_typed_record() {
    let broken = ["", " ", "x", "{", "{\"sub\":\"a\"", "{\"sub\" \"a\"}", "[\"a\","];
    let spaced = ["\n { \"sub\":\"a\" }\n\t", "\r\n[ \"a\" ] ", " {\"sub\":\"a\",\"exp\":2,\"iat\":1}\n"];
    let more = broken.iter().chain(&spaced).map(|s| s.to_string());
    for payload in payloads().into_iter().chain(more) {
        let typed: Result<Typed, String> = serde_json::from_str(&payload)
            .map_err(|e: serde_json::Error| e.to_string());
        let read = read_claims(&payload).map(|c| Typed { sub: c.sub, exp: c.exp, iat: c.iat });
        assert_eq!(read, typed, "{payload}");
    }
}

fn signed(secret: &str, payload: &str) -> String {
    let raw = serde_json::value::RawValue::from_string(payload.to_string()).unwrap();
    let key = jsonwebtoken::EncodingKey::from_secret(secret.as_bytes());
    jsonwebtoken::encode(&jsonwebtoken::Header::default(), &raw, &key).unwrap()
}

#[test]
fn signed_tokens_are_read_as_typed_claims() {
    let validator = TokenValidator::new("secret", 1);
    let key = jsonwebtoken::DecodingKey::from_secret(b"secret");
    let refuse = |e: jsonwebtoken::errors::Error| format!("token validation failed: {e}");
    for payload in payloads() {
        let payload = payload.replace("\"exp\":2,", "\"exp\":99999999999,");
        for secret in ["secret", "other"] {
            let token = signed(secret, &payload);
            let validation = jsonwebtoken::Validation::default();
            let typed = jsonwebtoken::decode::<Typed>(&token, &key, &validation)
                .map(|data| data.claims)
                .map_err(refuse);
            let read = validator
                .validate_token(&token)
                .map(|c| Typed { sub: c.sub, exp: c.exp, iat: c.iat });
            assert_eq!(read, typed, "{payload}");
        }
    }
    let full = "{\"sub\":\"a\",\"exp\":99999999999,\"iat\":1}";
    assert_eq!(validator.validate_token(&signed("secret", full)).unwrap().sub, "a");
    assert_eq!(
        validator.validate_token(&signed("secret", "{\"sub\":\"a\",\"exp\":2,\"iat\":1}")).unwrap_err(),
        "token validation failed: ExpiredSignature"
    );
    assert_eq!(
        validator.validate_token(&signed("other", full)).unwrap_err(),
        "token validation failed: InvalidSignature"
    );
    assert_eq!(
        validator.validate_token(&signed("secret", "{\"sub\":\"a\",\"exp\":2}")).unwrap_err(),
        "token validation failed: JSON error: missing field `iat` at line 1 column 19"
    );
    assert_eq!(
        validator.validate_token("nonsense").unwrap_err(),
        "token validation failed: InvalidToken"
    );
}

#[test]
fn checks_decide_on_claims() {
    let claims = || Claims { sub: "a".to_string(), exp: 2, iat: 1 };
    let accepted = checked_claims(claims(), Ok(())).unwrap();
    assert_eq!((accepted.sub.as_str(), accepted.exp, accepted.iat), ("a", 2, 1));
    assert_eq!(
        checked_claims(claims(), Err("late".to_string())).unwrap_err(),
        "token validation failed: late"
    );
}

#[test]
fn token_lines_are_read_as_typed_records() {
    let read = |line: &str| TokenDiscovery::read_peers(line);
    let one = |node_id: u64, addr: &str| vec![PeerInfo { node_id, addr: addr.to_string() }];
    assert_eq!(read("{\"node_id\":1,\"addr\":\"a\"}"), one(1, "a"));
    assert_eq!(read("  { \"addr\" : \"a\" , \"node\\u005fid\":1 }\t"), one(1, "a"));
    assert_eq!(read("{\"node_id\":1,\"addr\":\"a\",\"x\":1e999,\"x\":[\"}\"]}"), one(1, "a"));
    assert_eq!(read(&format!("{{\"x\":{},\"node_id\":1,\"addr\":\"a\"}}", deep())), one(1, "a"));
    for line in [
        "{\"node_id\":1,\"addr\":\"a\",\"node_id\":1}",
        "{\"node_id\":1,\"addr\":\"a\",\"addr\":\"a\"}",
        "{\"node_id\":1}",
        "{\"addr\":\"a\"}",
        "{\"node_id\":\"1\",\"addr\":\"a\"}",
        "{\"node_id\":1,\"addr\":2}",
        "{\"node_id\":1,\"addr\":\"a\"",
        "{\"node_id\":1,\"addr\":\"a\"} x",
        "{\"node_id\":1,\"addr\":\"a\",}",
        "{\"node_id\":1 \"addr\":\"a\"}",
        "{node_id:1,\"addr\":\"a\"}",
        "\"a\"",
    ] {
        assert_eq!(read(line), Vec::new(), "{line}");
    }
}
