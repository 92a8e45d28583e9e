use vstd::prelude::*;
use vstd::string::StringExecFns;
use vstd::utf8::encode_utf8;

use crate::bytes::push_text_bytes;
use crate::error::CodecError;
use crate::json::{json_quoted, quote_json_string};
use crate::value::Value;

verus! {

/// A syntactically valid mailbox address, together with whether its owner
/// has verified it: newly submitted, or verified.
#[derive(Debug)]
pub struct EmailAddress {
    address: String,
    verified: bool,
}

/// lettre's error for an address that fails mailbox syntax.
#[verifier::external_type_specification]
#[verifier::external_body]
pub struct ExAddressError(lettre::address::AddressError);

/// The text passes lettre's mailbox syntax: a local part, an `@` and a
/// domain name or address literal.
pub uninterp spec fn is_mailbox(s: Seq<char>) -> bool;

/// Relies on `lettre::Address`'s `FromStr`, which accepts a text exactly
/// when it is a syntactically valid mailbox address.
#[verifier::external_body]
fn check_mailbox(s: &str) -> (r: Result<(), lettre::address::AddressError>)
    ensures
        r is Ok <==> is_mailbox(s@),
{
    match s.parse::<lettre::Address>() {
        Ok(_) => Ok(()),
        Err(e) => Err(e),
    }
}

impl View for EmailAddress {
    /// Whether the address is verified, and the address text.
    type V = (bool, Seq<char>);

    closed spec fn view(&self) -> (bool, Seq<char>) {
        (self.verified, self.address@)
    }
}

impl Clone for EmailAddress {
    fn clone(&self) -> (r: EmailAddress)
        ensures
            r@ == self@,
    {
        proof {
            use_type_invariant(self);
        }
        EmailAddress { address: self.address.clone(), verified: self.verified }
    }
}

impl PartialEq for EmailAddress {
    fn eq(&self, other: &EmailAddress) -> (r: bool)
        ensures
            r == (self@ == other@),
    {
        self.verified == other.verified && self.address.eq(&other.address)
    }
}

impl vstd::std_specs::cmp::PartialEqSpecImpl for EmailAddress {
    open spec fn obeys_eq_spec() -> bool {
        true
    }

    open spec fn eq_spec(&self, other: &EmailAddress) -> bool {
        self@ == other@
    }
}

/// The document an address serializes to:
/// `{"email":<quoted address>,"verified":<flag>}`.
pub open spec fn serialized(verified: bool, address: Seq<char>) -> Seq<char> {
    "{\"email\":"@ + json_quoted(address) + ",\"verified\":"@ + (if verified {
        "true"@
    } else {
        "false"@
    }) + "}"@
}

/// The first entry of an object with the given key, if any.
pub open spec fn first_key_index(entries: Seq<(String, Value)>, key: Seq<char>, i: int) -> bool {
    &&& 0 <= i < entries.len()
    &&& entries[i].0@ == key
    &&& forall|j: int| 0 <= j < i ==> (#[trigger] entries[j]).0@ != key
}

/// The key occurs in two entries or more.
pub open spec fn repeated(entries: Seq<(String, Value)>, key: Seq<char>) -> bool {
    exists|i: int, j: int|
        0 <= i < j < entries.len() && #[trigger] entries[i].0@ == key && #[trigger] entries[j].0@
            == key
}

pub open spec fn has_key(entries: Seq<(String, Value)>, key: Seq<char>) -> bool {
    exists|i: int| first_key_index(entries, key, i)
}

/// The value held under a key: the first entry that carries it.
pub open spec fn field(entries: Seq<(String, Value)>, key: Seq<char>) -> Value
    recommends
        has_key(entries, key),
{
    entries[choose|i: int| first_key_index(entries, key, i)].1
}

/// What reading an address from a document gives, as the view of the
/// address: a bare string is a new address; an object is read through its
/// `email` and `verified` fields, each of which it must carry exactly once,
/// and other members are ignored.
pub open spec fn address_from_document(v: Value) -> Result<(bool, Seq<char>), CodecError> {
    match v {
        Value::String(s) => if is_mailbox(s@) {
            Ok((false, s@))
        } else {
            Err(CodecError::InvalidAddress)
        },
        Value::Object(entries) => if repeated(entries@, "email"@) || repeated(entries@, "verified"@) {
            Err(CodecError::DuplicateField)
        } else if !has_key(entries@, "email"@) || !has_key(
            entries@,
            "verified"@,
        ) {
            Err(CodecError::MissingField)
        } else {
            match (field(entries@, "email"@), field(entries@, "verified"@)) {
                (Value::String(s), Value::Bool(b)) => if is_mailbox(s@) {
                    Ok((b, s@))
                } else {
                    Err(CodecError::InvalidAddress)
                },
                _ => Err(CodecError::UnexpectedShape),
            }
        },
        _ => Err(CodecError::UnexpectedShape),
    }
}

/// The position of the first entry with the given key, and whether a
/// second entry carries it too.
fn find_key(entries: &Vec<(String, Value)>, key: &String) -> (r: (Option<usize>, bool))
    ensures
        r.1 <==> repeated(entries@, key@),
        !r.1 ==> (r.0 matches Some(i) ==> first_key_index(entries@, key@, i as int)),
        !r.1 ==> (r.0 is None ==> !has_key(entries@, key@)),
{
    let mut first: Option<usize> = None;
    let mut i: usize = 0;
    while i < entries.len()
        invariant
            i <= entries@.len(),
            first is None ==> forall|j: int| 0 <= j < i ==> (#[trigger] entries@[j]).0@ != key@,
            first matches Some(f) ==> f < i && first_key_index(entries@, key@, f as int),
            first matches Some(f) ==> forall|j: int|
                0 <= j < i && j != f ==> (#[trigger] entries@[j]).0@ != key@,
        decreases entries@.len() - i,
    {
        if entries[i].0.eq(key) {
            match first {
                Some(f) => {
                    assert(entries@[f as int].0@ == key@ && entries@[i as int].0@ == key@);
                    return (first, true);
                },
                None => {
                    first = Some(i);
                },
            }
        }
        i = i + 1;
    }
    assert(!repeated(entries@, key@)) by {
        if repeated(entries@, key@) {
            let (x, y) = choose|x: int, y: int|
                0 <= x < y < entries@.len() && #[trigger] entries@[x].0@ == key@
                    && #[trigger] entries@[y].0@ == key@;
            assert(entries@[x].0@ == key@);
            assert(entries@[y].0@ == key@);
        }
    }
    assert forall|k: int| first is None implies !first_key_index(entries@, key@, k) by {
        if 0 <= k < entries@.len() {
            assert(entries@[k].0@ != key@);
        }
    }
    (first, false)
}

impl EmailAddress {
    #[verifier::type_invariant]
    spec fn inv(self) -> bool {
        is_mailbox(self.address@)
    }

    /// A new, unverified address, where the text is a valid mailbox.
    pub fn new(address: &str) -> (r: Result<EmailAddress, CodecError>)
        ensures
            r is Ok <==> is_mailbox(address@),
            r matches Ok(e) ==> e@ == (false, address@),
            r matches Err(e) ==> e == CodecError::InvalidAddress,
    {
        match check_mailbox(address) {
            Ok(()) => Ok(EmailAddress { address: String::from_str(address), verified: false }),
            Err(_) => Err(CodecError::InvalidAddress),
        }
    }

    /// The address text, a valid mailbox.
    pub fn address(&self) -> (r: &str)
        ensures
            r@ == self@.1,
            is_mailbox(r@),
    {
        proof {
            use_type_invariant(self);
        }
        self.address.as_str()
    }

    pub fn is_verified(&self) -> (r: bool)
        ensures
            r == self@.0,
    {
        self.verified
    }

    /// The same address, marked verified.
    pub fn verify(self) -> (r: EmailAddress)
        ensures
            r@ == (true, self@.1),
    {
        proof {
            use_type_invariant(&self);
        }
        EmailAddress { address: self.address, verified: true }
    }

    /// The JSON document stored for the address.
    pub fn serialize(&self) -> (r: String)
        ensures
            r@ == serialized(self@.0, self@.1),
    {
        let mut out = String::from_str("{\"email\":");
        let quoted = quote_json_string(self.address());
        out.append(quoted.as_str());
        out.append(",\"verified\":");
        if self.is_verified() {
            out.append("true");
        } else {
            out.append("false");
        }
        out.append("}");
        out
    }

    /// The JSONB column form: the format version byte, then the document.
    pub fn encode(&self) -> (r: Vec<u8>)
        ensures
            r@ == seq![1u8] + encode_utf8(serialized(self@.0, self@.1)),
    {
        let mut buf: Vec<u8> = Vec::new();
        buf.push(1u8);
        let document = self.serialize();
        push_text_bytes(&mut buf, document.as_str());
        buf
    }

    /// Reads an address from a parsed document: either a bare mailbox
    /// string, which gives a new address, or an object whose `verified`
    /// field gives the state.
    pub fn from_document(v: &Value) -> (r: Result<EmailAddress, CodecError>)
        ensures
            match address_from_document(*v) {
                Ok(view) => r matches Ok(e) && e@ == view,
                Err(err) => r == Err::<EmailAddress, CodecError>(err),
            },
    {
        match v {
            Value::String(s) => EmailAddress::new(s.as_str()),
            Value::Object(entries) => {
                let email_key = String::from_str("email");
                let verified_key = String::from_str("verified");
                let (email_at, email_repeated) = find_key(entries, &email_key);
                let (verified_at, verified_repeated) = find_key(entries, &verified_key);
                if email_repeated || verified_repeated {
                    return Err(CodecError::DuplicateField);
                }
                let email_at = match email_at {
                    Some(i) => i,
                    None => {
                        return Err(CodecError::MissingField);
                    },
                };
                let verified_at = match verified_at {
                    Some(i) => i,
                    None => {
                        return Err(CodecError::MissingField);
                    },
                };
                proof {
                    assert(first_key_index(entries@, "email"@, email_at as int));
                    assert(first_key_index(entries@, "verified"@, verified_at as int));
                    lemma_first_key_unique(entries@, "email"@, email_at as int);
                    lemma_first_key_unique(entries@, "verified"@, verified_at as int);
                }
                match (&entries[email_at].1, &entries[verified_at].1) {
                    (Value::String(s), Value::Bool(b)) => {
                        match EmailAddress::new(s.as_str()) {
                            Ok(e) => {
                                if *b {
                                    Ok(e.verify())
                                } else {
                                    Ok(e)
                                }
                            },
                            Err(err) => Err(err),
                        }
                    },
                    _ => Err(CodecError::UnexpectedShape),
                }
            },
            _ => Err(CodecError::UnexpectedShape),
        }
    }
}

/// The document that an address serializes to, `email` then `verified`,
/// reads back as the same address in the same state: the tag survives the
/// round trip, and so does the address.
pub proof fn lemma_document_round_trip(entries: Vec<(String, Value)>, address: String, verified: bool)
    requires
        entries@.len() == 2,
        entries@[0].0@ == "email"@,
        entries@[0].1 == Value::String(address),
        entries@[1].0@ == "verified"@,
        entries@[1].1 == Value::Bool(verified),
        is_mailbox(address@),
    ensures
        address_from_document(Value::Object(entries)) == Ok::<(bool, Seq<char>), CodecError>(
            (verified, address@),
        ),
{
    let e = entries@;
    reveal_strlit("email");
    reveal_strlit("verified");
    assert("email"@ != "verified"@) by {
        assert("email"@.len() != "verified"@.len());
    }
    assert(first_key_index(e, "email"@, 0));
    assert(first_key_index(e, "verified"@, 1));
    lemma_first_key_unique(e, "email"@, 0);
    lemma_first_key_unique(e, "verified"@, 1);
}

proof fn lemma_first_key_unique(entries: Seq<(String, Value)>, key: Seq<char>, i: int)
    requires
        first_key_index(entries, key, i),
    ensures
        (choose|k: int| first_key_index(entries, key, k)) == i,
{
    let k = choose|k: int| first_key_index(entries, key, k);
    assert(first_key_index(entries, key, k));
    if k < i {
        assert(entries[k].0@ != key);
    } else if k > i {
        assert(entries[i].0@ != key);
    }
}

} // verus!
