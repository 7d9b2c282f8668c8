//! Signed session tokens of the form `user.session:signature`, where the
//! signature is the lower-case hexadecimal HMAC-SHA256 tag of `user.session`
//! under the server's secret.

use crate::text::{find_char, first_index, lemma_first_index, lemma_first_index_is};
use hmac::{Hmac, Mac};
use sha2::Sha256;
use vstd::prelude::*;
use vstd::utf8::encode_utf8;

verus! {

/// Stands between the user id and the session id.
pub const ID_SEPARATOR: char = '.';

/// Stands between the signed ids and the signature.
pub const TOKEN_SEPARATOR: char = ':';

/// Number of characters of a signature: two for each byte of the tag.
pub const SIGNATURE_LENGTH: usize = 64;

/// Why a token was turned down.
#[derive(Clone, Copy, Debug, PartialEq, Eq, Structural)]
pub enum TokenError {
    /// The token does not consist of exactly two parts around one `:`.
    NotEnoughParts,
    /// The signed part does not consist of exactly two ids around one `.`.
    NotEnoughIds,
    /// The signature is not the one the secret gives for the ids.
    InvalidSignature,
}

impl TokenError {
    /// The message that goes with the error.
    pub fn message(&self) -> (text: String)
        ensures
            text@ == match *self {
                TokenError::NotEnoughParts => "not enough parts"@,
                TokenError::NotEnoughIds => "not enough ids"@,
                TokenError::InvalidSignature => "invalid signature"@,
            },
    {
        match self {
            TokenError::NotEnoughParts => "not enough parts".to_owned(),
            TokenError::NotEnoughIds => "not enough ids".to_owned(),
            TokenError::InvalidSignature => "invalid signature".to_owned(),
        }
    }
}

/// The three fields of a well-shaped token.
pub struct TokenParts {
    pub user_id: String,
    pub session_id: String,
    pub signature: String,
}

/// Mathematical value of [`TokenParts`].
pub struct TokenPartsView {
    pub user_id: Seq<char>,
    pub session_id: Seq<char>,
    pub signature: Seq<char>,
}

impl View for TokenParts {
    type V = TokenPartsView;

    open spec fn view(&self) -> TokenPartsView {
        TokenPartsView {
            user_id: self.user_id@,
            session_id: self.session_id@,
            signature: self.signature@,
        }
    }
}

/// The HMAC-SHA256 tag of `message` under `key`.
pub uninterp spec fn hmac_sha256(key: Seq<u8>, message: Seq<u8>) -> Seq<u8>;

/// The lower-case hexadecimal digit for a value below sixteen.
pub open spec fn hex_digit(n: int) -> char {
    if n == 0 {
        '0'
    } else if n == 1 {
        '1'
    } else if n == 2 {
        '2'
    } else if n == 3 {
        '3'
    } else if n == 4 {
        '4'
    } else if n == 5 {
        '5'
    } else if n == 6 {
        '6'
    } else if n == 7 {
        '7'
    } else if n == 8 {
        '8'
    } else if n == 9 {
        '9'
    } else if n == 10 {
        'a'
    } else if n == 11 {
        'b'
    } else if n == 12 {
        'c'
    } else if n == 13 {
        'd'
    } else if n == 14 {
        'e'
    } else {
        'f'
    }
}

/// Two lower-case hexadecimal digits per byte, the high half first.
pub open spec fn hex_lower(bytes: Seq<u8>) -> Seq<char> {
    Seq::new(
        2 * bytes.len(),
        |i: int|
            if i % 2 == 0 {
                hex_digit(bytes[i / 2] as int / 16)
            } else {
                hex_digit(bytes[i / 2] as int % 16)
            },
    )
}

/// The text that is signed: the two ids around the id separator.
pub open spec fn signed_data(user_id: Seq<char>, session_id: Seq<char>) -> Seq<char> {
    user_id + seq![ID_SEPARATOR] + session_id
}

/// The signature of `data` under `secret`.
pub open spec fn signature_spec(secret: Seq<char>, data: Seq<char>) -> Seq<char> {
    hex_lower(hmac_sha256(encode_utf8(secret), encode_utf8(data)))
}

/// A token: the signed data, the token separator, the signature.
pub open spec fn token_spec(
    user_id: Seq<char>,
    session_id: Seq<char>,
    signature: Seq<char>,
) -> Seq<char> {
    signed_data(user_id, session_id) + seq![TOKEN_SEPARATOR] + signature
}

/// The token that `secret` issues for the two ids.
pub open spec fn issued_token(
    secret: Seq<char>,
    user_id: Seq<char>,
    session_id: Seq<char>,
) -> Seq<char> {
    token_spec(user_id, session_id, signature_spec(secret, signed_data(user_id, session_id)))
}

/// Splits a token at its one `:` and the part before that at its one `.`.
pub open spec fn parse_token_spec(token: Seq<char>) -> Result<TokenPartsView, TokenError> {
    let colon = first_index(token, TOKEN_SEPARATOR);
    if colon == token.len() {
        Err(TokenError::NotEnoughParts)
    } else {
        let head = token.take(colon);
        let signature = token.skip(colon + 1);
        let dot = first_index(head, ID_SEPARATOR);
        if signature.contains(TOKEN_SEPARATOR) {
            Err(TokenError::NotEnoughParts)
        } else if dot == head.len() {
            Err(TokenError::NotEnoughIds)
        } else if head.skip(dot + 1).contains(ID_SEPARATOR) {
            Err(TokenError::NotEnoughIds)
        } else {
            Ok(
                TokenPartsView {
                    user_id: head.take(dot),
                    session_id: head.skip(dot + 1),
                    signature,
                },
            )
        }
    }
}

/// Accepts the parts exactly when they carry the expected signature.
pub open spec fn check_signature_spec(parts: TokenPartsView, expected: Seq<char>) -> Result<
    (Seq<char>, Seq<char>),
    TokenError,
> {
    if parts.signature == expected {
        Ok((parts.user_id, parts.session_id))
    } else {
        Err(TokenError::InvalidSignature)
    }
}

/// What verifying `token` under `secret` gives.
pub open spec fn verify_token_spec(secret: Seq<char>, token: Seq<char>) -> Result<
    (Seq<char>, Seq<char>),
    TokenError,
> {
    match parse_token_spec(token) {
        Err(e) => Err(e),
        Ok(parts) => check_signature_spec(
            parts,
            signature_spec(secret, signed_data(parts.user_id, parts.session_id)),
        ),
    }
}

/// The value of a verification result: the two ids as texts.
pub open spec fn ids_view(r: Result<(String, String), TokenError>) -> Result<
    (Seq<char>, Seq<char>),
    TokenError,
> {
    match r {
        Ok(ids) => Ok((ids.0@, ids.1@)),
        Err(e) => Err(e),
    }
}

/// The value of a parsing result.
pub open spec fn parts_view(r: Result<TokenParts, TokenError>) -> Result<
    TokenPartsView,
    TokenError,
> {
    match r {
        Ok(parts) => Ok(parts@),
        Err(e) => Err(e),
    }
}

/// Computes the tag with `Hmac<Sha256>` of the `hmac` crate: a fresh MAC keyed
/// with `key` (any key length is accepted), fed `message` once, finalised.
/// The contract names the tag and gives its length, the thirty-two bytes of
/// a SHA-256 output.
#[verifier::external_body]
fn hmac_sha256_tag(key: &[u8], message: &[u8]) -> (tag: Vec<u8>)
    ensures
        tag@ == hmac_sha256(key@, message@),
        tag@.len() == 32,
{
    let mut mac = Hmac::<Sha256>::new_from_slice(key).expect("error creating hmac");
    mac.update(message);
    mac.finalize().into_bytes().to_vec()
}

/// Calls `hex::encode`, which writes each byte as two lower-case hexadecimal
/// digits, the high four bits first.
#[verifier::external_body]
fn hex_encode(bytes: &[u8]) -> (text: String)
    ensures
        text@ == hex_lower(bytes@),
{
    hex::encode(bytes)
}

/// Compares two byte strings without leaving the loop early, so that the
/// running time depends on the length only and not on where they differ.
pub fn timing_safe_equals(a: &[u8], b: &[u8]) -> (equal: bool)
    ensures
        equal == (a@ == b@),
{
    if a.len() != b.len() {
        return false;
    }
    let mut result: u8 = 0;
    let mut i: usize = 0;
    while i < a.len()
        invariant
            a@.len() == b@.len(),
            i <= a@.len(),
            (result == 0) == (forall|j: int| 0 <= j < i ==> a@[j] == b@[j]),
        decreases a@.len() - i,
    {
        let x: u8 = a[i];
        let y: u8 = b[i];
        assert((result | (x ^ y)) == 0 <==> (result == 0 && x == y)) by (bit_vector);
        result |= x ^ y;
        i += 1;
    }
    assert(result == 0 ==> a@ =~= b@);
    result == 0
}

/// Signs `data_to_sign` under `secret`. A signature has sixty-four
/// characters, all of them hexadecimal digits.
pub fn create_signature(secret: &str, data_to_sign: &str) -> (signature: String)
    ensures
        signature@ == signature_spec(secret@, data_to_sign@),
        signature@.len() == SIGNATURE_LENGTH,
{
    let tag = hmac_sha256_tag(secret.as_bytes(), data_to_sign.as_bytes());
    hex_encode(tag.as_slice())
}

/// Joins the two ids into the text that is signed.
pub fn join_ids(user_id: &str, session_id: &str) -> (data: String)
    ensures
        data@ == signed_data(user_id@, session_id@),
{
    proof {
        reveal_strlit(".");
    }
    let mut data = user_id.to_owned();
    data.append(".");
    data.append(session_id);
    assert(data@ =~= signed_data(user_id@, session_id@));
    data
}

/// Puts a token together from its two ids and a signature.
pub fn assemble_token(user_id: &str, session_id: &str, signature: &str) -> (token: String)
    ensures
        token@ == token_spec(user_id@, session_id@, signature@),
{
    proof {
        reveal_strlit(":");
    }
    let mut token = join_ids(user_id, session_id);
    token.append(":");
    token.append(signature);
    assert(token@ =~= token_spec(user_id@, session_id@, signature@));
    token
}

/// Issues the token for a user's session.
pub fn create_token(secret: &str, user_id: &str, session_id: &str) -> (token: String)
    ensures
        token@ == issued_token(secret@, user_id@, session_id@),
        token@.len() == user_id@.len() + session_id@.len() + 2 + SIGNATURE_LENGTH,
{
    let data = join_ids(user_id, session_id);
    let signature = create_signature(secret, data.as_str());
    assemble_token(user_id, session_id, signature.as_str())
}

/// Splits a token into its three fields.
pub fn parse_token(token: &str) -> (r: Result<TokenParts, TokenError>)
    ensures
        parts_view(r) == parse_token_spec(token@),
{
    let len = token.unicode_len();
    let colon = find_char(token, TOKEN_SEPARATOR);
    if colon == len {
        return Err(TokenError::NotEnoughParts);
    }
    let head = token.substring_char(0, colon);
    let signature = token.substring_char(colon + 1, len);
    proof {
        assert(head@ =~= token@.take(colon as int));
        assert(signature@ =~= token@.skip(colon as int + 1));
        lemma_first_index(signature@, TOKEN_SEPARATOR);
        lemma_first_index(head@, ID_SEPARATOR);
    }
    if find_char(signature, TOKEN_SEPARATOR) != len - colon - 1 {
        return Err(TokenError::NotEnoughParts);
    }
    let dot = find_char(head, ID_SEPARATOR);
    if dot == colon {
        return Err(TokenError::NotEnoughIds);
    }
    let user_id = head.substring_char(0, dot);
    let session_id = head.substring_char(dot + 1, colon);
    proof {
        assert(user_id@ =~= head@.take(dot as int));
        assert(session_id@ =~= head@.skip(dot as int + 1));
        lemma_first_index(session_id@, ID_SEPARATOR);
    }
    if find_char(session_id, ID_SEPARATOR) != colon - dot - 1 {
        return Err(TokenError::NotEnoughIds);
    }
    Ok(
        TokenParts {
            user_id: user_id.to_owned(),
            session_id: session_id.to_owned(),
            signature: signature.to_owned(),
        },
    )
}

/// Accepts the parts of a token exactly when their signature is the expected
/// one; the comparison does not stop at the first difference.
pub fn check_signature(parts: TokenParts, expected_signature: &str) -> (r: Result<
    (String, String),
    TokenError,
>)
    ensures
        ids_view(r) == check_signature_spec(parts@, expected_signature@),
{
    let same = timing_safe_equals(parts.signature.as_str().as_bytes(), expected_signature.as_bytes());
    proof {
        if same {
            crate::text::lemma_encoding_injective(parts.signature@, expected_signature@);
        }
    }
    if same {
        Ok((parts.user_id, parts.session_id))
    } else {
        Err(TokenError::InvalidSignature)
    }
}

/// Verifies a token under `secret` and hands out the user id and the session
/// id it was issued for.
pub fn verify_token(secret: &str, token: &str) -> (r: Result<(String, String), TokenError>)
    ensures
        ids_view(r) == verify_token_spec(secret@, token@),
{
    match parse_token(token) {
        Err(e) => Err(e),
        Ok(parts) => {
            let data = join_ids(parts.user_id.as_str(), parts.session_id.as_str());
            let expected = create_signature(secret, data.as_str());
            check_signature(parts, expected.as_str())
        },
    }
}

/// A hexadecimal rendering holds neither separator.
pub proof fn lemma_hex_has_no_separator(bytes: Seq<u8>)
    ensures
        !hex_lower(bytes).contains(TOKEN_SEPARATOR),
        !hex_lower(bytes).contains(ID_SEPARATOR),
{
    let h = hex_lower(bytes);
    assert forall|i: int| 0 <= i < h.len() implies h[i] != TOKEN_SEPARATOR && h[i]
        != ID_SEPARATOR by {
        let b = bytes[i / 2] as int;
        assert(h[i] == hex_digit(b / 16) || h[i] == hex_digit(b % 16));
    }
}

/// Parsing an assembled token gives back its three fields, provided the ids
/// hold no separator and the signature holds no `:`.
pub proof fn lemma_parse_assembled(
    user_id: Seq<char>,
    session_id: Seq<char>,
    signature: Seq<char>,
)
    requires
        !user_id.contains(ID_SEPARATOR),
        !user_id.contains(TOKEN_SEPARATOR),
        !session_id.contains(ID_SEPARATOR),
        !session_id.contains(TOKEN_SEPARATOR),
        !signature.contains(TOKEN_SEPARATOR),
    ensures
        parse_token_spec(token_spec(user_id, session_id, signature)) == Ok::<
            TokenPartsView,
            TokenError,
        >(TokenPartsView { user_id, session_id, signature }),
{
    let data = signed_data(user_id, session_id);
    let token = token_spec(user_id, session_id, signature);
    assert forall|j: int| 0 <= j < data.len() implies data[j] != TOKEN_SEPARATOR by {
        if j < user_id.len() {
            assert(user_id.contains(data[j]));
        } else if j > user_id.len() {
            assert(session_id[j - user_id.len() - 1] == data[j]);
            assert(session_id.contains(data[j]));
        }
    }
    assert forall|j: int| 0 <= j < data.len() implies token[j] == data[j] by {}
    lemma_first_index_is(token, TOKEN_SEPARATOR, data.len() as int);
    assert(token.take(data.len() as int) =~= data);
    assert(token.skip(data.len() as int + 1) =~= signature);
    assert forall|j: int| 0 <= j < user_id.len() implies data[j] != ID_SEPARATOR by {
        assert(user_id.contains(data[j]));
    }
    lemma_first_index_is(data, ID_SEPARATOR, user_id.len() as int);
    assert(data.take(user_id.len() as int) =~= user_id);
    assert(data.skip(user_id.len() as int + 1) =~= session_id);
}

/// A token that the secret issued verifies under that secret and gives back
/// the ids it was issued for, provided the ids hold no separator.
pub proof fn lemma_issued_token_verifies(
    secret: Seq<char>,
    user_id: Seq<char>,
    session_id: Seq<char>,
)
    requires
        !user_id.contains(ID_SEPARATOR),
        !user_id.contains(TOKEN_SEPARATOR),
        !session_id.contains(ID_SEPARATOR),
        !session_id.contains(TOKEN_SEPARATOR),
    ensures
        verify_token_spec(secret, issued_token(secret, user_id, session_id)) == Ok::<
            (Seq<char>, Seq<char>),
            TokenError,
        >((user_id, session_id)),
{
    let data = signed_data(user_id, session_id);
    let signature = signature_spec(secret, data);
    lemma_hex_has_no_separator(hmac_sha256(encode_utf8(secret), encode_utf8(data)));
    lemma_parse_assembled(user_id, session_id, signature);
}

/// A token verifies only if it is the token that the secret issues for the
/// ids that come out.
pub proof fn lemma_verified_token_was_issued(secret: Seq<char>, token: Seq<char>)
    requires
        verify_token_spec(secret, token) is Ok,
    ensures
        token == issued_token(
            secret,
            verify_token_spec(secret, token)->Ok_0.0,
            verify_token_spec(secret, token)->Ok_0.1,
        ),
{
    let parts = parse_token_spec(token)->Ok_0;
    let colon = first_index(token, TOKEN_SEPARATOR);
    let head = token.take(colon);
    let dot = first_index(head, ID_SEPARATOR);
    lemma_first_index(token, TOKEN_SEPARATOR);
    lemma_first_index(head, ID_SEPARATOR);
    assert(head =~= signed_data(parts.user_id, parts.session_id));
    assert(token =~= token_spec(parts.user_id, parts.session_id, parts.signature));
}

} // verus!
