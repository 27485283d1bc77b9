//! The balance monitor's two halves of a poll: the request that is sent, and
//! what the answer is taken to say.

use vstd::prelude::*;
use vstd::string::StringExecFns;
use crate::body::{balance_in, read_balance};
use crate::control::BalanceFetchError;
use crate::model::BalanceReading;

verus! {

#[verifier::external_type_specification]
#[verifier::external_body]
pub struct ExHeaderValue(reqwest::header::HeaderValue);

#[verifier::external_type_specification]
#[verifier::external_body]
pub struct ExInvalidHeaderValue(reqwest::header::InvalidHeaderValue);

/// The octets that a header value holds, read as text.
pub uninterp spec fn header_text(value: reqwest::header::HeaderValue) -> Seq<char>;

/// A character that may stand in a header value: anything but a control
/// character, the tab excepted.
pub open spec fn is_header_char(c: char) -> bool {
    (c as u32 >= 32 && c as u32 != 127) || c as u32 == 9
}

/// A text that may be sent as a header value.
pub open spec fn is_header_text(text: Seq<char>) -> bool {
    forall|i: int| 0 <= i < text.len() ==> is_header_char(#[trigger] text[i])
}

/// `reqwest::header::HeaderValue::from_str`. It takes a text if and only if
/// none of its octets is a control character other than the tab (every octet
/// of a character beyond ASCII passes), and the value then holds the text's
/// octets.
#[verifier::external_body]
fn header_value(text: &str) -> (made: Result<
    reqwest::header::HeaderValue,
    reqwest::header::InvalidHeaderValue,
>)
    ensures
        made is Ok <==> is_header_text(text@),
        made matches Ok(value) ==> header_text(value) == text@,
{
    reqwest::header::HeaderValue::from_str(text)
}

/// Where the balance service answers.
pub const BALANCE_PATH: &'static str = "/api/v1/account-balances";

/// The media type that is asked for.
pub const ACCEPTED_TYPE: &'static str = "application/json";

/// What goes before the token in the authorization header.
pub const BEARER: &'static str = "Bearer ";

/// One read of the balance service: a `GET` of [`BALANCE_PATH`] with these
/// two headers.
#[derive(Debug)]
pub struct BalanceRequest {
    /// The `Accept` header.
    pub accept: reqwest::header::HeaderValue,
    /// The `Authorization` header.
    pub authorization: reqwest::header::HeaderValue,
}

/// Why no request can be made.
#[derive(Clone, Copy, Debug, PartialEq, Eq)]
pub enum RequestError {
    /// The token holds a character that no header can carry.
    InvalidToken,
}

/// The request that reads the balance on behalf of the holder of `token`.
/// It is refused exactly when the token cannot be sent in a header.
pub fn balance_request(token: &str) -> (made: Result<BalanceRequest, RequestError>)
    ensures
        made is Ok <==> is_header_text(token@),
        made matches Ok(request) ==> header_text(request.accept) == ACCEPTED_TYPE@ && header_text(
            request.authorization,
        ) == BEARER@ + token@,
{
    proof {
        reveal_strlit("application/json");
        reveal_strlit("Bearer ");
        assert(is_header_text(ACCEPTED_TYPE@));
        assert(is_header_text(BEARER@));
    }
    let line = String::from_str(BEARER).concat(token);
    proof {
        let joined = BEARER@ + token@;
        if is_header_text(token@) {
            assert forall|i: int| 0 <= i < joined.len() implies is_header_char(
                #[trigger] joined[i],
            ) by {
                if i >= BEARER@.len() {
                    assert(joined[i] == token@[i - BEARER@.len()]);
                }
            }
        }
        if is_header_text(joined) {
            assert forall|i: int| 0 <= i < token@.len() implies is_header_char(
                #[trigger] token@[i],
            ) by {
                assert(token@[i] == joined[i + BEARER@.len()]);
            }
        }
    }
    let authorization = match header_value(line.as_str()) {
        Ok(value) => value,
        Err(_) => {
            return Err(RequestError::InvalidToken);
        },
    };
    match header_value(ACCEPTED_TYPE) {
        Ok(accept) => Ok(BalanceRequest { accept, authorization }),
        Err(_) => Err(RequestError::InvalidToken),
    }
}

/// What an answer says: a status outside 200 to 299 is an error whatever the
/// body holds; otherwise the body must hold a balance.
pub open spec fn reading_of(status: u16, body: Seq<u8>, taken_at: u64) -> Result<
    BalanceReading,
    BalanceFetchError,
> {
    if !(200 <= status < 300) {
        Err(BalanceFetchError::Status { code: status })
    } else {
        match balance_in(body) {
            Some(value) => Ok(BalanceReading { value, taken_at }),
            None => Err(BalanceFetchError::MalformedBody),
        }
    }
}

/// Takes an answer of the balance service, received at `taken_at`, for a
/// reading or for a failed poll.
pub fn read_answer(status: u16, body: &[u8], taken_at: u64) -> (outcome: Result<
    BalanceReading,
    BalanceFetchError,
>)
    ensures
        outcome == reading_of(status, body@, taken_at),
{
    if status < 200 || status >= 300 {
        return Err(BalanceFetchError::Status { code: status });
    }
    match read_balance(body) {
        Some(value) => Ok(BalanceReading { value, taken_at }),
        None => Err(BalanceFetchError::MalformedBody),
    }
}

} // verus!
