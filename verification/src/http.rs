use vstd::prelude::*;
use vstd::string::StringSliceAdditionalSpecFns;
use vstd::utf8::{decode_utf8, valid_utf8};

use crate::pallet::Pallet;
use crate::price::parsed_price;

verus! {

/// The endpoint the price is fetched from while none is set.
pub const HTTP_DEFAULT_ENDPOINT: &'static str =
    "https://min-api.cryptocompare.com/data/price?fsym=BTC&tsyms=USD";

/// Why fetching the price failed.
#[derive(Clone, Copy, Debug, PartialEq, Eq)]
pub enum HttpError {
    /// Deadline has been reached.
    DeadlineReached,
    /// Request had timed out.
    IoError,
    /// Unknown error has been encountered: a bad status, a body that is no
    /// UTF-8 text, or no price in it.
    Unknown,
}

/// Decodes `bytes` as UTF-8 text with `sp_std::str::from_utf8` (that is,
/// `core::str::from_utf8`): text exactly when the bytes are valid UTF-8, and
/// then the text those bytes encode.
#[verifier::external_body]
fn str_from_utf8(bytes: &[u8]) -> (r: Option<&str>)
    ensures
        r is Some <==> valid_utf8(bytes@),
        r matches Some(s) ==> s@ == decode_utf8(bytes@) && s.spec_bytes() == bytes@,
{
    sp_std::str::from_utf8(bytes).ok()
}

/// The text of the endpoint to fetch from: the stored endpoint where one is
/// set and is UTF-8, else the default endpoint.
pub open spec fn endpoint_text(endpoint: Seq<u8>) -> Seq<char> {
    if endpoint.len() > 0 && valid_utf8(endpoint) {
        decode_utf8(endpoint)
    } else {
        HTTP_DEFAULT_ENDPOINT@
    }
}

/// What a response with status `code` and body `body` yields: the price in
/// cents that the body gives, or `Unknown` where the status is not 200, the
/// body is not UTF-8, or no price can be read from it.
pub open spec fn response_price(code: u16, body: Seq<u8>) -> Result<u32, HttpError> {
    if code != 200 || !valid_utf8(body) {
        Err(HttpError::Unknown)
    } else {
        match parsed_price(decode_utf8(body), body) {
            Some(price) => Ok(price),
            None => Err(HttpError::Unknown),
        }
    }
}

impl Pallet {
    /// The endpoint to send the price request to.
    pub fn http_endpoint_str(&self) -> (r: &str)
        ensures
            r@ == endpoint_text(self@.http_endpoint),
    {
        let mut endpoint_str = HTTP_DEFAULT_ENDPOINT;
        let endpoint = self.http_endpoint();
        if endpoint.len() > 0 {
            endpoint_str = match str_from_utf8(endpoint.as_slice()) {
                Some(text) => text,
                None => HTTP_DEFAULT_ENDPOINT,
            };
        }
        endpoint_str
    }

    /// Checks the status of the response to the price request: only 200 is
    /// accepted, before the body is read.
    pub fn check_response_status(code: u16) -> (r: Result<(), HttpError>)
        ensures
            r == (if code == 200 {
                Ok(())
            } else {
                Err(HttpError::Unknown)
            }),
    {
        if code != 200 {
            Err(HttpError::Unknown)
        } else {
            Ok(())
        }
    }

    /// Reads the price in cents from the response to the price request.
    pub fn price_from_response(code: u16, body: &[u8]) -> (r: Result<u32, HttpError>)
        ensures
            r == response_price(code, body@),
    {
        if let Err(e) = Self::check_response_status(code) {
            return Err(e);
        }
        let body_str = match str_from_utf8(body) {
            Some(text) => text,
            None => {
                return Err(HttpError::Unknown);
            },
        };
        match Self::parse_price(body_str) {
            Some(price) => Ok(price),
            None => Err(HttpError::Unknown),
        }
    }
}

} // verus!
