//! The status/address view of the anonymous transport, as the relay core
//! reads and stores it.

use vstd::prelude::*;

use crate::codec::dec_string_full;
use crate::error::Ip2pError;

verus! {

/// Body shape of the front door's status route.
#[derive(Clone, Copy, Debug)]
pub struct HttpProxyStatus {
    pub open: bool,
}

/// Whether the anonymous transport's tunnels are still opening or ready.
#[derive(Clone, Copy, Debug, PartialEq, Eq, Structural)]
pub enum ProxyStatus {
    Opening,
    Open,
}

impl ProxyStatus {
    /// The stored text form of the status.
    pub fn value(&self) -> (r: String)
        ensures
            *self == ProxyStatus::Opening ==> r@ == "opening\n"@,
            *self == ProxyStatus::Open ==> r@ == "open\n"@,
    {
        match *self {
            ProxyStatus::Opening => String::from_str("opening\n"),
            ProxyStatus::Open => String::from_str("open\n"),
        }
    }
}

/// The stored byte form of a status.
pub open spec fn enc_proxy_status(s: ProxyStatus) -> Seq<u8> {
    match s {
        ProxyStatus::Opening => seq![0u8],
        ProxyStatus::Open => seq![1u8],
    }
}

/// The status read back from stored bytes; anything but a well-formed
/// `Open` marker is taken as still opening.
pub open spec fn dec_proxy_status(b: Seq<u8>) -> ProxyStatus {
    if b.len() == 1 && b[0] == 1 {
        ProxyStatus::Open
    } else {
        ProxyStatus::Opening
    }
}

/// Frames a status as bytes for storage.
pub fn encode_proxy_status(s: &ProxyStatus) -> (r: Vec<u8>)
    ensures
        r@ == enc_proxy_status(*s),
{
    let mut out: Vec<u8> = Vec::new();
    match *s {
        ProxyStatus::Opening => out.push(0),
        ProxyStatus::Open => out.push(1),
    }
    proof {
        assert(out@ =~= enc_proxy_status(*s));
    }
    out
}

/// Round trip: a framed status decodes back to itself.
pub proof fn lemma_proxy_status_round_trip(s: ProxyStatus)
    ensures
        dec_proxy_status(enc_proxy_status(s)) == s,
{
}

/// Interprets what the store returned for the transport status key.
///
/// A failed or absent read and an empty value are store failures, exactly as
/// the status poller treats them; any other bytes yield a status.
pub fn check_connection(stored: &Option<Vec<u8>>) -> (r: Result<ProxyStatus, Ip2pError>)
    ensures
        stored is None ==> r == Result::<ProxyStatus, Ip2pError>::Err(Ip2pError::StoreFailure),
        stored matches Some(b) ==> r == (if b@.len() == 0 {
            Result::<ProxyStatus, Ip2pError>::Err(Ip2pError::StoreFailure)
        } else {
            Result::<ProxyStatus, Ip2pError>::Ok(dec_proxy_status(b@))
        }),
{
    match stored {
        Option::None => Result::Err(Ip2pError::StoreFailure),
        Option::Some(b) => {
            if b.len() == 0 {
                Result::Err(Ip2pError::StoreFailure)
            } else if b.len() == 1 && b[0] == 1 {
                Result::Ok(ProxyStatus::Open)
            } else {
                Result::Ok(ProxyStatus::Opening)
            }
        },
    }
}

/// The front door's status body: open exactly when the transport is ready.
pub fn get_i2p_status(status: &ProxyStatus) -> (r: HttpProxyStatus)
    ensures
        r.open == (*status == ProxyStatus::Open),
{
    HttpProxyStatus { open: *status == ProxyStatus::Open }
}

/// The local anonymous address a stored value holds: its decoded string, or
/// empty when the bytes are malformed.
pub open spec fn stored_destination(b: Seq<u8>) -> Seq<char> {
    match dec_string_full(b) {
        Option::Some(s) => s,
        Option::None => Seq::<char>::empty(),
    }
}

/// Interprets what the store returned for the local destination key: a
/// failed read is a store failure, malformed bytes fall back to the empty
/// address.
pub fn get_destination(stored: &Option<Vec<u8>>) -> (r: Result<String, Ip2pError>)
    ensures
        (r is Ok) == (stored is Some),
        stored matches Some(b) ==> (r matches Ok(s) && s@ == stored_destination(b@)),
        r matches Err(e) ==> e == Ip2pError::StoreFailure,
{
    match stored {
        Option::None => Result::Err(Ip2pError::StoreFailure),
        Option::Some(b) => match crate::codec::decode_string(b) {
            Option::Some(s) => Result::Ok(s),
            Option::None => Result::Ok(String::new()),
        },
    }
}

} // verus!
