use vstd::prelude::*;
use crate::error::WalletError;

verus! {

/// An HTTP status in the client-error class.
pub open spec fn client_error(status: u16) -> bool {
    400 <= status < 500
}

/// Whether an HTTP status is in the client-error class.
pub fn is_client_error(status: u16) -> (r: bool)
    ensures
        r == client_error(status),
{
    400 <= status && status < 500
}

/// The index's answer to an inscription lookup: a client error means that it
/// does not know inscription `id`.
pub fn check_inscription_response(status: u16, id: &str) -> (r: Result<(), WalletError>)
    ensures
        r is Ok <==> !client_error(status),
        r matches Err(e) ==> (e matches WalletError::InscriptionNotFound { id: i } && i@ == id@),
{
    if is_client_error(status) {
        Err(WalletError::InscriptionNotFound { id: String::from_str(id) })
    } else {
        Ok(())
    }
}

/// The index's answer to a rune lookup: a client error means an unknown rune,
/// which is no failure but an absent rune.
pub fn rune_known(status: u16) -> (r: bool)
    ensures
        r == !client_error(status),
{
    !is_client_error(status)
}

} // verus!
