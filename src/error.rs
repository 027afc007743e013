use vstd::prelude::*;
use crate::outpoint::{OutPoint, outpoint_text};
use crate::version::{VersionError, version_message, decimal, push_decimal};

verus! {

/// Every way in which a wallet operation fails.
#[derive(Clone, Debug, PartialEq, Eq)]
pub enum WalletError {
    /// The node runs a version below the supported minimum.
    Version(VersionError),
    /// The named wallet holds descriptors other than the two taproot ones.
    WalletShape { wallet: String },
    /// The index did not reach the node's height within the attempt budget.
    SyncTimeout { target: u64 },
    /// An output held by the wallet is not in the index.
    NotIndexed(OutPoint),
    /// An output held by the wallet is spent according to the index.
    SpentInIndex(OutPoint),
    /// A locked output names an output index its transaction does not have.
    MissingOutput(OutPoint),
    /// The index does not track ordinal ranges.
    SatIndexRequired,
    /// No wallet output holds the ordinal.
    SatNotFound(u64),
    /// The index does not know the inscription.
    InscriptionNotFound { id: String },
    /// The seed gives no valid master key.
    InvalidSeed,
    /// The phrase is not a valid mnemonic.
    InvalidMnemonic,
}

/// The human-readable text of an error.
pub open spec fn error_message(e: WalletError) -> Seq<char> {
    match e {
        WalletError::Version(v) => version_message(v.required as nat, v.actual as nat),
        WalletError::WalletShape { wallet } => "wallet \""@ + wallet@
            + "\" contains unexpected output descriptors, and does not appear to be an `ord` wallet, create a new wallet with `ord wallet create`"@,
        WalletError::SyncTimeout { .. } => "wallet failed to synchronize to index"@,
        WalletError::NotIndexed(o) => "output in Bitcoin Core wallet but not in ord index: "@
            + outpoint_text(o),
        WalletError::SpentInIndex(o) => "output "@ + outpoint_text(o)
            + " in wallet but is spent according to index"@,
        WalletError::MissingOutput(o) => "locked output "@ + outpoint_text(o)
            + " is not among its transaction's outputs"@,
        WalletError::SatIndexRequired => "index must be built with `--index-sats` to use `--sat`"@,
        WalletError::SatNotFound(sat) => "could not find sat `"@ + decimal(sat as nat)
            + "` in wallet outputs"@,
        WalletError::InscriptionNotFound { id } => "inscription "@ + id@ + " not found"@,
        WalletError::InvalidSeed => "seed does not give a valid master key"@,
        WalletError::InvalidMnemonic => "invalid mnemonic phrase"@,
    }
}

impl WalletError {
    /// The human-readable text of the error.
    pub fn message(&self) -> (r: String)
        ensures
            r@ == error_message(*self),
    {
        match self {
            WalletError::Version(v) => v.message(),
            WalletError::WalletShape { wallet } => {
                let mut out = String::from_str("wallet \"");
                out.append(wallet.as_str());
                out.append(
                    "\" contains unexpected output descriptors, and does not appear to be an `ord` wallet, create a new wallet with `ord wallet create`",
                );
                out
            },
            WalletError::SyncTimeout { .. } => String::from_str(
                "wallet failed to synchronize to index",
            ),
            WalletError::NotIndexed(o) => {
                let mut out = String::from_str("output in Bitcoin Core wallet but not in ord index: ");
                let text = o.to_text();
                out.append(text.as_str());
                out
            },
            WalletError::SpentInIndex(o) => {
                let mut out = String::from_str("output ");
                let text = o.to_text();
                out.append(text.as_str());
                out.append(" in wallet but is spent according to index");
                out
            },
            WalletError::MissingOutput(o) => {
                let mut out = String::from_str("locked output ");
                let text = o.to_text();
                out.append(text.as_str());
                out.append(" is not among its transaction's outputs");
                out
            },
            WalletError::SatIndexRequired => String::from_str(
                "index must be built with `--index-sats` to use `--sat`",
            ),
            WalletError::SatNotFound(sat) => {
                let mut out = String::from_str("could not find sat `");
                push_decimal(&mut out, *sat);
                out.append("` in wallet outputs");
                out
            },
            WalletError::InscriptionNotFound { id } => {
                let mut out = String::from_str("inscription ");
                out.append(id.as_str());
                out.append(" not found");
                out
            },
            WalletError::InvalidSeed => String::from_str("seed does not give a valid master key"),
            WalletError::InvalidMnemonic => String::from_str("invalid mnemonic phrase"),
        }
    }
}

} // verus!
