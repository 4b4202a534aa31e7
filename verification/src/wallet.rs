//! A derived wallet: a seed phrase together with the address it derives to.
//!
//! Derivation itself (BIP-39 mnemonic to BIP-44 key to address) is performed
//! by the `ethers-signers` crate; this module treats it as an opaque
//! deterministic function of the phrase and records its outcome.
use vstd::prelude::*;
use crate::selector::addr_len;
use ethers_signers::Signer;

verus! {

/// The outcome of deriving an address from a seed phrase: `None` when the
/// phrase is not a valid mnemonic, `Some` of the address's canonical
/// textual encoding otherwise.  Derivation is a fixed deterministic scheme,
/// so the outcome is a function of the phrase alone.
pub uninterp spec fn derived_address(phrase: Seq<char>) -> Option<Seq<char>>;

/// A canonical textual address encoding: the two-character scheme marker
/// `0x` followed by forty hex digits, all ASCII.
pub open spec fn valid_address(a: Seq<char>) -> bool {
    &&& a.len() == addr_len()
    &&& a[0] == '0'
    &&& a[1] == 'x'
    &&& vstd::utf8::is_ascii_chars(a)
}

/// An immutable match candidate: an address and the seed phrase that
/// produced it.
#[derive(Debug)]
pub struct Wallet {
    pub address: String,
    pub phrase: String,
}

/// A failure to derive a wallet from a phrase, carrying the diagnostic text
/// of the underlying derivation error.
#[derive(Debug)]
pub struct WalletError {
    pub message: String,
}

/// Relies on `ethers_signers::MnemonicBuilder::build` with the phrase given
/// as a literal string (never a path) and the builder's default derivation
/// path and empty password: the outcome is a deterministic function of the
/// phrase, and a returned address is formatted by the fixed-hash `Debug`
/// impl as `0x` followed by forty lowercase hex digits.
#[verifier::external_body]
fn derive_address(phrase: &str) -> (r: Result<String, String>)
    ensures
        r is Ok <==> derived_address(phrase@) is Some,
        r matches Ok(a) ==> derived_address(phrase@) == Some(a@) && valid_address(a@),
{
    let pos = ethers_core::types::PathOrString::String(phrase.to_string());
    match ethers_signers::MnemonicBuilder::<ethers_signers::coins_bip39::English>::default()
        .phrase(pos)
        .build()
    {
        Ok(w) => Ok(format!("{:?}", w.address())),
        Err(e) => Err(format!("{:?}", e)),
    }
}

impl Wallet {
    /// A wallet is well formed when its address is the one its phrase
    /// derives to, in the canonical encoding.
    pub open spec fn wf(self) -> bool {
        &&& derived_address(self.phrase@) == Some(self.address@)
        &&& valid_address(self.address@)
    }

    /// Derives the wallet for a seed phrase.  Succeeds exactly when the
    /// phrase is a valid mnemonic; a failure carries the derivation error's
    /// diagnostic text and drops the candidate.
    pub fn new(phrase: String) -> (r: Result<Wallet, WalletError>)
        ensures
            r is Ok <==> derived_address(phrase@) is Some,
            r matches Ok(w) ==> w.phrase@ == phrase@ && w.wf(),
    {
        match derive_address(phrase.as_str()) {
            Ok(address) => Ok(Wallet { address, phrase }),
            Err(message) => Err(WalletError { message }),
        }
    }
}

} // verus!
