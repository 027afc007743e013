use vstd::prelude::*;
use miniscript::descriptor::{DescriptorSecretKey, DescriptorXKey, Wildcard};
use crate::error::WalletError;
use crate::shape::{DescriptorKind, kind_of, has_prefix, taproot_tag, shape_ok, count_kind};

verus! {

#[verifier::external_type_specification]
#[verifier::external_body]
pub struct ExBip32Error(bitcoin::bip32::Error);

#[verifier::external_type_specification]
#[verifier::external_body]
pub struct ExBip39Error(bip39::Error);

/// The chain a wallet lives on.
#[derive(Clone, Copy, Debug, PartialEq, Eq, Structural)]
pub enum Network {
    Bitcoin,
    Testnet,
    Signet,
    Regtest,
}

/// BIP 86 purpose index of taproot single-key wallets.
pub const TAPROOT_PURPOSE: u32 = 86;

/// Flag that marks a hardened child number.
pub const HARDENED: u32 = 0x8000_0000;

/// A descriptor to import into the node, active, with a birth time of now.
#[derive(Clone, Debug, PartialEq, Eq)]
pub struct DescriptorImport {
    /// The descriptor with its secret key.
    pub descriptor: String,
    pub active: bool,
    /// Whether it derives change addresses.
    pub internal: bool,
}

pub open spec fn is_mainnet(network: Network) -> bool {
    network == Network::Bitcoin
}

/// Child numbers of the account path `m/86'/coin'/0'`; the coin type is 0 on
/// the main chain and 1 elsewhere.
pub open spec fn account_path_spec(network: Network) -> Seq<u32> {
    seq![
        (TAPROOT_PURPOSE + HARDENED) as u32,
        (if is_mainnet(network) { 0u32 } else { 1u32 } + HARDENED) as u32,
        HARDENED,
    ]
}

/// Child number of the receive (0) or change (1) branch, unhardened.
pub open spec fn branch_step(change: bool) -> u32 {
    if change {
        1u32
    } else {
        0u32
    }
}

/// BIP 32 encoding of the master key of `seed`, for the main chain or a test
/// chain; `None` when the seed gives no valid secret key.
pub uninterp spec fn master_key_of(seed: Seq<u8>, mainnet: bool) -> Option<Seq<u8>>;

/// Whether bytes decode as a BIP 32 extended private key.
pub uninterp spec fn key_decodes(key: Seq<u8>) -> bool;

/// Fingerprint of an encoded extended private key.
pub uninterp spec fn fingerprint_of(key: Seq<u8>) -> Seq<u8>;

/// Encoding of the child of an encoded key along a path of child numbers.
pub uninterp spec fn child_key_of(key: Seq<u8>, path: Seq<u32>) -> Seq<u8>;

/// Text, with the secret key, of the key-path-only taproot descriptor of an
/// encoded key with origin `fingerprint`/`origin`, further steps `steps`, and
/// an unhardened wildcard when `wildcard` holds.
pub uninterp spec fn taproot_descriptor_of(
    key: Seq<u8>,
    fingerprint: Seq<u8>,
    origin: Seq<u32>,
    steps: Seq<u32>,
    wildcard: bool,
) -> Seq<char>;

/// Whether a phrase parses as a BIP 39 mnemonic.
pub uninterp spec fn phrase_valid(phrase: Seq<char>) -> bool;

/// The BIP 39 seed of a phrase and passphrase.
pub uninterp spec fn seed_of(phrase: Seq<char>, passphrase: Seq<char>) -> Seq<u8>;

/// Relies on bitcoin's `ExtendedPrivKey::new_master` and `encode`: the master
/// key of a seed, encoded; depth 0.
#[verifier::external_body]
fn new_master_key(network: Network, seed: &[u8; 64]) -> (r: Result<Vec<u8>, bitcoin::bip32::Error>)
    ensures
        r is Ok <==> master_key_of(seed@, is_mainnet(network)) is Some,
        r matches Ok(k) ==> Some(k@) == master_key_of(seed@, is_mainnet(network)) && key_decodes(k@)
            && k@.len() == 78 && k@[4] == 0,
{
    let network = match network {
        Network::Bitcoin => bitcoin::Network::Bitcoin,
        Network::Testnet => bitcoin::Network::Testnet,
        Network::Signet => bitcoin::Network::Signet,
        Network::Regtest => bitcoin::Network::Regtest,
    };
    Ok(bitcoin::bip32::ExtendedPrivKey::new_master(network, seed)?.encode().to_vec())
}

/// Relies on bitcoin's `ExtendedPrivKey::decode` and `fingerprint`.
#[verifier::external_body]
fn key_fingerprint(key: &Vec<u8>) -> (r: [u8; 4])
    requires
        key_decodes(key@),
    ensures
        r@ == fingerprint_of(key@),
{
    let key = bitcoin::bip32::ExtendedPrivKey::decode(key).expect("decodable key");
    *AsRef::<[u8; 4]>::as_ref(&key.fingerprint(&bitcoin::secp256k1::Secp256k1::new()))
}

/// Relies on bitcoin's `ExtendedPrivKey::decode`, `derive_priv` and `encode`:
/// each step adds one to the depth (byte 4), which must stay within a byte.
#[verifier::external_body]
fn derive_child(key: &Vec<u8>, path: &Vec<u32>) -> (r: Vec<u8>)
    requires
        key_decodes(key@),
        key@.len() == 78,
        key@[4] + path@.len() <= 255,
    ensures
        r@ == child_key_of(key@, path@),
        key_decodes(r@),
        r@.len() == 78,
        r@[4] == key@[4] + path@.len(),
{
    let key = bitcoin::bip32::ExtendedPrivKey::decode(key).expect("decodable key");
    let path: Vec<bitcoin::bip32::ChildNumber> = path.iter().map(|&n| n.into()).collect();
    let secp = bitcoin::secp256k1::Secp256k1::new();
    key.derive_priv(&secp, &path).expect("derivation fails only on depth").encode().to_vec()
}

/// Relies on miniscript's `DescriptorSecretKey::to_public`, `Descriptor::new_tr`
/// and `to_string_with_secret`. With unhardened steps neither call fails; the
/// text opens with `tr(`.
#[verifier::external_body]
fn taproot_descriptor(key: &Vec<u8>, fingerprint: [u8; 4], origin: &Vec<u32>, steps: &Vec<u32>, wildcard: bool) -> (r: String)
    requires
        key_decodes(key@),
        forall|i: int| 0 <= i < steps@.len() ==> steps@[i] < HARDENED,
    ensures
        r@ == taproot_descriptor_of(key@, fingerprint@, origin@, steps@, wildcard),
        has_prefix(r@, taproot_tag()),
{
    let path = |p: &Vec<u32>| p.iter().map(|&n| n.into()).collect::<Vec<bitcoin::bip32::ChildNumber>>().into();
    let secret = DescriptorSecretKey::XPrv(DescriptorXKey {
        origin: Some((fingerprint.into(), path(origin))),
        xkey: bitcoin::bip32::ExtendedPrivKey::decode(key).expect("decodable key"),
        derivation_path: path(steps),
        wildcard: if wildcard { Wildcard::Unhardened } else { Wildcard::None },
    });
    let public = secret.to_public(&bitcoin::secp256k1::Secp256k1::new()).expect("unhardened steps");
    let key_map = std::collections::HashMap::from([(public.clone(), secret)]);
    miniscript::Descriptor::new_tr(public, None).expect("compressed key").to_string_with_secret(&key_map)
}

/// Relies on bip39's `Mnemonic::parse` and `Mnemonic::to_seed`.
#[verifier::external_body]
fn mnemonic_seed(phrase: &str, passphrase: &str) -> (r: Result<[u8; 64], bip39::Error>)
    ensures
        r is Ok <==> phrase_valid(phrase@),
        r matches Ok(s) ==> s@ == seed_of(phrase@, passphrase@),
{
    Ok(bip39::Mnemonic::parse(phrase)?.to_seed(passphrase))
}

/// The account path for `network`.
pub fn account_path(network: Network) -> (r: Vec<u32>)
    ensures
        r@ == account_path_spec(network),
{
    let coin: u32 = match network {
        Network::Bitcoin => 0,
        _ => 1,
    };
    let r = vec![TAPROOT_PURPOSE + HARDENED, coin + HARDENED, HARDENED];
    assert(r@ =~= account_path_spec(network));
    r
}

/// The import of the receive (`change` false) or change (`change` true)
/// descriptor of an account key whose origin is `fingerprint` and `path`:
/// the branch step, then an unhardened wildcard.
pub fn derive_descriptor_import(
    fingerprint: [u8; 4],
    path: &Vec<u32>,
    account_key: &Vec<u8>,
    change: bool,
) -> (r: DescriptorImport)
    requires
        key_decodes(account_key@),
    ensures
        r.descriptor@ == taproot_descriptor_of(
            account_key@,
            fingerprint@,
            path@,
            seq![branch_step(change)],
            true,
        ),
        r.active,
        r.internal == change,
        kind_of(r.descriptor@) == DescriptorKind::Taproot,
{
    let steps: Vec<u32> = vec![if change { 1 } else { 0 }];
    assert(steps@ =~= seq![branch_step(change)]);
    let descriptor = taproot_descriptor(account_key, fingerprint, path, &steps, true);
    DescriptorImport { descriptor, active: true, internal: change }
}

/// Descriptor text of one branch of the wallet whose encoded master key is
/// `master`.
pub open spec fn branch_descriptor(master: Seq<u8>, network: Network, change: bool) -> Seq<char> {
    taproot_descriptor_of(
        child_key_of(master, account_path_spec(network)),
        fingerprint_of(master),
        account_path_spec(network),
        seq![branch_step(change)],
        true,
    )
}

/// Descriptor text of one branch of the wallet of `seed` on `network`.
pub open spec fn wallet_descriptor(seed: Seq<u8>, network: Network, change: bool) -> Seq<char> {
    branch_descriptor(master_key_of(seed, is_mainnet(network))->Some_0, network, change)
}

/// Whether `ds` are the two imports of a new wallet: the receive descriptor,
/// then the change descriptor, both active taproot descriptors.
pub open spec fn wallet_imports(ds: Seq<DescriptorImport>) -> bool {
    &&& ds.len() == 2
    &&& !ds[0].internal && ds[1].internal
    &&& ds[0].active && ds[1].active
    &&& kind_of(ds[0].descriptor@) == DescriptorKind::Taproot
    &&& kind_of(ds[1].descriptor@) == DescriptorKind::Taproot
}

/// The two descriptors of the wallet of `seed` on `network`: from the master
/// key, along the account path, the receive and then the change branch.
/// Fails only when the seed gives no valid master key.
pub fn wallet_descriptors(seed: &[u8; 64], network: Network) -> (r: Result<
    Vec<DescriptorImport>,
    WalletError,
>)
    ensures
        r is Ok <==> master_key_of(seed@, is_mainnet(network)) is Some,
        r matches Ok(v) ==> wallet_imports(v@) && v@[0].descriptor@ == wallet_descriptor(
            seed@,
            network,
            false,
        ) && v@[1].descriptor@ == wallet_descriptor(seed@, network, true),
        r matches Err(e) ==> e == WalletError::InvalidSeed,
{
    let master = match new_master_key(network, seed) {
        Ok(k) => k,
        Err(_) => {
            return Err(WalletError::InvalidSeed);
        },
    };
    let fingerprint = key_fingerprint(&master);
    let path = account_path(network);
    let account_key = derive_child(&master, &path);
    let receive = derive_descriptor_import(fingerprint, &path, &account_key, false);
    let change = derive_descriptor_import(fingerprint, &path, &account_key, true);
    let v = vec![receive, change];
    assert(v@[0] == receive && v@[1] == change);
    Ok(v)
}

/// Restores a wallet from a mnemonic phrase and passphrase.
pub struct Restore {
    pub mnemonic: String,
    pub passphrase: String,
}

impl Restore {
    /// The two descriptors of the wallet that the phrase and passphrase seed.
    pub fn run(&self, network: Network) -> (r: Result<Vec<DescriptorImport>, WalletError>)
        ensures
            !phrase_valid(self.mnemonic@) ==> r == Err::<Vec<DescriptorImport>, WalletError>(
                WalletError::InvalidMnemonic,
            ),
            phrase_valid(self.mnemonic@) ==> (r is Ok <==> master_key_of(
                seed_of(self.mnemonic@, self.passphrase@),
                is_mainnet(network),
            ) is Some),
            phrase_valid(self.mnemonic@) ==> (r matches Err(e) ==> e == WalletError::InvalidSeed),
            r matches Ok(v) ==> wallet_imports(v@) && v@[0].descriptor@ == wallet_descriptor(
                seed_of(self.mnemonic@, self.passphrase@),
                network,
                false,
            ) && v@[1].descriptor@ == wallet_descriptor(
                seed_of(self.mnemonic@, self.passphrase@),
                network,
                true,
            ),
    {
        match mnemonic_seed(self.mnemonic.as_str(), self.passphrase.as_str()) {
            Ok(seed) => wallet_descriptors(&seed, network),
            Err(_) => Err(WalletError::InvalidMnemonic),
        }
    }
}

/// Derivation depends on the seed and the network alone: two wallets from the
/// same seed on the same network get the same descriptors.
pub proof fn lemma_descriptors_deterministic(
    seed1: Seq<u8>,
    seed2: Seq<u8>,
    network: Network,
    change: bool,
)
    requires
        seed1 == seed2,
    ensures
        wallet_descriptor(seed1, network, change) == wallet_descriptor(seed2, network, change),
{
}

/// The descriptors that a new wallet receives are the ones the wallet shape
/// check accepts, whatever raw taproot descriptors the node adds beside them.
pub proof fn lemma_initialized_wallet_shape(imports: Seq<DescriptorImport>, listed: Seq<String>)
    requires
        wallet_imports(imports),
        listed.len() >= 2,
        listed[0]@ == imports[0].descriptor@,
        listed[1]@ == imports[1].descriptor@,
        forall|i: int| 2 <= i < listed.len() ==> kind_of(#[trigger] listed[i]@) == DescriptorKind::RawTaproot,
    ensures
        shape_ok(listed),
{
    lemma_counts(listed, listed.len() as int);
}

proof fn lemma_counts(listed: Seq<String>, n: int)
    requires
        2 <= n <= listed.len(),
        kind_of(listed[0]@) == DescriptorKind::Taproot,
        kind_of(listed[1]@) == DescriptorKind::Taproot,
        forall|i: int| 2 <= i < listed.len() ==> kind_of(#[trigger] listed[i]@) == DescriptorKind::RawTaproot,
    ensures
        count_kind(listed, DescriptorKind::Taproot, n) == 2,
        count_kind(listed, DescriptorKind::RawTaproot, n) == n - 2,
    decreases n,
{
    if n > 2 {
        lemma_counts(listed, n - 1);
        assert(kind_of(listed[n - 1]@) == DescriptorKind::RawTaproot);
    } else {
        assert(count_kind(listed, DescriptorKind::Taproot, 0) == 0);
        assert(count_kind(listed, DescriptorKind::RawTaproot, 0) == 0);
        assert(count_kind(listed, DescriptorKind::Taproot, 1) == 1);
        assert(count_kind(listed, DescriptorKind::RawTaproot, 1) == 0);
    }
}

} // verus!
