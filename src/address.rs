//! Addresses: base58check and bech32 strings, payloads and output scripts.
use bitcoin_hashes::Hash as DigestHash;
use bitcoin::util::base58::Error as Base58Failure;
use crypto::digest::Digest;
use secp256k1::PublicKey as SecpKey;
use syscoin_bech32::constants::Network as HrpNetwork;
use syscoin_bech32::Error as WitnessError;
use vstd::prelude::*;
use vstd::string::StringSliceAdditionalSpecFns;

verus! {

/// RIPEMD-160 of SHA-256, as computed by `bitcoin_hashes::hash160`.
pub uninterp spec fn hash160(data: Seq<u8>) -> Seq<u8>;

/// SHA-256, as computed by `crypto::sha2::Sha256`.
pub uninterp spec fn sha256(data: Seq<u8>) -> Seq<u8>;

/// Base58check encoding of a byte string, as produced by `bitcoin::util::base58`.
pub uninterp spec fn base58check(data: Seq<u8>) -> Seq<char>;

/// Base58check decoding of a string, as done by `bitcoin::util::base58::from_check`.
pub uninterp spec fn base58check_decoded(s: Seq<char>) -> Result<Seq<u8>, Base58Error>;

/// Segwit decoding of a bech32 string, as done by `syscoin_bech32`: version,
/// program and network.
pub uninterp spec fn bech32_decoded(s: Seq<char>) -> Result<(u8, Seq<u8>, Bech32Network), Bech32Error>;

/// Bech32 string of a witness program, as produced by `syscoin_bech32`.
pub uninterp spec fn bech32_encoded(program: (u8, Seq<u8>, Bech32Network)) -> Seq<char>;

/// The network an address is meant for.
#[derive(Clone, Copy, PartialEq, Eq, Debug, Structural)]
pub enum Network {
    Bitcoin,
    Testnet,
    Regtest,
    Liquid,
    LiquidRegtest,
}

/// The networks that bech32 human-readable parts name.
#[derive(Clone, Copy, PartialEq, Eq, Debug, Structural)]
pub enum Bech32Network {
    Bitcoin,
    Testnet,
    Regtest,
    Litecoin,
    LitecoinTestnet,
    Vertcoin,
    VertcoinTestnet,
    Syscoin,
    SyscoinTestnet,
}

/// Why a base58check string was refused.
#[derive(Clone, Copy, PartialEq, Eq, Debug, Structural)]
pub enum Base58Error {
    /// A character outside the base58 alphabet.
    BadByte(u8),
    /// Checksum mismatch: expected, then found.
    BadChecksum(u32, u32),
    /// The decoded data, or the string, has a length that no address has.
    InvalidLength(usize),
    /// The version byte names no known address kind.
    InvalidVersion(u8),
    /// Fewer than four bytes: no room for a checksum.
    TooShort(usize),
    /// Any other failure.
    Other,
}

/// Why a bech32 string was refused.
#[derive(Clone, Copy, PartialEq, Eq, Debug, Structural)]
pub enum Bech32Error {
    /// The string is not valid bech32.
    Encoding,
    InvalidHumanReadablePart,
    ScriptPubkeyTooShort,
    ScriptPubkeyInvalidLength,
    /// The program is shorter than 2 or longer than 40 bytes.
    InvalidLength,
    /// A version 0 program is neither 20 nor 32 bytes long.
    InvalidVersionLength,
    /// The witness version is above 16.
    InvalidScriptVersion,
}

/// Why an address string was refused.
#[derive(Clone, Copy, PartialEq, Eq, Debug, Structural)]
pub enum AddressError {
    Base58(Base58Error),
    Bech32(Bech32Error),
    /// The witness version is not 0.
    UnsupportedWitnessVersion(u8),
    /// The bech32 string belongs to a network that has no address here.
    UnknownNetwork(Bech32Network),
}

/// Rules that every decoded or built witness program obeys.
pub open spec fn witness_program_valid(version: u8, program: Seq<u8>) -> bool {
    &&& version <= 16
    &&& 2 <= program.len() <= 40
    &&& version == 0 ==> (program.len() == 20 || program.len() == 32)
}

/// Relies on `bitcoin_hashes::hash160::Hash::hash`: a 20-byte digest of the input.
#[verifier::external_body]
fn hash160_digest(data: &[u8]) -> (r: Vec<u8>)
    ensures
        r@ == hash160(data@),
        r@.len() == 20,
{
    bitcoin_hashes::hash160::Hash::hash(data).into_inner().to_vec()
}

/// Relies on `crypto::sha2::Sha256`: the 32-byte SHA-256 digest of the input.
#[verifier::external_body]
fn sha256_digest(data: &[u8]) -> (r: Vec<u8>)
    ensures
        r@ == sha256(data@),
        r@.len() == 32,
{
    let mut digest = crypto::sha2::Sha256::new();
    digest.input(data);
    let mut d = [0u8; 32];
    digest.result(&mut d);
    d.to_vec()
}

/// Relies on `bitcoin::util::base58::check_encode_slice`.
#[verifier::external_body]
fn base58_check_encode(data: &[u8]) -> (r: String)
    ensures
        r@ == base58check(data@),
{
    bitcoin::util::base58::check_encode_slice(data)
}

/// Relies on `bitcoin::util::base58::from_check`. Its source indexes a
/// 128-entry table by each byte after testing `byte > 128`, so the byte 128
/// is left out here.
#[verifier::external_body]
fn base58_from_check(s: &str) -> (r: Result<Vec<u8>, Base58Error>)
    requires
        !s.spec_bytes().contains(128u8),
    ensures
        match r {
            Ok(v) => base58check_decoded(s@) == Ok::<Seq<u8>, Base58Error>(v@),
            Err(e) => base58check_decoded(s@) == Err::<Seq<u8>, Base58Error>(e),
        },
{
    bitcoin::util::base58::from_check(s).map_err(|e| match e {
        Base58Failure::BadByte(b) => Base58Error::BadByte(b),
        Base58Failure::BadChecksum(x, y) => Base58Error::BadChecksum(x, y),
        Base58Failure::InvalidLength(n) => Base58Error::InvalidLength(n),
        Base58Failure::InvalidVersion(_) => Base58Error::Other,
        Base58Failure::TooShort(n) => Base58Error::TooShort(n),
        Base58Failure::Other(_) => Base58Error::Other,
    })
}

#[verifier::external_type_specification]
pub struct ExBech32Network(HrpNetwork);

#[verifier::external_type_specification]
#[verifier::external_body]
pub struct ExSecpPublicKey(SecpKey);

pub open spec fn bech32_network_of(n: HrpNetwork) -> Bech32Network {
    match n {
        HrpNetwork::Bitcoin => Bech32Network::Bitcoin,
        HrpNetwork::Testnet => Bech32Network::Testnet,
        HrpNetwork::Regtest => Bech32Network::Regtest,
        HrpNetwork::Litecoin => Bech32Network::Litecoin,
        HrpNetwork::LitecoinTestnet => Bech32Network::LitecoinTestnet,
        HrpNetwork::Vertcoin => Bech32Network::Vertcoin,
        HrpNetwork::VertcoinTestnet => Bech32Network::VertcoinTestnet,
        HrpNetwork::Syscoin => Bech32Network::Syscoin,
        HrpNetwork::SyscoinTestnet => Bech32Network::SyscoinTestnet,
    }
}

fn from_bech32_network(n: HrpNetwork) -> (r: Bech32Network)
    ensures
        r == bech32_network_of(n),
{
    match n {
        HrpNetwork::Bitcoin => Bech32Network::Bitcoin,
        HrpNetwork::Testnet => Bech32Network::Testnet,
        HrpNetwork::Regtest => Bech32Network::Regtest,
        HrpNetwork::Litecoin => Bech32Network::Litecoin,
        HrpNetwork::LitecoinTestnet => Bech32Network::LitecoinTestnet,
        HrpNetwork::Vertcoin => Bech32Network::Vertcoin,
        HrpNetwork::VertcoinTestnet => Bech32Network::VertcoinTestnet,
        HrpNetwork::Syscoin => Bech32Network::Syscoin,
        HrpNetwork::SyscoinTestnet => Bech32Network::SyscoinTestnet,
    }
}

fn to_bech32_network(n: Bech32Network) -> (r: HrpNetwork)
    ensures
        bech32_network_of(r) == n,
{
    match n {
        Bech32Network::Bitcoin => HrpNetwork::Bitcoin,
        Bech32Network::Testnet => HrpNetwork::Testnet,
        Bech32Network::Regtest => HrpNetwork::Regtest,
        Bech32Network::Litecoin => HrpNetwork::Litecoin,
        Bech32Network::LitecoinTestnet => HrpNetwork::LitecoinTestnet,
        Bech32Network::Vertcoin => HrpNetwork::Vertcoin,
        Bech32Network::VertcoinTestnet => HrpNetwork::VertcoinTestnet,
        Bech32Network::Syscoin => HrpNetwork::Syscoin,
        Bech32Network::SyscoinTestnet => HrpNetwork::SyscoinTestnet,
    }
}

/// Relies on `syscoin_bech32::WitnessProgram::from_address`: decodes the
/// string and checks the program against version 0..16, 2..40 bytes, and 20
/// or 32 bytes for version 0 (its `validate`).
#[verifier::external_body]
fn bech32_decode(s: &str) -> (r: Result<(u8, Vec<u8>, HrpNetwork), Bech32Error>)
    ensures
        match r {
            Ok((v, p, n)) => bech32_decoded(s@) == Ok::<(u8, Seq<u8>, Bech32Network), Bech32Error>(
                (v, p@, bech32_network_of(n)),
            ) && witness_program_valid(v, p@),
            Err(e) => bech32_decoded(s@) == Err::<(u8, Seq<u8>, Bech32Network), Bech32Error>(e),
        },
{
    syscoin_bech32::WitnessProgram::from_address(s).map(
        |w| (w.version().to_u8(), w.program().to_vec(), w.network()),
    ).map_err(|e| match e {
        WitnessError::Bech32(_) => Bech32Error::Encoding,
        WitnessError::InvalidHumanReadablePart => Bech32Error::InvalidHumanReadablePart,
        WitnessError::ScriptPubkeyTooShort => Bech32Error::ScriptPubkeyTooShort,
        WitnessError::ScriptPubkeyInvalidLength => Bech32Error::ScriptPubkeyInvalidLength,
        WitnessError::InvalidLength => Bech32Error::InvalidLength,
        WitnessError::InvalidVersionLength => Bech32Error::InvalidVersionLength,
        WitnessError::InvalidScriptVersion => Bech32Error::InvalidScriptVersion,
    })
}

/// Relies on `syscoin_bech32::WitnessProgram::new` and `to_address`; `new`
/// succeeds on a program that passes its `validate`.
#[verifier::external_body]
fn bech32_encode(version: u8, program: &Vec<u8>, network: HrpNetwork) -> (r: String)
    requires
        witness_program_valid(version, program@),
    ensures
        r@ == bech32_encoded((version, program@, bech32_network_of(network))),
{
    let v = syscoin_bech32::u5::try_from_u8(version).unwrap();
    syscoin_bech32::WitnessProgram::new(v, program.clone(), network).unwrap().to_address()
}

/// The key that `secp256k1::PublicKey::from_slice` reads from some bytes.
pub uninterp spec fn secp_key_of(data: Seq<u8>) -> Option<SecpKey>;

/// The 33-byte encoding that `secp256k1::PublicKey::serialize` gives.
pub uninterp spec fn secp_compressed_of(pk: SecpKey) -> Seq<u8>;

/// The 65-byte encoding that `secp256k1::PublicKey::serialize_uncompressed` gives.
pub uninterp spec fn secp_uncompressed_of(pk: SecpKey) -> Seq<u8>;

/// Relies on `secp256k1::PublicKey::from_slice`: a point in compressed or
/// uncompressed encoding, or `None`.
#[verifier::external_body]
fn secp_parse(data: &[u8]) -> (r: Option<SecpKey>)
    ensures
        r == secp_key_of(data@),
{
    SecpKey::from_slice(data).ok()
}

/// Relies on `secp256k1::PublicKey::serialize`: the 33-byte compressed form.
#[verifier::external_body]
fn secp_serialize(pk: &SecpKey) -> (r: Vec<u8>)
    ensures
        r@ == secp_compressed_of(*pk),
        r@.len() == 33,
{
    pk.serialize().to_vec()
}

/// Relies on `secp256k1::PublicKey::serialize_uncompressed`: the 65-byte form.
#[verifier::external_body]
fn secp_serialize_uncompressed(pk: &SecpKey) -> (r: Vec<u8>)
    ensures
        r@ == secp_uncompressed_of(*pk),
        r@.len() == 65,
{
    pk.serialize_uncompressed().to_vec()
}

/// A secp256k1 public key, held in its two serialized forms.
#[derive(Clone, Debug)]
pub struct PublicKey {
    compressed: Vec<u8>,
    uncompressed: Vec<u8>,
}

impl PublicKey {
    pub closed spec fn spec_compressed(&self) -> Seq<u8> {
        self.compressed@
    }

    pub closed spec fn spec_uncompressed(&self) -> Seq<u8> {
        self.uncompressed@
    }

    pub open spec fn wf(&self) -> bool {
        self.spec_compressed().len() == 33 && self.spec_uncompressed().len() == 65
    }

    /// Reads a key in compressed (33-byte) or uncompressed (65-byte) form;
    /// `None` when the bytes are not a point of the curve.
    pub fn from_slice(data: &[u8]) -> (r: Option<PublicKey>)
        ensures
            r is Some <==> secp_key_of(data@) is Some,
            r matches Some(k) ==> k.wf() && k.spec_compressed() == secp_compressed_of(
                secp_key_of(data@)->0,
            ) && k.spec_uncompressed() == secp_uncompressed_of(secp_key_of(data@)->0),
    {
        match secp_parse(data) {
            None => None,
            Some(pk) => Some(
                PublicKey {
                    compressed: secp_serialize(&pk),
                    uncompressed: secp_serialize_uncompressed(&pk),
                },
            ),
        }
    }

    /// The 33-byte compressed encoding.
    pub fn serialize(&self) -> (r: &Vec<u8>)
        ensures
            r@ == self.spec_compressed(),
    {
        &self.compressed
    }

    /// The 65-byte uncompressed encoding.
    pub fn serialize_uncompressed(&self) -> (r: &Vec<u8>)
        ensures
            r@ == self.spec_uncompressed(),
    {
        &self.uncompressed
    }
}

/// A segwit program: witness version, program bytes and bech32 network.
#[derive(Clone, Debug)]
pub struct WitnessProgram {
    pub version: u8,
    pub program: Vec<u8>,
    pub network: Bech32Network,
}

/// What an address pays to.
#[derive(Clone, Debug)]
pub enum Payload {
    /// Pay to a public key.
    Pubkey(PublicKey),
    /// Pay to the hash160 of a public key.
    PubkeyHash(Vec<u8>),
    /// Pay to the hash160 of a script.
    ScriptHash(Vec<u8>),
    /// Pay to a segwit program.
    WitnessProgram(WitnessProgram),
}

/// A payload with its byte strings as sequences.
pub enum PayloadModel {
    /// Compressed and uncompressed encodings of the key.
    Pubkey(Seq<u8>, Seq<u8>),
    PubkeyHash(Seq<u8>),
    ScriptHash(Seq<u8>),
    WitnessProgram(u8, Seq<u8>, Bech32Network),
}

impl Payload {
    pub open spec fn view(&self) -> PayloadModel {
        match self {
            Payload::Pubkey(k) => PayloadModel::Pubkey(k.spec_compressed(), k.spec_uncompressed()),
            Payload::PubkeyHash(h) => PayloadModel::PubkeyHash(h@),
            Payload::ScriptHash(h) => PayloadModel::ScriptHash(h@),
            Payload::WitnessProgram(w) => PayloadModel::WitnessProgram(
                w.version,
                w.program@,
                w.network,
            ),
        }
    }

    pub open spec fn wf(&self) -> bool {
        match self {
            Payload::Pubkey(k) => k.wf(),
            Payload::PubkeyHash(h) => h@.len() == 20,
            Payload::ScriptHash(h) => h@.len() == 20,
            Payload::WitnessProgram(w) => witness_program_valid(w.version, w.program@),
        }
    }
}

/// An address: a payload and the network it is meant for.
#[derive(Clone, Debug)]
pub struct Address {
    pub payload: Payload,
    pub network: Network,
}

impl Address {
    pub open spec fn view(&self) -> (Network, PayloadModel) {
        (self.network, self.payload@)
    }

    pub open spec fn wf(&self) -> bool {
        self.payload.wf()
    }
}

pub open spec fn has_prefix(b: Seq<u8>, p: Seq<u8>) -> bool {
    p.len() <= b.len() && b.subrange(0, p.len() as int) == p
}

/// Strings that are read as bech32: those that start with `sc1`, `ts1` or
/// `scrt1` (compared as ASCII bytes), all in lower or all in upper case.
pub open spec fn bech32_candidate(b: Seq<u8>) -> bool {
    has_prefix(b, seq![115u8, 99u8, 49u8]) || has_prefix(b, seq![83u8, 67u8, 49u8])
        || has_prefix(b, seq![116u8, 115u8, 49u8]) || has_prefix(b, seq![84u8, 83u8, 49u8])
        || has_prefix(b, seq![115u8, 99u8, 114u8, 116u8, 49u8]) || has_prefix(
        b,
        seq![83u8, 67u8, 82u8, 84u8, 49u8],
    )
}

/// The network of a bech32 network, where it has addresses here.
pub open spec fn network_of_bech32(n: Bech32Network) -> Option<Network> {
    match n {
        Bech32Network::Syscoin => Some(Network::Bitcoin),
        Bech32Network::SyscoinTestnet => Some(Network::Testnet),
        Bech32Network::Regtest => Some(Network::Regtest),
        _ => None,
    }
}

/// Network and kind (`true` for script hash) named by a base58 version byte.
/// The Liquid bytes count only when `liquid` is set.
pub open spec fn base58_kind(version: u8, liquid: bool) -> Option<(Network, bool)> {
    if version == 0 {
        Some((Network::Bitcoin, false))
    } else if version == 5 {
        Some((Network::Bitcoin, true))
    } else if version == 111 {
        Some((Network::Testnet, false))
    } else if version == 196 {
        Some((Network::Testnet, true))
    } else if liquid && version == 57 {
        Some((Network::Liquid, false))
    } else if liquid && version == 39 {
        Some((Network::Liquid, true))
    } else if liquid && version == 235 {
        Some((Network::LiquidRegtest, false))
    } else if liquid && version == 75 {
        Some((Network::LiquidRegtest, true))
    } else {
        None
    }
}

/// What reading an address string yields.
pub open spec fn parse_spec(b: Seq<u8>, s: Seq<char>, liquid: bool) -> Result<
    (Network, PayloadModel),
    AddressError,
> {
    if bech32_candidate(b) {
        match bech32_decoded(s) {
            Err(e) => Err(AddressError::Bech32(e)),
            Ok((v, p, n)) => match network_of_bech32(n) {
                None => Err(AddressError::UnknownNetwork(n)),
                Some(net) => if v != 0 {
                    Err(AddressError::UnsupportedWitnessVersion(v))
                } else {
                    Ok((net, PayloadModel::WitnessProgram(v, p, n)))
                },
            },
        }
    } else if b.len() > 50 {
        Err(AddressError::Base58(Base58Error::InvalidLength((b.len() * 11 / 15) as usize)))
    } else if b.contains(128u8) {
        Err(AddressError::Base58(Base58Error::BadByte(128u8)))
    } else {
        match base58check_decoded(s) {
            Err(e) => Err(AddressError::Base58(e)),
            Ok(d) => if d.len() != 21 {
                Err(AddressError::Base58(Base58Error::InvalidLength(d.len() as usize)))
            } else {
                match base58_kind(d[0], liquid) {
                    None => Err(AddressError::Base58(Base58Error::InvalidVersion(d[0]))),
                    Some((net, script)) => Ok(
                        (
                            net,
                            if script {
                                PayloadModel::ScriptHash(d.subrange(1, 21))
                            } else {
                                PayloadModel::PubkeyHash(d.subrange(1, 21))
                            },
                        ),
                    ),
                }
            },
        }
    }
}

fn starts_with(b: &[u8], p: &[u8]) -> (r: bool)
    ensures
        r == has_prefix(b@, p@),
{
    if p.len() > b.len() {
        return false;
    }
    let mut i: usize = 0;
    while i < p.len()
        invariant
            p@.len() <= b@.len(),
            i <= p@.len(),
            forall|j: int| 0 <= j < i ==> b@[j] == p@[j],
        decreases p@.len() - i,
    {
        if b[i] != p[i] {
            assert(b@.subrange(0, p@.len() as int)[i as int] != p@[i as int]);
            return false;
        }
        i = i + 1;
    }
    assert(b@.subrange(0, p@.len() as int) =~= p@);
    true
}

fn is_bech32_candidate(b: &[u8]) -> (r: bool)
    ensures
        r == bech32_candidate(b@),
{
    let r = starts_with(b, vec![115u8, 99u8, 49u8].as_slice()) || starts_with(
        b,
        vec![83u8, 67u8, 49u8].as_slice(),
    ) || starts_with(b, vec![116u8, 115u8, 49u8].as_slice()) || starts_with(
        b,
        vec![84u8, 83u8, 49u8].as_slice(),
    ) || starts_with(b, vec![115u8, 99u8, 114u8, 116u8, 49u8].as_slice()) || starts_with(
        b,
        vec![83u8, 67u8, 82u8, 84u8, 49u8].as_slice(),
    );
    r
}

fn contains_byte(b: &[u8], x: u8) -> (r: bool)
    ensures
        r == b@.contains(x),
{
    let mut i: usize = 0;
    while i < b.len()
        invariant
            i <= b@.len(),
            forall|j: int| 0 <= j < i ==> b@[j] != x,
        decreases b@.len() - i,
    {
        if b[i] == x {
            return true;
        }
        i = i + 1;
    }
    false
}

/// `src[from..to]` as a new vector.
fn copy_range(src: &[u8], from: usize, to: usize) -> (r: Vec<u8>)
    requires
        from <= to <= src@.len(),
    ensures
        r@ == src@.subrange(from as int, to as int),
{
    let mut out: Vec<u8> = Vec::new();
    let mut i: usize = from;
    while i < to
        invariant
            from <= i <= to <= src@.len(),
            out@ == src@.subrange(from as int, i as int),
        decreases to - i,
    {
        out.push(src[i]);
        i = i + 1;
        assert(out@ =~= src@.subrange(from as int, i as int));
    }
    out
}

impl Address {
    /// Reads an address string. Strings with a bech32 prefix are decoded as
    /// segwit programs of version 0; the others as base58check with a version
    /// byte and a 20-byte hash. The Liquid version bytes count only when
    /// `liquid` is set.
    pub fn parse(s: &str, liquid: bool) -> (r: Result<Address, AddressError>)
        ensures
            match r {
                Ok(a) => parse_spec(s.spec_bytes(), s@, liquid) == Ok::<
                    (Network, PayloadModel),
                    AddressError,
                >(a@) && a.wf(),
                Err(e) => parse_spec(s.spec_bytes(), s@, liquid) == Err::<
                    (Network, PayloadModel),
                    AddressError,
                >(e),
            },
    {
        let b = s.as_bytes();
        if is_bech32_candidate(b) {
            let (v, program, hrp) = match bech32_decode(s) {
                Ok(w) => w,
                Err(e) => return Err(AddressError::Bech32(e)),
            };
            let n = from_bech32_network(hrp);
            let network = match n {
                Bech32Network::Syscoin => Network::Bitcoin,
                Bech32Network::SyscoinTestnet => Network::Testnet,
                Bech32Network::Regtest => Network::Regtest,
                _ => return Err(AddressError::UnknownNetwork(n)),
            };
            if v != 0 {
                return Err(AddressError::UnsupportedWitnessVersion(v));
            }
            return Ok(
                Address {
                    network,
                    payload: Payload::WitnessProgram(WitnessProgram { version: v, program, network: n }),
                },
            );
        }
        let len = b.len();
        if len > 50 {
            let estimate = ((len as u128) * 11 / 15) as usize;
            proof {
                let l = len as int;
                assert(l * 11 / 15 <= l) by (nonlinear_arith)
                    requires
                        l >= 0,
                ;
            }
            return Err(AddressError::Base58(Base58Error::InvalidLength(estimate)));
        }
        if contains_byte(b, 128u8) {
            return Err(AddressError::Base58(Base58Error::BadByte(128u8)));
        }
        let data = match base58_from_check(s) {
            Ok(d) => d,
            Err(e) => return Err(AddressError::Base58(e)),
        };
        if data.len() != 21 {
            return Err(AddressError::Base58(Base58Error::InvalidLength(data.len())));
        }
        let version = data[0];
        let hash = copy_range(data.as_slice(), 1, 21);
        let (network, script) = if version == 0 {
            (Network::Bitcoin, false)
        } else if version == 5 {
            (Network::Bitcoin, true)
        } else if version == 111 {
            (Network::Testnet, false)
        } else if version == 196 {
            (Network::Testnet, true)
        } else if liquid && version == 57 {
            (Network::Liquid, false)
        } else if liquid && version == 39 {
            (Network::Liquid, true)
        } else if liquid && version == 235 {
            (Network::LiquidRegtest, false)
        } else if liquid && version == 75 {
            (Network::LiquidRegtest, true)
        } else {
            return Err(AddressError::Base58(Base58Error::InvalidVersion(version)));
        };
        let payload = if script {
            Payload::ScriptHash(hash)
        } else {
            Payload::PubkeyHash(hash)
        };
        Ok(Address { network, payload })
    }
}

/// Base58 version byte of a pay-to-pubkey-hash address.
pub open spec fn pubkey_hash_prefix(n: Network) -> u8 {
    match n {
        Network::Bitcoin => 0,
        Network::Testnet | Network::Regtest => 111,
        Network::Liquid => 57,
        Network::LiquidRegtest => 235,
    }
}

/// Base58 version byte of a pay-to-script-hash address.
pub open spec fn script_hash_prefix(n: Network) -> u8 {
    match n {
        Network::Bitcoin => 5,
        Network::Testnet | Network::Regtest => 196,
        Network::Liquid => 39,
        Network::LiquidRegtest => 75,
    }
}

/// The string form of an address. A pay-to-pubkey payload is shown as the
/// pay-to-pubkey-hash address of its uncompressed key.
pub open spec fn display_spec(a: (Network, PayloadModel)) -> Seq<char> {
    match a.1 {
        PayloadModel::Pubkey(_, u) => base58check(seq![pubkey_hash_prefix(a.0)] + hash160(u)),
        PayloadModel::PubkeyHash(h) => base58check(seq![pubkey_hash_prefix(a.0)] + h),
        PayloadModel::ScriptHash(h) => base58check(seq![script_hash_prefix(a.0)] + h),
        PayloadModel::WitnessProgram(v, p, n) => bech32_encoded((v, p, n)),
    }
}

/// A script opcode that pushes `d`, for data shorter than 76 bytes.
pub open spec fn push_data(d: Seq<u8>) -> Seq<u8> {
    seq![d.len() as u8] + d
}

/// The output script that pays to a payload.
pub open spec fn script_spec(p: PayloadModel) -> Seq<u8> {
    match p {
        PayloadModel::Pubkey(_, u) => push_data(u) + seq![0xacu8],
        PayloadModel::PubkeyHash(h) => seq![0x76u8, 0xa9u8] + push_data(h) + seq![0x88u8, 0xacu8],
        PayloadModel::ScriptHash(h) => seq![0xa9u8] + push_data(h) + seq![0x87u8],
        PayloadModel::WitnessProgram(v, prog, _) => seq![
            if v == 0 {
                0u8
            } else {
                (0x50 + v) as u8
            },
        ] + push_data(prog),
    }
}

/// The bech32 network used for segwit addresses of a network.
pub open spec fn bech_network_spec(n: Network) -> Bech32Network {
    match n {
        Network::Bitcoin => Bech32Network::Syscoin,
        Network::Testnet => Bech32Network::SyscoinTestnet,
        Network::Regtest => Bech32Network::Regtest,
        Network::Liquid | Network::LiquidRegtest => Bech32Network::Syscoin,
    }
}

/// Appends `data` to `out`.
fn push_all(out: &mut Vec<u8>, data: &[u8])
    ensures
        final(out)@ == old(out)@ + data@,
{
    let ghost start = out@;
    let mut i: usize = 0;
    while i < data.len()
        invariant
            i <= data@.len(),
            out@ == start + data@.subrange(0, i as int),
        decreases data@.len() - i,
    {
        out.push(data[i]);
        i = i + 1;
        assert(out@ =~= start + data@.subrange(0, i as int));
    }
    assert(data@.subrange(0, data@.len() as int) =~= data@);
}

/// A version byte followed by `data`.
fn prefixed(version: u8, data: &[u8]) -> (r: Vec<u8>)
    ensures
        r@ == seq![version] + data@,
{
    let mut out: Vec<u8> = Vec::new();
    out.push(version);
    push_all(&mut out, data);
    assert(out@ =~= seq![version] + data@);
    out
}

/// Appends a push of `data`, shorter than 76 bytes, to a script.
fn push_slice(out: &mut Vec<u8>, data: &[u8])
    requires
        data@.len() < 76,
    ensures
        final(out)@ == old(out)@ + push_data(data@),
{
    out.push(data.len() as u8);
    push_all(out, data);
    assert(final(out)@ =~= old(out)@ + push_data(data@));
}

fn pubkey_hash_prefix_of(n: Network) -> (r: u8)
    ensures
        r == pubkey_hash_prefix(n),
{
    match n {
        Network::Bitcoin => 0,
        Network::Testnet | Network::Regtest => 111,
        Network::Liquid => 57,
        Network::LiquidRegtest => 235,
    }
}

fn script_hash_prefix_of(n: Network) -> (r: u8)
    ensures
        r == script_hash_prefix(n),
{
    match n {
        Network::Bitcoin => 5,
        Network::Testnet | Network::Regtest => 196,
        Network::Liquid => 39,
        Network::LiquidRegtest => 75,
    }
}

impl Address {
    /// The string form: base58check for key and script hashes, bech32 for
    /// witness programs.
    pub fn to_string(&self) -> (r: String)
        requires
            self.wf(),
        ensures
            r@ == display_spec(self@),
    {
        match &self.payload {
            Payload::Pubkey(k) => {
                let h = hash160_digest(k.uncompressed.as_slice());
                let data = prefixed(pubkey_hash_prefix_of(self.network), h.as_slice());
                base58_check_encode(data.as_slice())
            },
            Payload::PubkeyHash(h) => {
                let data = prefixed(pubkey_hash_prefix_of(self.network), h.as_slice());
                base58_check_encode(data.as_slice())
            },
            Payload::ScriptHash(h) => {
                let data = prefixed(script_hash_prefix_of(self.network), h.as_slice());
                base58_check_encode(data.as_slice())
            },
            Payload::WitnessProgram(w) => {
                bech32_encode(w.version, &w.program, to_bech32_network(w.network))
            },
        }
    }

    /// The output script that pays to this address.
    pub fn script_pubkey(&self) -> (r: Vec<u8>)
        requires
            self.wf(),
        ensures
            r@ == script_spec(self.payload@),
    {
        let mut out: Vec<u8> = Vec::new();
        match &self.payload {
            Payload::Pubkey(k) => {
                push_slice(&mut out, k.uncompressed.as_slice());
                out.push(0xac);
            },
            Payload::PubkeyHash(h) => {
                out.push(0x76);
                out.push(0xa9);
                push_slice(&mut out, h.as_slice());
                out.push(0x88);
                out.push(0xac);
            },
            Payload::ScriptHash(h) => {
                out.push(0xa9);
                push_slice(&mut out, h.as_slice());
                out.push(0x87);
            },
            Payload::WitnessProgram(w) => {
                if w.version == 0 {
                    out.push(0);
                } else {
                    out.push(0x50 + w.version);
                }
                push_slice(&mut out, w.program.as_slice());
            },
        }
        proof {
            assert(out@ =~= script_spec(self.payload@));
        }
        out
    }

    /// The bech32 network for segwit addresses of `network`.
    fn bech_network(network: Network) -> (r: Bech32Network)
        ensures
            r == bech_network_spec(network),
    {
        match network {
            Network::Bitcoin => Bech32Network::Syscoin,
            Network::Testnet => Bech32Network::SyscoinTestnet,
            Network::Regtest => Bech32Network::Regtest,
            Network::Liquid | Network::LiquidRegtest => Bech32Network::Syscoin,
        }
    }
}

impl PublicKey {
    fn duplicate(&self) -> (r: PublicKey)
        ensures
            r.spec_compressed() == self.spec_compressed(),
            r.spec_uncompressed() == self.spec_uncompressed(),
    {
        PublicKey { compressed: self.compressed.clone(), uncompressed: self.uncompressed.clone() }
    }
}

impl Address {
    /// Pay to the hash of the compressed key.
    pub fn p2pkh(pk: &PublicKey, network: Network) -> (r: Address)
        ensures
            r@ == (network, PayloadModel::PubkeyHash(hash160(pk.spec_compressed()))),
            hash160(pk.spec_compressed()).len() == 20,
            r.wf(),
    {
        Address { network, payload: Payload::PubkeyHash(hash160_digest(pk.compressed.as_slice())) }
    }

    /// Pay to the hash of the uncompressed key.
    pub fn p2upkh(pk: &PublicKey, network: Network) -> (r: Address)
        ensures
            r@ == (network, PayloadModel::PubkeyHash(hash160(pk.spec_uncompressed()))),
            hash160(pk.spec_uncompressed()).len() == 20,
            r.wf(),
    {
        Address {
            network,
            payload: Payload::PubkeyHash(hash160_digest(pk.uncompressed.as_slice())),
        }
    }

    /// Pay to the key itself.
    pub fn p2pk(pk: &PublicKey, network: Network) -> (r: Address)
        requires
            pk.wf(),
        ensures
            r@ == (network, PayloadModel::Pubkey(pk.spec_compressed(), pk.spec_uncompressed())),
            r.wf(),
    {
        Address { network, payload: Payload::Pubkey(pk.duplicate()) }
    }

    /// Pay to the hash of a script.
    pub fn p2sh(script: &[u8], network: Network) -> (r: Address)
        ensures
            r@ == (network, PayloadModel::ScriptHash(hash160(script@))),
            hash160(script@).len() == 20,
            r.wf(),
    {
        Address { network, payload: Payload::ScriptHash(hash160_digest(script)) }
    }

    /// Segwit version 0 program holding the hash of the compressed key.
    pub fn p2wpkh(pk: &PublicKey, network: Network) -> (r: Address)
        ensures
            r@ == (network, PayloadModel::WitnessProgram(
                0,
                hash160(pk.spec_compressed()),
                bech_network_spec(network),
            )),
            hash160(pk.spec_compressed()).len() == 20,
            r.wf(),
    {
        let program = hash160_digest(pk.compressed.as_slice());
        Address {
            network,
            payload: Payload::WitnessProgram(
                WitnessProgram { version: 0, program, network: Address::bech_network(network) },
            ),
        }
    }

    /// Script hash of the version 0 key-hash program, for wallets that know
    /// only script hashes.
    pub fn p2shwpkh(pk: &PublicKey, network: Network) -> (r: Address)
        ensures
            r@ == (network, PayloadModel::ScriptHash(
                hash160(seq![0u8] + push_data(hash160(pk.spec_compressed()))),
            )),
            hash160(pk.spec_compressed()).len() == 20,
            r.wf(),
    {
        let h = hash160_digest(pk.compressed.as_slice());
        let mut script: Vec<u8> = Vec::new();
        script.push(0);
        push_slice(&mut script, h.as_slice());
        assert(script@ =~= seq![0u8] + push_data(h@));
        Address { network, payload: Payload::ScriptHash(hash160_digest(script.as_slice())) }
    }

    /// Segwit version 0 program holding the SHA-256 of a script.
    pub fn p2wsh(script: &[u8], network: Network) -> (r: Address)
        ensures
            r@ == (network, PayloadModel::WitnessProgram(
                0,
                sha256(script@),
                bech_network_spec(network),
            )),
            sha256(script@).len() == 32,
            r.wf(),
    {
        let program = sha256_digest(script);
        Address {
            network,
            payload: Payload::WitnessProgram(
                WitnessProgram { version: 0, program, network: Address::bech_network(network) },
            ),
        }
    }

    /// Script hash of the version 0 script-hash program.
    pub fn p2shwsh(script: &[u8], network: Network) -> (r: Address)
        ensures
            r@ == (network, PayloadModel::ScriptHash(
                hash160(seq![0u8] + push_data(sha256(script@))),
            )),
            sha256(script@).len() == 32,
            r.wf(),
    {
        let d = sha256_digest(script);
        let mut ws: Vec<u8> = Vec::new();
        ws.push(0);
        push_slice(&mut ws, d.as_slice());
        assert(ws@ =~= seq![0u8] + push_data(d@));
        Address { network, payload: Payload::ScriptHash(hash160_digest(ws.as_slice())) }
    }
}

/// Re-encoding a decoded address gives back the encoding of exactly what was
/// decoded: the same base58check bytes, or the same bech32 program.
pub proof fn lemma_reencode_decoded(b: Seq<u8>, s: Seq<char>, liquid: bool)
    requires
        parse_spec(b, s, liquid) is Ok,
    ensures
        bech32_candidate(b) ==> bech32_decoded(s) is Ok && display_spec(parse_spec(b, s, liquid)->Ok_0)
            == bech32_encoded(bech32_decoded(s)->Ok_0),
        !bech32_candidate(b) ==> base58check_decoded(s) is Ok && display_spec(
            parse_spec(b, s, liquid)->Ok_0,
        ) == base58check(base58check_decoded(s)->Ok_0),
{
    if !bech32_candidate(b) {
        let d = base58check_decoded(s)->Ok_0;
        assert(seq![d[0]] + d.subrange(1, 21) =~= d);
    }
}

impl std::str::FromStr for Address {
    type Err = AddressError;

    /// Reads an address of the Bitcoin-style networks (no Liquid version bytes).
    fn from_str(s: &str) -> Result<Address, AddressError> {
        Address::parse(s, false)
    }
}

} // verus!
