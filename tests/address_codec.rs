use electrs_index::address::{
    Address, AddressError, Base58Error, Bech32Error, Bech32Network, Network, Payload, PublicKey,
    WitnessProgram,
};

fn hex_bytes(s: &str) -> Vec<u8> {
    (0..s.len() / 2).map(|i| u8::from_str_radix(&s[2 * i..2 * i + 2], 16).unwrap()).collect()
}

const G_COMPRESSED: &str = "0279be667ef9dcbbac55a06295ce870b07029bfcdb2dce28d959f2815b16f81798";
const G_HASH160: &str = "751e76e8199196d454941c45d1b3a323f1433bd6";

fn g() -> PublicKey {
    PublicKey::from_slice(&hex_bytes(G_COMPRESSED)).unwrap()
}

fn parse(s: &str) -> Result<Address, AddressError> {
    s.parse::<Address>()
}

#[test]
fn public_key_forms() {
    let k = g();
    assert_eq!(k.serialize().len(), 33);
    assert_eq!(k.serialize_uncompressed().len(), 65);
    assert_eq!(k.serialize_uncompressed()[0], 4);
    assert_eq!(k.serialize_uncompressed()[1..33], hex_bytes(G_COMPRESSED)[1..]);
    assert!(PublicKey::from_slice(&[1, 2, 3]).is_none());
}

#[test]
fn p2pkh_of_generator() {
    let a = Address::p2pkh(&g(), Network::Bitcoin);
    match &a.payload {
        Payload::PubkeyHash(h) => assert_eq!(h, &hex_bytes(G_HASH160)),
        _ => panic!("wrong payload"),
    }
    assert_eq!(a.to_string(), "1BgGZ9tcN4rm9KBzDn7KprQz87SZ26SAMH");
    let mut script = vec![0x76, 0xa9, 0x14];
    script.extend(hex_bytes(G_HASH160));
    script.extend([0x88, 0xac]);
    assert_eq!(a.script_pubkey(), script);
}

#[test]
fn p2upkh_of_generator() {
    let a = Address::p2upkh(&g(), Network::Bitcoin);
    assert_eq!(a.to_string(), "1EHNa6Q4Jz2uvNExL497mE43ikXhwF6kZm");
}

#[test]
fn p2pk_shows_hash_of_uncompressed_key() {
    let a = Address::p2pk(&g(), Network::Bitcoin);
    assert_eq!(a.to_string(), "1EHNa6Q4Jz2uvNExL497mE43ikXhwF6kZm");
    let s = a.script_pubkey();
    assert_eq!(s.len(), 67);
    assert_eq!(s[0], 65);
    assert_eq!(s[66], 0xac);
}

#[test]
fn base58_mainnet_key_hash_decodes() {
    let a = parse("1BgGZ9tcN4rm9KBzDn7KprQz87SZ26SAMH").unwrap();
    assert_eq!(a.network, Network::Bitcoin);
    match &a.payload {
        Payload::PubkeyHash(h) => assert_eq!(h, &hex_bytes(G_HASH160)),
        _ => panic!("wrong payload"),
    }
}

#[test]
fn base58_round_trip() {
    for s in [
        "1BgGZ9tcN4rm9KBzDn7KprQz87SZ26SAMH",
        "3J98t1WpEZ73CNmQviecrnyiWrnqRhWNLy",
        "mipcBbFg9gMiCh81Kj8tqqdgoZub1ZJRfn",
    ] {
        assert_eq!(parse(s).unwrap().to_string(), s);
    }
}

#[test]
fn base58_script_hash_and_testnet() {
    let a = parse("3J98t1WpEZ73CNmQviecrnyiWrnqRhWNLy").unwrap();
    assert_eq!(a.network, Network::Bitcoin);
    assert!(matches!(a.payload, Payload::ScriptHash(_)));
    let t = parse("mipcBbFg9gMiCh81Kj8tqqdgoZub1ZJRfn").unwrap();
    assert_eq!(t.network, Network::Testnet);
    assert!(matches!(t.payload, Payload::PubkeyHash(_)));
}

#[test]
fn p2sh_script_layout() {
    let a = Address::p2sh(&[0x51], Network::Testnet);
    let s = a.script_pubkey();
    assert_eq!(s.len(), 23);
    assert_eq!((s[0], s[1], s[22]), (0xa9, 0x14, 0x87));
    assert!(a.to_string().starts_with('2'));
}

#[test]
fn liquid_version_bytes_need_liquid() {
    let a = Address { network: Network::Liquid, payload: Payload::PubkeyHash(hex_bytes(G_HASH160)) };
    let s = a.to_string();
    let back = Address::parse(&s, true).unwrap();
    assert_eq!(back.network, Network::Liquid);
    assert!(matches!(back.payload, Payload::PubkeyHash(_)));
    assert_eq!(back.to_string(), s);
    assert_eq!(
        Address::parse(&s, false).unwrap_err(),
        AddressError::Base58(Base58Error::InvalidVersion(57))
    );
}

#[test]
fn base58_too_long() {
    let s = "1".repeat(51);
    assert_eq!(parse(&s).unwrap_err(), AddressError::Base58(Base58Error::InvalidLength(37)));
}

#[test]
fn base58_bad_checksum() {
    let r = parse("1BgGZ9tcN4rm9KBzDn7KprQz87SZ26SAMJ");
    assert!(matches!(r, Err(AddressError::Base58(Base58Error::BadChecksum(_, _)))));
}

#[test]
fn base58_bad_characters() {
    assert_eq!(parse("10OIl").unwrap_err(), AddressError::Base58(Base58Error::BadByte(b'0')));
    assert_eq!(parse("1\u{400}").unwrap_err(), AddressError::Base58(Base58Error::BadByte(128)));
}

#[test]
fn base58_short_payload() {
    let r = parse("1111");
    assert!(matches!(r, Err(AddressError::Base58(Base58Error::TooShort(_)))
        | Err(AddressError::Base58(Base58Error::BadChecksum(_, _)))));
}

#[test]
fn p2wpkh_encodes_as_syscoin_bech32() {
    let a = Address::p2wpkh(&g(), Network::Bitcoin);
    let s = a.to_string();
    assert!(s.starts_with("sc1qw508d6qejxtdg4y5r3zarvary0c5xw7k"));
    assert_eq!(s.len(), 42);
    let mut script = vec![0x00, 0x14];
    script.extend(hex_bytes(G_HASH160));
    assert_eq!(a.script_pubkey(), script);
    let back = parse(&s).unwrap();
    assert_eq!(back.network, Network::Bitcoin);
    assert_eq!(back.to_string(), s);
}

#[test]
fn bech32_upper_case_decodes_to_lower_case() {
    let s = Address::p2wpkh(&g(), Network::Bitcoin).to_string();
    let upper = s.to_uppercase();
    let back = parse(&upper).unwrap();
    assert_eq!(back.to_string(), s);
}

#[test]
fn bech32_mixed_case_fails() {
    let s = Address::p2wpkh(&g(), Network::Bitcoin).to_string();
    let mut mixed = s.clone();
    mixed.replace_range(4..5, &s[4..5].to_uppercase());
    assert_ne!(mixed, s);
    assert_eq!(parse(&mixed).unwrap_err(), AddressError::Bech32(Bech32Error::Encoding));
}

#[test]
fn bech32_testnet_prefix() {
    let a = Address::p2wpkh(&g(), Network::Testnet);
    let s = a.to_string();
    assert!(s.starts_with("scrt1q"));
    assert_eq!(parse(&s).unwrap().network, Network::Testnet);
}

#[test]
fn bech32_unknown_part_refused() {
    let r = parse("ts1qw508d6qejxtdg4y5r3zarvary0c5xw7kxxxxxx");
    assert!(matches!(r, Err(AddressError::Bech32(_))));
}

#[test]
fn bech32_regtest_network_has_no_address() {
    let a = Address {
        network: Network::Regtest,
        payload: Payload::WitnessProgram(WitnessProgram {
            version: 0,
            program: hex_bytes(G_HASH160),
            network: Bech32Network::Regtest,
        }),
    };
    assert!(a.to_string().starts_with("bcrt1q"));
}

#[test]
fn witness_version_one_refused() {
    let a = Address {
        network: Network::Bitcoin,
        payload: Payload::WitnessProgram(WitnessProgram {
            version: 1,
            program: hex_bytes(G_HASH160),
            network: Bech32Network::Syscoin,
        }),
    };
    let s = a.to_string();
    assert_eq!(parse(&s).unwrap_err(), AddressError::UnsupportedWitnessVersion(1));
    let script = a.script_pubkey();
    assert_eq!((script[0], script[1]), (0x51, 20));
}

#[test]
fn p2wsh_of_empty_script_is_sha256_of_nothing() {
    let a = Address::p2wsh(&[], Network::Bitcoin);
    match &a.payload {
        Payload::WitnessProgram(w) => {
            assert_eq!(w.version, 0);
            assert_eq!(
                w.program,
                hex_bytes("e3b0c44298fc1c149afbf4c8996fb92427ae41e4649b934ca495991b7852b855")
            );
            assert_eq!(w.network, Bech32Network::Syscoin);
        }
        _ => panic!("wrong payload"),
    }
    assert_eq!(a.script_pubkey().len(), 34);
}

#[test]
fn nested_segwit_addresses_are_script_hashes() {
    let a = Address::p2shwpkh(&g(), Network::Bitcoin);
    assert!(matches!(a.payload, Payload::ScriptHash(ref h) if h.len() == 20));
    assert!(a.to_string().starts_with('3'));
    let b = Address::p2shwsh(&[0x51], Network::Bitcoin);
    assert!(matches!(b.payload, Payload::ScriptHash(ref h) if h.len() == 20));
    assert_ne!(a.to_string(), b.to_string());
}

#[test]
fn liquid_regtest_pubkey_shown_as_key_hash() {
    let k = g();
    let pk = Address::p2pk(&k, Network::LiquidRegtest).to_string();
    let pkh = Address::p2upkh(&k, Network::LiquidRegtest).to_string();
    assert_eq!(pk, pkh);
    let back = Address::parse(&pk, true).unwrap();
    assert_eq!(back.network, Network::LiquidRegtest);
    assert!(matches!(back.payload, Payload::PubkeyHash(_)));
}

#[test]
fn p2wsh_script_is_push_of_32_bytes() {
    let a = Address::p2wsh(&[0x51], Network::Bitcoin);
    let s = a.script_pubkey();
    assert_eq!((s[0], s[1], s.len()), (0x00, 0x20, 34));
}
