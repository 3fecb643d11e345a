use baid64::{DisplayBaid64, FromBaid64Str};
use sha2::{Digest, Sha256};
use ultrasonic::commit::{commit_bytes, id_to_string};
use ultrasonic::encoding::{Canonical, DecodeError};
use ultrasonic::ids::{
    AccessId, CallId, CodexId, ContractId, GenesisId, Opid, ACCESS_ID_TAG, CALL_ID_TAG,
    CODEX_ID_TAG, CONTRACT_ID_TAG, GENESIS_ID_TAG, OPID_TAG,
};

fn tagged(tag: &str, data: &[u8]) -> [u8; 32] {
    let tag_hash = Sha256::digest(tag.as_bytes());
    let mut engine = Sha256::new();
    engine.update(tag_hash);
    engine.update(tag_hash);
    engine.update(data);
    engine.finalize().into()
}

fn hex(bytes: &[u8]) -> String {
    bytes.iter().map(|b| format!("{b:02x}")).collect()
}

/// An identifier as a user of Baid64 declares one, to read back what the library has written.
#[derive(Debug, PartialEq, Eq)]
struct Readback([u8; 32]);

impl DisplayBaid64 for Readback {
    const HRI: &'static str = "sonic";
    const CHUNKING: bool = true;
    const PREFIX: bool = false;
    const EMBED_CHECKSUM: bool = false;
    const MNEMONIC: bool = false;

    fn to_baid64_payload(&self) -> [u8; 32] {
        self.0
    }
}

impl From<[u8; 32]> for Readback {
    fn from(bytes: [u8; 32]) -> Self {
        Readback(bytes)
    }
}

impl FromBaid64Str for Readback {}

#[test]
fn tags_are_those_of_the_identifiers() {
    assert_eq!(OPID_TAG, "urn:ubideco:sonic:opid#2024-11-16");
    assert_eq!(CONTRACT_ID_TAG, "urn:ubideco:sonic:contract#2024-11-16");
    assert_eq!(CODEX_ID_TAG, "urn:ubideco:sonic:codex#2024-11-16");
    assert_eq!(CALL_ID_TAG, "urn:ubideco:sonic:call#2024-11-16");
    assert_eq!(ACCESS_ID_TAG, "urn:ubideco:sonic:access#2024-11-16");
    assert_eq!(GENESIS_ID_TAG, "urn:ubideco:sonic:genesis#2024-11-16");
}

#[test]
fn commitment_is_the_tagged_digest() {
    assert_eq!(
        hex(&Opid::commit(b"abc").to_bytes()),
        "fe5ee57ed5b050df638695fded0f576e4986c0ae743de1e025ff3fa45ba65198"
    );
    assert_eq!(
        hex(&ContractId::commit(b"abc").to_bytes()),
        "0fd26e1f938438668c7114c47c29de8b50cac1508c9cf1961e0a68e9f6db84a2"
    );
    assert_ne!(Opid::commit(b"abc").to_bytes().to_vec(), b"abc".to_vec());
}

#[test]
fn commitment_agrees_with_another_hasher() {
    for data in [&b""[..], &b"abc"[..], &[0u8; 200][..], &[0xFF; 65][..]] {
        assert_eq!(Opid::commit(data).0, tagged(OPID_TAG, data));
        assert_eq!(ContractId::commit(data).0, tagged(CONTRACT_ID_TAG, data));
        assert_eq!(CodexId::commit(data).0, tagged(CODEX_ID_TAG, data));
        assert_eq!(CallId::commit(data).0, tagged(CALL_ID_TAG, data));
        assert_eq!(AccessId::commit(data).0, tagged(ACCESS_ID_TAG, data));
        assert_eq!(GenesisId::commit(data).0, tagged(GENESIS_ID_TAG, data));
        assert_eq!(commit_bytes("some tag", data), tagged("some tag", data));
    }
}

#[test]
fn commitment_depends_on_the_bytes() {
    assert_eq!(Opid::commit(b"abc"), Opid::commit(&[b'a', b'b', b'c']));
    assert_ne!(Opid::commit(b"abc"), Opid::commit(b"abd"));
    assert_ne!(Opid::commit(b"abc"), Opid::commit(b"abc\0"));
}

#[test]
fn the_same_bytes_under_different_tags_give_different_identifiers() {
    for data in [&b""[..], &b"abc"[..], &[7u8; 132][..]] {
        let ids = [
            ContractId::commit(data).to_bytes(),
            Opid::commit(data).to_bytes(),
            CallId::commit(data).to_bytes(),
            CodexId::commit(data).to_bytes(),
            AccessId::commit(data).to_bytes(),
            GenesisId::commit(data).to_bytes(),
        ];
        for i in 0..ids.len() {
            for j in 0..ids.len() {
                assert_eq!(ids[i] == ids[j], i == j);
            }
        }
    }
}

#[test]
fn identifiers_are_made_of_their_bytes() {
    let mut bytes = [0u8; 32];
    for (i, byte) in bytes.iter_mut().enumerate() {
        *byte = i as u8;
    }
    assert_eq!(ContractId::from_bytes(bytes).to_bytes(), bytes);
    assert_eq!(Opid::from_bytes(bytes).to_bytes(), bytes);
    assert_eq!(CodexId::from_bytes(bytes).to_bytes(), bytes);
    assert_eq!(CallId::from_bytes(bytes).to_bytes(), bytes);
    assert_eq!(AccessId::from_bytes(bytes).to_bytes(), bytes);
    assert_eq!(GenesisId::from_bytes(bytes).to_bytes(), bytes);
    assert_eq!(Opid::from_bytes(bytes), Opid(bytes));
    let mut other = bytes;
    other[31] ^= 1;
    assert_ne!(Opid::from_bytes(bytes), Opid(other));
}

#[test]
fn identifiers_are_written_in_chunks() {
    let mut bytes = [0u8; 32];
    for (i, byte) in bytes.iter_mut().enumerate() {
        *byte = i as u8;
    }
    let text = "AAECAwQF-BgcICQo-LDA0ODx-AREhMUF-RYXGBka-GxwdHh8";
    assert_eq!(ContractId(bytes).to_baid64_string(), text);
    assert_eq!(Opid(bytes).to_baid64_string(), text);
    assert_eq!(CodexId(bytes).to_baid64_string(), text);
    assert_eq!(CallId(bytes).to_baid64_string(), text);
    assert_eq!(AccessId(bytes).to_baid64_string(), text);
    assert_eq!(GenesisId(bytes).to_baid64_string(), text);
    assert_eq!(id_to_string(&bytes), text);
    assert_eq!(
        Opid([0; 32]).to_baid64_string(),
        "AAAAAAAA-AAAAAAA-AAAAAAA-AAAAAAA-AAAAAAA-AAAAAAA"
    );
    assert_eq!(
        Opid([0xFF; 32]).to_baid64_string(),
        "~~~~~~~~-~~~~~~~-~~~~~~~-~~~~~~~-~~~~~~~-~~~~~~8"
    );
}

#[test]
fn the_text_of_an_identifier_reads_back() {
    for seed in [0u8, 1, 0x7F, 0xFF] {
        let mut bytes = [seed; 32];
        bytes[3] = bytes[3].wrapping_add(5);
        bytes[30] = bytes[30].wrapping_mul(3);
        let text = ContractId(bytes).to_baid64_string();
        assert_eq!(text, Readback(bytes).to_baid64_string());
        assert_eq!(Readback::from_baid64_str(&text).expect("what was written"), Readback(bytes));
    }
    assert!(Readback::from_baid64_str("not an identifier").is_err());
}

#[test]
fn identifiers_are_laid_out_as_their_bytes() {
    let id = Opid([0x5A; 32]);
    let mut bytes = vec![1u8];
    id.encode(&mut bytes);
    assert_eq!(bytes.len(), 33);
    assert_eq!(&bytes[1..], &[0x5A; 32]);
    assert_eq!(Opid::decode(&bytes, 1), Ok((id, 33)));
    assert_eq!(Opid::decode(&bytes, 2), Err(DecodeError::UnexpectedEof));
    assert_eq!(ContractId::decode(&bytes, 1), Ok((ContractId([0x5A; 32]), 33)));
    assert_eq!(CallId::decode(&bytes, 1), Ok((CallId([0x5A; 32]), 33)));
    assert_eq!(CodexId::decode(&bytes, 1), Ok((CodexId([0x5A; 32]), 33)));
    assert_eq!(AccessId::decode(&bytes, 1), Ok((AccessId([0x5A; 32]), 33)));
    assert_eq!(GenesisId::decode(&bytes, 1), Ok((GenesisId([0x5A; 32]), 33)));
}
