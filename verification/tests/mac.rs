//! The prefix-MAC.

use cubehash::backend::CpuFeatures;
use cubehash::cubehash::{BackendSelector, CubeHashCore};
use cubehash::cubemac::CubeMacCore;
use cubehash::params::{CubeHashError, Params};

fn hex(bytes: &[u8]) -> String {
    bytes.iter().map(|b| format!("{:02x}", b)).collect()
}

fn key() -> Vec<u8> {
    (0..64u8).collect()
}

fn mac128() -> Params {
    Params::standard(16).unwrap()
}

const TAG: &str = "dda3bc7a1d50dda46f9000e288039c81";

#[test]
fn tag_has_its_known_value() {
    let cpu = CpuFeatures::none();
    let tag = CubeMacCore::tag(mac128(), &key(), &cpu, b"message").unwrap();
    assert_eq!(hex(&tag), TAG);
}

#[test]
fn tag_is_hash_of_key_then_message() {
    let cpu = CpuFeatures { sse2: true, avx2: true, avx512: false, neon: false };
    let mut m = CubeMacCore::new(mac128(), &key(), &cpu).unwrap();
    m.update(b"mess");
    m.update(b"age");
    let tag = m.finalize();

    let mut h = CubeHashCore::new(mac128(), &cpu);
    h.update(&key());
    h.update(b"message");
    assert_eq!(tag, h.finalize());
    assert_eq!(hex(&tag), TAG);
}

#[test]
fn tag_is_hash_of_key_then_message_on_every_backend() {
    let cpus: [CpuFeatures; 5] = [
        CpuFeatures::none(),
        CpuFeatures { sse2: true, avx2: false, avx512: false, neon: false },
        CpuFeatures { sse2: true, avx2: true, avx512: false, neon: false },
        CpuFeatures { sse2: true, avx2: true, avx512: true, neon: false },
        CpuFeatures { sse2: false, avx2: false, avx512: false, neon: true },
    ];
    let expected: [BackendSelector; 5] = [
        BackendSelector::Soft,
        BackendSelector::Sse2,
        BackendSelector::Avx2,
        BackendSelector::Avx512,
        BackendSelector::Neon,
    ];
    for (cpu, backend) in cpus.iter().zip(expected) {
        let mut m = CubeMacCore::new(mac128(), &key(), cpu).unwrap();
        assert_eq!(m.backend(), backend);
        m.update(b"message");
        assert_eq!(hex(&m.finalize()), TAG);
    }
}

#[test]
fn tag_of_the_empty_message() {
    let cpu = CpuFeatures::none();
    let tag = CubeMacCore::tag(mac128(), &key(), &cpu, b"").unwrap();
    let digest = CubeHashCore::digest(mac128(), BackendSelector::Soft, &cpu, &key()).unwrap();
    assert_eq!(tag, digest);
}

#[test]
fn tag_has_the_size_of_the_parameters() {
    let cpu = CpuFeatures::none();
    for h in [1usize, 16, 20, 64] {
        let params = Params::standard(h).unwrap();
        let tag = CubeMacCore::tag(params, &key(), &cpu, b"message").unwrap();
        assert_eq!(tag.len(), h);
        let mut hash = CubeHashCore::new(params, &cpu);
        hash.update(&key());
        hash.update(b"message");
        assert_eq!(tag, hash.finalize());
    }
}

#[test]
fn key_must_be_64_bytes() {
    let cpu = CpuFeatures::none();
    for len in [0usize, 1, 32, 63, 65, 128] {
        let key = vec![7u8; len];
        assert!(
            matches!(
                CubeMacCore::new(mac128(), &key, &cpu),
                Err(CubeHashError::InvalidKeyLength)
            ),
            "length {}",
            len
        );
        assert_eq!(
            CubeMacCore::tag(mac128(), &key, &cpu, b"message"),
            Err(CubeHashError::InvalidKeyLength)
        );
    }
    assert!(CubeMacCore::new(mac128(), &[7u8; 64], &cpu).is_ok());
}

#[test]
fn verify_accepts_the_tag() {
    let cpu = CpuFeatures::none();
    let mut m = CubeMacCore::new(mac128(), &key(), &cpu).unwrap();
    m.update(b"message");
    let tag = m.clone().finalize();
    assert!(m.verify(&tag));
    // verify works on a copy: the MAC can go on
    assert!(m.verify(&tag));
    m.update(b" goes on");
    assert!(!m.verify(&tag));
    let longer = m.clone().finalize();
    assert!(m.verify(&longer));
}

#[test]
fn verify_refuses_every_flipped_bit() {
    let cpu = CpuFeatures::none();
    let mut m = CubeMacCore::new(mac128(), &key(), &cpu).unwrap();
    m.update(b"message");
    let tag = m.clone().finalize();
    for byte in 0..tag.len() {
        for bit in 0..8u8 {
            let mut forged = tag.clone();
            forged[byte] ^= 1 << bit;
            assert!(!m.verify(&forged), "byte {} bit {}", byte, bit);
        }
    }
}

#[test]
fn verify_refuses_another_length() {
    let cpu = CpuFeatures::none();
    let mut m = CubeMacCore::new(mac128(), &key(), &cpu).unwrap();
    m.update(b"message");
    let tag = m.clone().finalize();
    assert!(!m.verify(&tag[..15]));
    assert!(!m.verify(&[]));
    let mut longer = tag.clone();
    longer.push(0);
    assert!(!m.verify(&longer));
}

#[test]
fn verify_refuses_the_tag_of_another_key() {
    let cpu = CpuFeatures::none();
    let other: Vec<u8> = (1..65u8).collect();
    let tag = CubeMacCore::tag(mac128(), &other, &cpu, b"message").unwrap();
    let mut m = CubeMacCore::new(mac128(), &key(), &cpu).unwrap();
    m.update(b"message");
    assert!(!m.verify(&tag));
}

#[test]
fn key_blocks_can_be_given_as_blocks() {
    let cpu = CpuFeatures::none();
    let key = key();
    let mut low = [0u8; 32];
    let mut high = [0u8; 32];
    low.copy_from_slice(&key[..32]);
    high.copy_from_slice(&key[32..]);
    let mut h = CubeHashCore::new(mac128(), &cpu);
    h.update_blocks(&[low, high]);
    h.update(b"message");
    assert_eq!(hex(&h.finalize()), TAG);

    let mut m = CubeMacCore::new(mac128(), &key, &cpu).unwrap();
    let mut block = [0u8; 32];
    block[..7].copy_from_slice(b"message");
    m.update_blocks(&[block]);
    let mut padded = key.clone();
    padded.extend_from_slice(&block);
    assert_eq!(
        m.finalize(),
        CubeHashCore::digest(mac128(), BackendSelector::Soft, &cpu, &padded).unwrap()
    );
}
