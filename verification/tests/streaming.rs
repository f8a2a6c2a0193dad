//! Chunking, cloning, padding and the block-level entry.

use cubehash::avx2::Avx2;
use cubehash::avx512::Avx512;
use cubehash::backend::{CpuFeatures, CubeHashBackend};
use cubehash::buffer::BlockBuffer;
use cubehash::cubehash::{BackendSelector, CubeHashCore};
use cubehash::neon::Neon;
use cubehash::params::Params;
use cubehash::soft::Soft;
use cubehash::sse2::Sse2;
use cubehash::stream;

fn all_features() -> CpuFeatures {
    CpuFeatures { sse2: true, avx2: true, avx512: true, neon: true }
}

fn hex(bytes: &[u8]) -> String {
    bytes.iter().map(|b| format!("{:02x}", b)).collect()
}

fn backends() -> [BackendSelector; 5] {
    [
        BackendSelector::Soft,
        BackendSelector::Sse2,
        BackendSelector::Avx2,
        BackendSelector::Avx512,
        BackendSelector::Neon,
    ]
}

fn pattern(len: usize) -> Vec<u8> {
    (0..len).map(|i| ((i * 7 + 3) & 0xff) as u8).collect()
}

fn fresh(backend: BackendSelector) -> CubeHashCore {
    CubeHashCore::new_with_backend(Params::standard(64).unwrap(), backend, &all_features())
        .unwrap()
}

fn one_shot(backend: BackendSelector, data: &[u8]) -> Vec<u8> {
    let mut h = fresh(backend);
    h.update(data);
    h.finalize()
}

const LEN_97: &str = "a6fb9a68b0cf53416c3c395b98c635e7beaf479ab5c1a64ad714e94bf9957551ca07d8391abbf8d124aac76a3695650cc3c217f08e576aaed56302ec456bbfc6";

#[test]
fn byte_by_byte_is_one_call() {
    let data = pattern(97);
    for backend in backends() {
        let mut h = fresh(backend);
        for b in data.iter() {
            h.update(&[*b]);
        }
        let digest = h.finalize();
        assert_eq!(digest, one_shot(backend, &data));
        assert_eq!(hex(&digest), LEN_97);
    }
}

#[test]
fn every_split_in_two_is_one_call() {
    let data = pattern(97);
    let whole = one_shot(BackendSelector::Soft, &data);
    for cut in 0..=data.len() {
        let mut h = fresh(BackendSelector::Soft);
        h.update(&data[..cut]);
        h.update(&data[cut..]);
        assert_eq!(h.finalize(), whole, "cut at {}", cut);
    }
}

#[test]
fn uneven_chunks_are_one_call() {
    let data = pattern(1000);
    let sizes: [usize; 9] = [0, 1, 31, 32, 33, 64, 100, 5, 734];
    for backend in backends() {
        let mut h = fresh(backend);
        let mut at: usize = 0;
        for size in sizes {
            h.update(&data[at..at + size]);
            at += size;
        }
        assert_eq!(at, data.len());
        assert_eq!(h.finalize(), one_shot(backend, &data));
    }
}

#[test]
fn empty_updates_change_nothing() {
    let data = pattern(40);
    let mut h = fresh(BackendSelector::Soft);
    h.update(&[]);
    h.update(&data);
    h.update(&[]);
    assert_eq!(h.finalize(), one_shot(BackendSelector::Soft, &data));
}

#[test]
fn same_input_same_digest() {
    let data = pattern(300);
    for backend in backends() {
        assert_eq!(one_shot(backend, &data), one_shot(backend, &data));
    }
}

#[test]
fn clone_in_the_middle_goes_on_alone() {
    let data = pattern(150);
    for backend in backends() {
        let mut first = fresh(backend);
        first.update(&data[..45]);
        let mut second = first.clone();
        assert_eq!(second.backend(), backend);
        first.update(&data[45..]);
        second.update(&data[45..]);
        let whole = one_shot(backend, &data);
        assert_eq!(first.finalize(), whole);
        assert_eq!(second.finalize(), whole);
    }
}

#[test]
fn clones_that_part_ways_differ() {
    let mut first = fresh(BackendSelector::Soft);
    first.update(b"common prefix");
    let mut second = first.clone();
    first.update(b"a");
    second.update(b"b");
    assert_eq!(first.finalize(), one_shot(BackendSelector::Soft, b"common prefixa"));
    assert_eq!(second.finalize(), one_shot(BackendSelector::Soft, b"common prefixb"));
}

#[test]
fn digests_around_block_boundaries_differ() {
    let expected: [(usize, &str); 9] = [
        (31, "d162ca33c2a5d7fab9df6bfed6372a917d242912c38129005f26730bfe9f0eba0a22d19ad8d5a1469104224d63aa8de2631994d73b9af3ee1237cb01611ec026"),
        (32, "806ad69af707aac1bdaff7419215598220ca2831092e1599a16a7ad02008e2c9af02701b638fe1fac33d63c7be8ba94839fa41db678d12753dc2104ddfadbb29"),
        (33, "da56d010c0cbd8598f22b77c7ea65b853d11c4c210868ecc78fe6ffd17d739bb5fe2dbe120781a5e705ae1c21a8a1ca4341e44346917c567afff0c974f9146cb"),
        (63, "e10492f4f51669f421ff82206bab735c577e0d1347f47cf545931ad674eb8039c0940e50a82d15579b521e5ec2565b4a2b5db870571a72e8f83f8e90e6c73b53"),
        (64, "8f5bc3b3f60299863f3bbdb44fd3993f59af5d703ec0252f9510726fc8ea8f5a8c7c7a3b68113c38234ce74abdea7eb576b077480ae0574f3ed706cf2e3b5377"),
        (65, "b89985ab64e2a15cf9a1b6c249d2952590cdbe11732d4e1e2f45846ee56b90c262d8c6f28b3cfb5414a27178c59583b6d86714d0644dd9fe7c67e2ae76a3ae6e"),
        (95, "99dcc6885084c51e5255b18b1be371c0933033a3fa5062f030142ce6dac249ebc02eb3fc3a3e6ccf8319a9000aed9d871212bdd7b75af95d3715d42f4d0d18c2"),
        (96, "079fff2dee2e11861132630244020a5711f48ec0017ea907aa2bba40593b6675640744f4a8198985cb2bc289eaf8f4a3703c1319163591a6320389c6a84c331c"),
        (97, "a6fb9a68b0cf53416c3c395b98c635e7beaf479ab5c1a64ad714e94bf9957551ca07d8391abbf8d124aac76a3695650cc3c217f08e576aaed56302ec456bbfc6"),
    ];
    let mut seen: Vec<Vec<u8>> = Vec::new();
    for (len, digest) in expected {
        let first = one_shot(BackendSelector::Soft, &pattern(len));
        let again = one_shot(BackendSelector::Soft, &pattern(len));
        assert_eq!(first, again);
        assert_eq!(hex(&first), digest);
        assert!(!seen.contains(&first), "length {}", len);
        seen.push(first);
    }
}

#[test]
fn zero_bytes_are_not_padding() {
    // A message that ends where the padding of a shorter one would go.
    let short = one_shot(BackendSelector::Soft, &[1, 2, 3]);
    let marked = one_shot(BackendSelector::Soft, &[1, 2, 3, 0x80]);
    let zeroed = one_shot(BackendSelector::Soft, &[1, 2, 3, 0x80, 0]);
    assert_ne!(short, marked);
    assert_ne!(short, zeroed);
    assert_ne!(marked, zeroed);
    let mut full = vec![1u8, 2, 3, 0x80];
    full.resize(32, 0);
    assert_ne!(short, one_shot(BackendSelector::Soft, &full));
}

#[test]
fn whole_blocks_past_the_buffer() {
    let data = pattern(96);
    let mut blocks: Vec<[u8; 32]> = Vec::new();
    for chunk in data.chunks(32) {
        let mut block = [0u8; 32];
        block.copy_from_slice(chunk);
        blocks.push(block);
    }
    for backend in backends() {
        let mut h = fresh(backend);
        h.update_blocks(&blocks);
        h.update(b"tail");
        let mut whole = data.clone();
        whole.extend_from_slice(b"tail");
        assert_eq!(h.finalize(), one_shot(backend, &whole));
    }
}

#[test]
fn no_blocks_change_nothing() {
    let mut h = fresh(BackendSelector::Soft);
    h.update(b"abc");
    h.update_blocks(&[]);
    assert_eq!(h.finalize(), one_shot(BackendSelector::Soft, b"abc"));
}

#[test]
fn buffer_holds_until_the_block_is_full() {
    let mut buf = BlockBuffer::new();
    assert_eq!(buf.get_pos(), 0);

    let data = pattern(50);
    let (taken, block) = buf.fill(&data, 0);
    assert_eq!(taken, 32);
    assert_eq!(block.unwrap().to_vec(), data[..32].to_vec());
    assert_eq!(buf.get_pos(), 0);

    let (taken, block) = buf.fill(&data, 32);
    assert_eq!(taken, 18);
    assert!(block.is_none());
    assert_eq!(buf.get_pos(), 18);

    let (taken, block) = buf.fill(&data, 50);
    assert_eq!(taken, 0);
    assert!(block.is_none());
    assert_eq!(buf.get_pos(), 18);

    let more = pattern(20);
    let (taken, block) = buf.fill(&more, 0);
    assert_eq!(taken, 14);
    let mut expected = data[32..].to_vec();
    expected.extend_from_slice(&more[..14]);
    assert_eq!(block.unwrap().to_vec(), expected);
    assert_eq!(buf.get_pos(), 0);

    let (taken, block) = buf.fill(&more, 14);
    assert_eq!(taken, 6);
    assert!(block.is_none());
    let copy = buf.clone();
    assert_eq!(copy.get_pos(), 6);
}

#[test]
fn padding_of_an_empty_buffer() {
    let buf = BlockBuffer::new();
    let mut expected = [0u8; 32];
    expected[0] = 0x80;
    assert_eq!(buf.pad(), expected);
}

#[test]
fn padding_of_a_held_byte() {
    let mut buf = BlockBuffer::new();
    buf.fill(&[0xAB], 0);
    let mut expected = [0u8; 32];
    expected[0] = 0xAB;
    expected[1] = 0x80;
    assert_eq!(buf.pad(), expected);
}

#[test]
fn padding_of_31_held_bytes() {
    let mut buf = BlockBuffer::new();
    let data = pattern(31);
    buf.fill(&data, 0);
    assert_eq!(buf.get_pos(), 31);
    let mut expected = [0u8; 32];
    expected[..31].copy_from_slice(&data);
    expected[31] = 0x80;
    assert_eq!(buf.pad(), expected);
}

#[test]
fn padding_forgets_what_an_earlier_block_left() {
    let mut buf = BlockBuffer::new();
    let data = vec![0xFFu8; 35];
    let (taken, _) = buf.fill(&data, 0);
    buf.fill(&data, taken);
    let mut expected = [0u8; 32];
    expected[0] = 0xFF;
    expected[1] = 0xFF;
    expected[2] = 0xFF;
    expected[3] = 0x80;
    assert_eq!(buf.pad(), expected);
}

#[test]
fn one_shot_on_each_backend_type() {
    let params = Params::standard(64).unwrap();
    let cpu = all_features();
    let data = pattern(97);
    assert_eq!(hex(&stream::digest::<Soft>(params, &cpu, &data).unwrap()), LEN_97);
    assert_eq!(hex(&stream::digest::<Sse2>(params, &cpu, &data).unwrap()), LEN_97);
    assert_eq!(hex(&stream::digest::<Avx2>(params, &cpu, &data).unwrap()), LEN_97);
    assert_eq!(hex(&stream::digest::<Avx512>(params, &cpu, &data).unwrap()), LEN_97);
    assert_eq!(hex(&stream::digest::<Neon>(params, &cpu, &data).unwrap()), LEN_97);
}

#[test]
fn one_shot_needs_the_feature() {
    let params = Params::standard(64).unwrap();
    let cpu = CpuFeatures::none();
    assert!(stream::digest::<Soft>(params, &cpu, b"abc").is_some());
    assert!(stream::digest::<Sse2>(params, &cpu, b"abc").is_none());
    assert!(stream::digest::<Avx2>(params, &cpu, b"abc").is_none());
    assert!(stream::digest::<Avx512>(params, &cpu, b"abc").is_none());
    assert!(stream::digest::<Neon>(params, &cpu, b"abc").is_none());
}

#[test]
fn backend_and_buffer_by_hand() {
    let params = Params::standard(64).unwrap();
    let cpu = all_features();
    let data = pattern(97);

    let mut backend = Avx2::init(params, &cpu).unwrap();
    let mut buffer = BlockBuffer::new();
    stream::update(&mut backend, &mut buffer, &data[..10]);
    assert_eq!(buffer.get_pos(), 10);
    stream::update(&mut backend, &mut buffer, &data[10..70]);
    assert_eq!(buffer.get_pos(), 6);
    stream::update(&mut backend, &mut buffer, &data[70..]);
    assert_eq!(buffer.get_pos(), 1);
    assert_eq!(hex(&stream::finalize_fixed_core(backend, &buffer)), LEN_97);
}

#[test]
fn blocks_straight_to_a_backend() {
    let params = Params::standard(64).unwrap();
    let cpu = all_features();
    let data = pattern(64);
    let mut first = [0u8; 32];
    let mut second = [0u8; 32];
    first.copy_from_slice(&data[..32]);
    second.copy_from_slice(&data[32..]);

    let mut together = Neon::init(params, &cpu).unwrap();
    stream::update_blocks(&mut together, &[first, second]);

    let mut one_by_one = Neon::init(params, &cpu).unwrap();
    one_by_one.update_block(&first);
    one_by_one.update_block(&second);
    assert_eq!(together.words(), one_by_one.words());

    let digest = stream::finalize_fixed_core(together, &BlockBuffer::new());
    assert_eq!(
        hex(&digest),
        "8f5bc3b3f60299863f3bbdb44fd3993f59af5d703ec0252f9510726fc8ea8f5a8c7c7a3b68113c38234ce74abdea7eb576b077480ae0574f3ed706cf2e3b5377"
    );
}
