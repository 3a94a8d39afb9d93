//! Padding at and around the block boundary.

use tiny_keccak::{sha3_256, sha3_512, keccak512, shake128, Keccak};

fn from_hex(s: &str) -> Vec<u8> {
    assert!(s.len() % 2 == 0);
    let digits: Vec<u8> = s
        .bytes()
        .map(|c| match c {
            b'0'..=b'9' => c - b'0',
            b'a'..=b'f' => c - b'a' + 10,
            _ => panic!("not a hex digit"),
        })
        .collect();
    digits.chunks(2).map(|p| p[0] * 16 + p[1]).collect()
}

fn ramp(n: usize) -> Vec<u8> {
    (0..n).map(|i| (i * 7 + 3) as u8).collect()
}

fn padded(rate: usize, delim: u8, message: &[u8]) -> Vec<u8> {
    let mut keccak = Keccak::new(rate, delim);
    keccak.update(message);
    keccak.pad();
    assert_eq!(keccak.offset(), 0);
    assert_eq!(keccak.get_state(), vec![0u64; 25]);
    keccak.pending().to_vec()
}

#[test]
fn pad_of_empty_message_is_one_block() {
    let block = padded(136, 0x06, b"");
    assert_eq!(block.len(), 136);
    assert_eq!(block[0], 0x06);
    assert!(block[1..135].iter().all(|b| *b == 0));
    assert_eq!(block[135], 0x80);
}

#[test]
fn pad_one_byte_short_of_a_block_is_one_byte() {
    let message = ramp(135);
    let block = padded(136, 0x06, &message);
    assert_eq!(block.len(), 136);
    assert_eq!(block[..135], message[..]);
    assert_eq!(block[135], 0x86);

    assert_eq!(padded(168, 0x1f, &ramp(167))[167], 0x9f);
    assert_eq!(padded(72, 0x01, &ramp(71))[71], 0x81);
    assert_eq!(padded(72, 0x01, &ramp(71 + 72)).len(), 144);
    assert_eq!(padded(72, 0x01, &ramp(71 + 72))[143], 0x81);
}

#[test]
fn pad_two_bytes_short_of_a_block_is_two_bytes() {
    let message = ramp(134);
    let block = padded(136, 0x06, &message);
    assert_eq!(block.len(), 136);
    assert_eq!(block[..134], message[..]);
    assert_eq!(block[134..], [0x06, 0x80]);
}

#[test]
fn pad_of_a_whole_block_adds_a_block() {
    let message = ramp(136);
    let blocks = padded(136, 0x06, &message);
    assert_eq!(blocks.len(), 272);
    assert_eq!(blocks[..136], message[..]);
    assert_eq!(blocks[136], 0x06);
    assert!(blocks[137..271].iter().all(|b| *b == 0));
    assert_eq!(blocks[271], 0x80);
}

#[test]
fn pad_brings_every_length_to_a_multiple_of_the_rate() {
    for rate in [1usize, 2, 3, 17, 72, 136, 168, 199] {
        for len in 0..(2 * rate + 3) {
            let message = ramp(len);
            let blocks = padded(rate, 0x1f, &message);
            assert_eq!(blocks.len() % rate, 0);
            assert_eq!(blocks.len(), (len / rate + 1) * rate);
            assert_eq!(blocks[..len], message[..]);
            let tail = &blocks[len..];
            if tail.len() == 1 {
                assert_eq!(tail, [0x9f]);
            } else {
                assert_eq!(tail[0], 0x1f);
                assert_eq!(tail[tail.len() - 1], 0x80);
                assert!(tail[1..tail.len() - 1].iter().all(|b| *b == 0));
            }
        }
    }
}

#[test]
fn pad_with_rate_one_is_always_one_byte() {
    assert_eq!(padded(1, 0x06, b""), vec![0x86]);
    assert_eq!(padded(1, 0x06, b"\x01\x02"), vec![0x01, 0x02, 0x86]);
}

#[test]
fn sha3_256_around_the_block_boundary() {
    let cases = [
        (134, "c8883239d2ce058b11d87de7cd74805cb7e073b1b4884636fb2b5d1982c7bb9d"),
        (135, "d9dcf1f98e49a79b0643a9e68fef48079ff8777c5e7e7f93469ded65f192ac71"),
        (136, "743bd32e775ac7387a57d4d574c89ddef5ebcb08bb5cc6b88c55a27b5035cc45"),
        (137, "01d47e8d6dce6e3dcbf1baa6f845b6ace4ef74bd17da8176ecc49bc35dbe5d21"),
        (271, "20bf2d2a8b462cf032927768963867773b04bcfdbf1419d1ac06aa23637e5b19"),
        (272, "ddeb5151c079739970e780e6257d0c4d52d83bf82c6aa8d47d5195530b5d5f4b"),
    ];
    for (len, expected) in cases {
        assert_eq!(sha3_256(&ramp(len)).to_vec(), from_hex(expected), "{} bytes", len);
    }
}

#[test]
fn shake128_around_the_block_boundary() {
    let cases = [
        (166, "f34bb9262026db5355e8cdf4cdf1444b"),
        (167, "bb961bb015521037905f9baf69ce60dd"),
        (168, "d4f73f3b6c4b72d05f45ed1f80b57744"),
        (169, "30454dd0f630ab1bb8fada554060d540"),
    ];
    for (len, expected) in cases {
        assert_eq!(shake128(&ramp(len), 16), from_hex(expected), "{} bytes", len);
    }
}

#[test]
fn sha3_512_around_the_block_boundary() {
    let cases = [
        (
            70,
            [
                "4516520e533aec15187849f528f6b13d824020d74f8d15327b07af6fb840d747",
                "893b6d3e9c597a93f846c9bcb185728d0aa6f7212bcab9d8caf7147563560c7c",
            ],
        ),
        (
            71,
            [
                "a02d5795bffd44cb0ac3cc3401ae89056b8017242eaf7e802033e974672ce794",
                "5811760c3b0d9578bc51bf90c364636ac87cda9b4f3e45620ea9c030421e9d86",
            ],
        ),
        (
            72,
            [
                "2ec0da5ff440c192d33033c4257eb39dcbd27edd7e41b5ac8db9daf13db501a2",
                "ef938151aaddd82f600335654f77512cbcc926ec5abb05b79282ec716d685618",
            ],
        ),
    ];
    for (len, expected) in cases {
        assert_eq!(sha3_512(&ramp(len)).to_vec(), from_hex(&expected.concat()), "{} bytes", len);
    }
}

#[test]
fn keccak512_around_the_block_boundary() {
    let cases = [
        (
            70,
            [
                "9d3024201d1cf770914cd287f498c9ec34c6ff64617eb34d194282307d2c7533",
                "4bba60c7d1dab4342869c04ec46c7ce4589576e1e62dcc8f450d8912d22ecd7f",
            ],
        ),
        (
            71,
            [
                "86bf2e588d183d657794ba7f8e547aec6fe1562419a5471c918a87e06d7a35c4",
                "1497cb0160b9cbb0e2879342fbffe2abe18b32e0b759966490df88782281e426",
            ],
        ),
        (
            72,
            [
                "a59ad357670bfb24240ff9fefa95aa3e899603e5532ecb10333cad3163851589",
                "d09924b688921fdc71f2f256badc48d8390a5862879a86743a4565d4436e76e1",
            ],
        ),
    ];
    for (len, expected) in cases {
        assert_eq!(keccak512(&ramp(len)).to_vec(), from_hex(&expected.concat()), "{} bytes", len);
    }
}
