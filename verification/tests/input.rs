use kristforge::address::Address;
use kristforge::input::{KernelInput, ScalarKernelInput};

fn nonce_of(n: u64) -> Vec<u8> {
    (0..11).map(|i| (((n >> (6 * i)) & 0x3f) + 32) as u8).collect()
}

#[test]
fn input_layout() {
    let address = Address::from_str("k5ztameslf").unwrap();
    let mut input = ScalarKernelInput::new(address, 0);
    let block = input.data_block();
    assert_eq!(&block[..10], b"k5ztameslf");
    assert_eq!(&block[10..22], &[0u8; 12]);
    assert_eq!(&block[22..33], b"!          ");
    assert_eq!(block[33], 0x80);
    assert_eq!(&block[34..62], &[0u8; 28]);
    assert_eq!(&block[62..], &[0x01, 0x08]);
    input.set_block(b"abce8f03b1d2");
    let block = input.data_block();
    assert_eq!(&block[..33], b"k5ztameslfabce8f03b1d2!          ");
    assert_eq!(input.data(), &block[..33]);
    assert_eq!(input.data().len(), 33);
    assert_eq!(u16::from_be_bytes([block[62], block[63]]), 33 * 8);
}

#[test]
fn nonce_formula() {
    let address = Address::from_str("k5ztameslf").unwrap();
    // a new input starts one after the counter given
    let mut input = ScalarKernelInput::new(address, 0);
    assert_eq!(input.nonce(), b"!          ");
    assert_eq!(input.nonce_str(), "!          ");
    assert_eq!(input.nonce_array(), *b"!          ");
    let mut input = ScalarKernelInput::new(address, 63);
    assert_eq!(input.nonce(), b" !         ");
    let mut input = ScalarKernelInput::new(address, 0x0123456789abcdee);
    assert_eq!(input.nonce(), b"OW\\J)>61C$ ");
    let mut input = ScalarKernelInput::new(address, u64::MAX - 1);
    assert_eq!(input.nonce(), b"__________/");
    // and wraps after the last counter
    let mut input = ScalarKernelInput::new(address, u64::MAX);
    assert_eq!(input.nonce(), b"           ");
    for n in [0u64, 1, 2, 63, 64, 4095, 4096, 1 << 30, 1 << 59, 1 << 60, u64::MAX - 1] {
        let mut input = ScalarKernelInput::new(address, n);
        assert_eq!(input.nonce(), &nonce_of(n.wrapping_add(1))[..]);
    }
}

#[test]
fn increment_steps_the_counter_by_one() {
    let address = Address::from_str("k5ztameslf").unwrap();
    let mut input = ScalarKernelInput::new(address, 0);
    input.set_block(b"abce8f03b1d2");
    for n in 1u64..5000 {
        assert_eq!(input.nonce(), &nonce_of(n)[..]);
        assert!(input.nonce().iter().all(|b| (0x20..=0x5f).contains(b)));
        input.increment_nonce();
        // address, block and padding stay
        assert_eq!(&input.data_block()[..22], b"k5ztameslfabce8f03b1d2");
        assert_eq!(input.data_block()[33], 0x80);
        assert_eq!(&input.data_block()[34..62], &[0u8; 28]);
        assert_eq!(&input.data_block()[62..], &[0x01, 0x08]);
    }
}

#[test]
fn set_block_keeps_the_nonce() {
    let address = Address::from_str("k5ztameslf").unwrap();
    let mut input = ScalarKernelInput::new(address, 1234);
    let before = input.nonce_array();
    input.set_block(b"ffffffffffff");
    assert_eq!(input.nonce_array(), before);
    assert_eq!(&input.data()[10..22], b"ffffffffffff");
    input.set_block(b"000000000000");
    assert_eq!(&input.data()[..22], b"k5ztameslf000000000000");
}

#[test]
fn get_solution_compares_with_the_work() {
    let address = Address::from_str("k5ztameslf").unwrap();
    let mut input = ScalarKernelInput::new(address, 0);
    assert_eq!(input.get_solution(100, 100), Some("!          ".to_string()));
    assert_eq!(input.get_solution(100, 0), Some("!          ".to_string()));
    assert_eq!(input.get_solution(100, 101), None);
    assert_eq!(input.get_solution(0, 1), None);
    assert_eq!(input.get_solution(0, 0), Some("!          ".to_string()));
    assert_eq!(
        input.get_solution(u64::MAX, u64::MAX),
        Some("!          ".to_string())
    );
}

fn second_nonce<I: KernelInput<Score = u64>>(work: u64, score: u64) -> Option<String> {
    let mut input = I::new(Address::from_str("k5ztameslf").unwrap(), 0);
    input.set_block(b"abce8f03b1d2");
    input.increment_nonce();
    input.get_solution(work, score)
}

#[test]
fn scalar_input_feeds_a_kernel() {
    assert_eq!(
        second_nonce::<ScalarKernelInput>(10, 10),
        Some("\"          ".to_string())
    );
    assert_eq!(second_nonce::<ScalarKernelInput>(10, 11), None);
}
