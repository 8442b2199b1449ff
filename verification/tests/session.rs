use std::cmp::Ordering;

use kdf_session::{
    generate_context, generate_key, Context, KdfError, MasterKey, Session, SessionBuilder,
    CONTEXT_BYTES, DERIVED_KEY_BYTES_MAX, DERIVED_KEY_BYTES_MIN, MASTER_KEY_BYTES,
};

fn counting_key() -> MasterKey {
    let mut bytes = [0u8; 32];
    for i in 0..32 {
        bytes[i] = i as u8;
    }
    MasterKey(bytes)
}

fn session_at(index: u64) -> Session {
    let mut builder = SessionBuilder::new();
    builder.key(counting_key()).context(Context(*b"KDF test")).index(index);
    builder.build_full().ok().expect("all three fields are set")
}

#[test]
fn constants_are_those_of_the_primitive() {
    assert_eq!(DERIVED_KEY_BYTES_MIN, 16);
    assert_eq!(DERIVED_KEY_BYTES_MAX, 64);
    assert_eq!(MASTER_KEY_BYTES, 32);
    assert_eq!(CONTEXT_BYTES, 8);
    assert_eq!(DERIVED_KEY_BYTES_MIN, dryoc::constants::CRYPTO_KDF_BLAKE2B_BYTES_MIN);
    assert_eq!(DERIVED_KEY_BYTES_MAX, dryoc::constants::CRYPTO_KDF_BLAKE2B_BYTES_MAX);
    assert_eq!(MASTER_KEY_BYTES, dryoc::constants::CRYPTO_KDF_KEYBYTES);
    assert_eq!(CONTEXT_BYTES, dryoc::constants::CRYPTO_KDF_CONTEXTBYTES);
}

#[test]
fn first_subkey_of_sixteen_bytes_is_the_known_one() {
    let mut session = session_at(0);
    let mut buffer = [0u8; 16];
    assert_eq!(session.generate_next_key(&mut buffer), Ok(0));
    assert_eq!(
        buffer,
        [
            0xe9, 0x13, 0x6a, 0x52, 0xb9, 0x69, 0x0e, 0xb4, 0xdf, 0x4e, 0x96, 0x65, 0xe8, 0x19,
            0xa6, 0xd3
        ]
    );
}

#[test]
fn first_two_subkeys_of_thirty_two_bytes_are_the_known_ones() {
    let mut session = session_at(0);
    let mut buffer = [0u8; 32];
    assert_eq!(session.generate_next_key(&mut buffer), Ok(0));
    assert_eq!(
        buffer,
        [
            0xc1, 0x3f, 0xcc, 0x2e, 0x6c, 0xd0, 0xcd, 0x0f, 0x82, 0xd9, 0x3b, 0x16, 0x3a, 0x56,
            0x96, 0xc5, 0x10, 0x53, 0x78, 0xf8, 0xc6, 0x29, 0xd3, 0x6b, 0xaf, 0x3a, 0xe0, 0x23,
            0x9d, 0xe9, 0xc2, 0x80
        ]
    );
    assert_eq!(session.generate_next_key(&mut buffer), Ok(1));
    assert_eq!(
        buffer,
        [
            0x13, 0xfe, 0xa5, 0x2b, 0xb8, 0xcb, 0xa0, 0x63, 0xf3, 0xed, 0x93, 0xde, 0x27, 0xed,
            0x07, 0xe0, 0x6d, 0x8c, 0x63, 0x67, 0x47, 0x4e, 0x6a, 0xe4, 0xc9, 0x28, 0x29, 0x13,
            0xac, 0x3c, 0x3a, 0x03
        ]
    );
    assert_eq!(session.index(), 2);
}

#[test]
fn subkey_of_sixty_four_bytes_at_forty_two_is_the_known_one() {
    let mut session = session_at(42);
    let mut buffer = vec![0u8; 64];
    assert_eq!(session.generate_next_key(&mut buffer), Ok(42));
    assert_eq!(
        buffer,
        vec![
            0x9a, 0x31, 0x39, 0x53, 0x19, 0xcb, 0x76, 0x5d, 0x28, 0xe9, 0x1e, 0xc5, 0x32, 0xe7,
            0xe7, 0x2e, 0xf6, 0x3b, 0x47, 0xb8, 0x1a, 0x74, 0x02, 0x11, 0xc3, 0x07, 0xfd, 0x16,
            0xdb, 0x0e, 0x5a, 0x05, 0x4b, 0x06, 0x18, 0x59, 0xd4, 0xae, 0xae, 0xad, 0x14, 0x05,
            0x84, 0x88, 0x45, 0x9c, 0x2a, 0x5d, 0x2a, 0x21, 0xf4, 0xc7, 0xa8, 0x8d, 0x3d, 0x5f,
            0x7d, 0x39, 0xca, 0xb2, 0x23, 0xf9, 0x4f, 0x12
        ]
    );
    assert_eq!(session.index(), 43);
}

#[test]
fn subkey_under_the_default_context_is_the_known_one() {
    let mut builder = SessionBuilder::new();
    builder.key(MasterKey([7u8; 32]));
    let mut session = builder.build().expect("a key is set");
    let mut buffer = [0u8; 32];
    assert_eq!(session.generate_next_key(&mut buffer), Ok(0));
    assert_eq!(
        buffer,
        [
            0xbc, 0x8a, 0x53, 0x31, 0xc2, 0xa3, 0x18, 0xea, 0x8e, 0xb8, 0x3d, 0xf3, 0xc1, 0x7f,
            0x7a, 0xfe, 0x46, 0x94, 0x02, 0x1c, 0x93, 0x94, 0x1a, 0x41, 0xd8, 0xbb, 0x81, 0xf4,
            0xab, 0xb0, 0xbe, 0xb8
        ]
    );
}

#[test]
fn subkeys_are_those_of_the_primitive_itself() {
    let key = counting_key();
    let context = *b"KDF test";
    let mut session = session_at(5);
    for index in 5u64..15 {
        let mut ours = [0u8; 24];
        let mut theirs = [0u8; 24];
        assert_eq!(session.generate_next_key(&mut ours), Ok(index));
        dryoc::classic::crypto_kdf::crypto_kdf_derive_from_key(&mut theirs, index, &context, &key.0)
            .expect("the length is in range");
        assert_eq!(ours, theirs);
    }
}

#[test]
fn equal_sessions_produce_equal_subkeys() {
    for len in [16usize, 17, 32, 63, 64] {
        let mut a = session_at(0);
        let mut b = session_at(0);
        for call in 0u64..20 {
            let mut out_a = vec![0u8; len];
            let mut out_b = vec![0xffu8; len];
            assert_eq!(a.generate_next_key(&mut out_a), Ok(call));
            assert_eq!(b.generate_next_key(&mut out_b), Ok(call));
            assert_eq!(out_a, out_b);
        }
        assert!(a == b);
    }
}

#[test]
fn distinct_numbers_contexts_and_keys_give_distinct_subkeys() {
    let mut session = session_at(0);
    let mut first = [0u8; 32];
    let mut second = [0u8; 32];
    session.generate_next_key(&mut first).unwrap();
    session.generate_next_key(&mut second).unwrap();
    assert_ne!(first, second);

    let mut builder = SessionBuilder::new();
    builder.key(counting_key()).context(Context(*b"KDF tesu")).index(0);
    let mut other_context = builder.build().unwrap();
    let mut third = [0u8; 32];
    other_context.generate_next_key(&mut third).unwrap();
    assert_ne!(first, third);

    let mut builder = SessionBuilder::new();
    builder.key(MasterKey([9u8; 32])).context(Context(*b"KDF test")).index(0);
    let mut other_key = builder.build().unwrap();
    let mut fourth = [0u8; 32];
    other_key.generate_next_key(&mut fourth).unwrap();
    assert_ne!(first, fourth);
}

#[test]
fn buffer_lengths_at_the_bounds_are_accepted() {
    let mut session = session_at(0);
    let mut shortest = vec![0u8; DERIVED_KEY_BYTES_MIN];
    let mut longest = vec![0u8; DERIVED_KEY_BYTES_MAX];
    assert_eq!(session.generate_next_key(&mut shortest), Ok(0));
    assert_eq!(session.generate_next_key(&mut longest), Ok(1));
    assert_ne!(shortest, vec![0u8; DERIVED_KEY_BYTES_MIN]);
    assert_ne!(longest, vec![0u8; DERIVED_KEY_BYTES_MAX]);
}

#[test]
fn refused_length_keeps_the_number_and_the_buffer() {
    let mut session = session_at(7);
    for len in [0usize, 1, 15, 65, 128] {
        let mut buffer = vec![0xa5u8; len];
        assert_eq!(session.generate_next_key(&mut buffer), Err(KdfError::InvalidOutputLength));
        assert_eq!(buffer, vec![0xa5u8; len]);
        assert_eq!(session.index(), 7);
    }
    let mut buffer = [0u8; 32];
    assert_eq!(session.generate_next_key(&mut buffer), Ok(7));
    assert_eq!(session.generate_next_key(&mut buffer), Ok(8));
    let mut short = [0u8; 15];
    assert_eq!(session.generate_next_key(&mut short), Err(KdfError::InvalidOutputLength));
    assert_eq!(session.generate_next_key(&mut buffer), Ok(9));
}

#[test]
fn last_number_is_never_handed_out() {
    let mut session = session_at(u64::MAX - 1);
    let mut buffer = [0u8; 32];
    assert_eq!(session.generate_next_key(&mut buffer), Ok(u64::MAX - 1));
    assert_eq!(
        buffer,
        [
            0x80, 0x05, 0xc3, 0x66, 0x94, 0x6c, 0x07, 0x06, 0x05, 0x62, 0x40, 0xd0, 0x56, 0x67,
            0x7a, 0x6b, 0x1c, 0xec, 0x90, 0x8d, 0x2d, 0x04, 0xce, 0x19, 0x73, 0xa5, 0x4a, 0x3d,
            0xe4, 0x47, 0x5d, 0x9c
        ]
    );
    assert_eq!(session.index(), u64::MAX);
    let kept = buffer;
    assert_eq!(session.generate_next_key(&mut buffer), Err(KdfError::IndexExhausted));
    assert_eq!(session.generate_next_key(&mut buffer), Err(KdfError::IndexExhausted));
    assert_eq!(buffer, kept);
    assert_eq!(session.index(), u64::MAX);
}

#[test]
fn refused_length_comes_before_exhaustion() {
    let mut session = session_at(u64::MAX);
    let mut short = [0u8; 4];
    assert_eq!(session.generate_next_key(&mut short), Err(KdfError::InvalidOutputLength));
    assert_eq!(session.settle(true), Err(KdfError::IndexExhausted));
    assert_eq!(session.settle(false), Err(KdfError::IndexExhausted));
    assert_eq!(session.index(), u64::MAX);
}

#[test]
fn settle_moves_the_counter_on_success_only() {
    let mut session = session_at(10);
    assert_eq!(session.settle(false), Err(KdfError::Backend));
    assert_eq!(session.index(), 10);
    assert_eq!(session.settle(true), Ok(10));
    assert_eq!(session.index(), 11);
    assert_eq!(session.settle(false), Err(KdfError::Backend));
    assert_eq!(session.settle(true), Ok(11));
    assert_eq!(session.index(), 12);
}

#[test]
fn getters_show_what_the_session_was_built_from() {
    let session = session_at(3);
    assert_eq!(session.index(), 3);
    assert_eq!(session.context().0, *b"KDF test");
    assert!(*session.key() == counting_key());
}

#[test]
fn sessions_compare_by_all_three_fields() {
    assert!(session_at(3) == session_at(3));
    assert!(session_at(3) != session_at(4));
    let mut builder = SessionBuilder::new();
    builder.key(counting_key()).context(Context(*b"KDF tesT")).index(3);
    assert!(session_at(3) != builder.build().unwrap());
    let mut builder = SessionBuilder::new();
    builder.key(MasterKey([0u8; 32])).context(Context(*b"KDF test")).index(3);
    assert!(session_at(3) != builder.build().unwrap());
}

#[test]
fn random_keys_and_contexts_are_fresh() {
    let a = generate_key();
    let b = generate_key();
    assert!(a != b);
    assert!(a.0 != [0u8; 32]);
    let c = generate_context();
    let d = generate_context();
    assert!(c != d);
}

#[test]
fn sessions_are_ordered_by_number_then_context_then_key() {
    let make = |index: u64, context: &[u8; 8], key: u8| {
        let mut builder = SessionBuilder::new();
        builder.index(index).context(Context(*context)).key(MasterKey([key; 32]));
        builder.build_full().ok().expect("all three fields are set")
    };
    let base = make(5, b"mmmmmmmm", 5);
    assert_eq!(base.partial_cmp(&make(5, b"mmmmmmmm", 5)), Some(Ordering::Equal));
    assert_eq!(base.partial_cmp(&make(6, b"aaaaaaaa", 0)), Some(Ordering::Less));
    assert_eq!(base.partial_cmp(&make(4, b"zzzzzzzz", 9)), Some(Ordering::Greater));
    assert_eq!(base.partial_cmp(&make(5, b"mmmmmmmn", 0)), Some(Ordering::Less));
    assert_eq!(base.partial_cmp(&make(5, b"mmmmmmml", 9)), Some(Ordering::Greater));
    assert_eq!(base.partial_cmp(&make(5, b"mmmmmmmm", 6)), Some(Ordering::Less));
    assert_eq!(base.partial_cmp(&make(5, b"mmmmmmmm", 4)), Some(Ordering::Greater));
    assert!(base < make(5, b"mmmmmmmm", 6));
    assert!(base >= make(5, b"mmmmmmmm", 5));

    let all = [
        make(4, b"zzzzzzzz", 9),
        make(5, b"mmmmmmml", 9),
        make(5, b"mmmmmmmm", 4),
        make(5, b"mmmmmmmm", 5),
        make(5, b"mmmmmmmm", 6),
        make(5, b"mmmmmmmn", 0),
        make(6, b"aaaaaaaa", 0),
    ];
    for a in &all {
        for b in &all {
            assert_eq!(a.partial_cmp(b), Some(a.cmp(b)));
        }
    }
    for pair in all.windows(2) {
        assert!(pair[0] < pair[1]);
    }
}
