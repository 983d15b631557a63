use tcm::meta::{DynamicMeta, Meta, MetaV1, MetaV2, MetaV2BitFlags, META_SIZE};

fn block(prefix: &[u8]) -> Vec<u8> {
    let mut bytes = prefix.to_vec();
    bytes.resize(META_SIZE, 0);
    bytes
}

#[test]
fn meta_v2_flags_scenario() {
    // flags 0b10: the rate itself is stored, no seed override
    let bytes = block(&[2, 0, 0b0000_0010, 0, 0x00, 0x00, 0x70, 0x43]);
    let meta = MetaV2::from_bytes(&bytes);
    assert_eq!(meta.tps().map(f32::from_bits), Some(240.0));
    assert_eq!(meta.tps_dt(), None);
    assert!(!meta.uses_dt());
    assert_eq!(meta.rng_seed(), None);
    assert!(!meta.is_rng_seed_set());
    assert_eq!(meta.version_instance(), 2);
}

#[test]
fn meta_v2_stored_tick_time() {
    let dt = (1.0f32 / 240.0).to_bits().to_le_bytes();
    let bytes = block(&[2, 7, 0b0000_0001, 0, dt[0], dt[1], dt[2], dt[3], 0x2A, 0, 0, 0, 0, 0, 0, 0]);
    let meta = MetaV2::from_bytes(&bytes);
    assert!(meta.uses_dt());
    assert_eq!(meta.tps(), None);
    assert_eq!(meta.tps_dt().map(f32::from_bits), Some(1.0 / 240.0));
    assert_eq!(meta.rng_seed(), Some(42));
    assert!(meta.is_rng_seed_set());
    assert_eq!(meta.append_counter, 7);
    assert_eq!(meta.to_bytes(), bytes);
}

#[test]
fn meta_v2_exact_block() {
    let meta = MetaV2::new(240.0f32.to_bits(), 3, Some(0x0102_0304_0506_0708));
    assert_eq!(meta.flags, 0b11);
    assert_eq!(
        meta.to_bytes(),
        block(&[2, 3, 3, 0, 0x00, 0x00, 0x70, 0x43, 8, 7, 6, 5, 4, 3, 2, 1])
    );
    assert_eq!(MetaV2::from_bytes(&meta.to_bytes()), meta);
    let meta = MetaV2::new(60.0f32.to_bits(), 0, None);
    assert_eq!(meta.flags, 0b10);
    assert_eq!(meta.to_bytes(), block(&[2, 0, 2, 0, 0x00, 0x00, 0x70, 0x42]));
    assert_eq!(MetaV2::from_bytes(&meta.to_bytes()), meta);
}

#[test]
fn meta_v2_new_stores_rate_and_flags_seed() {
    let with_seed = MetaV2::new(240.0f32.to_bits(), 0, Some(5));
    assert_eq!(with_seed.tps(), Some(240.0f32.to_bits()));
    assert!(!with_seed.uses_dt());
    assert!(with_seed.is_rng_seed_set());
    assert_eq!(with_seed.rng_seed(), Some(5));
    let without = MetaV2::new_empty(240.0f32.to_bits());
    assert_eq!(without, MetaV2::new(240.0f32.to_bits(), 0, None));
    assert!(!without.is_rng_seed_set());
    assert_eq!(without.rng_seed(), None);
}

#[test]
fn meta_v2_seed_of_zero_reads_as_no_seed() {
    let meta = MetaV2::new(240.0f32.to_bits(), 0, Some(0));
    let back = MetaV2::from_bytes(&meta.to_bytes());
    assert_eq!(back.rng_seed(), None);
    // The flag is kept: only the value is lost.
    assert!(back.is_rng_seed_set());
}

#[test]
fn meta_v1_exact_block() {
    let meta = MetaV1::new(240.0f32.to_bits(), 9);
    let bytes = meta.to_bytes();
    assert_eq!(bytes, block(&[1, 9, 0, 0, 0x00, 0x00, 0x70, 0x43]));
    assert_eq!(MetaV1::from_bytes(&bytes), meta);
    assert_eq!(meta.tps().map(f32::from_bits), Some(240.0));
    assert_eq!(meta.tps_dt(), None);
    assert!(!meta.uses_dt());
    assert_eq!(meta.rng_seed(), None);
    assert!(!meta.is_rng_seed_set());
    assert_eq!(meta.version_instance(), 1);
    assert_eq!(MetaV1::new_empty(5), MetaV1::new(5, 0));
}

#[test]
fn meta_blocks_read_past_reserved_bytes() {
    let mut bytes = block(&[1, 9, 0xEE, 0xEE, 0x00, 0x00, 0x70, 0x43, 1, 2, 3]);
    bytes.extend_from_slice(&[0xAA; 10]);
    assert_eq!(MetaV1::from_bytes(&bytes), MetaV1::new(240.0f32.to_bits(), 9));
}

#[test]
fn meta_sizes_and_versions() {
    assert_eq!(MetaV1::size(), 64);
    assert_eq!(MetaV2::size(), 64);
    assert_eq!(DynamicMeta::size(), 64);
    assert_eq!(MetaV1::version(), 1);
    assert_eq!(MetaV2::version(), 2);
}

#[test]
fn meta_v2_bit_flags() {
    assert!(MetaV2BitFlags::is_set(0b01, MetaV2BitFlags::OverrideSeed));
    assert!(!MetaV2BitFlags::is_set(0b10, MetaV2BitFlags::OverrideSeed));
    assert!(MetaV2BitFlags::is_set(0b10, MetaV2BitFlags::TpsInsteadOfDt));
    assert!(!MetaV2BitFlags::is_set(0b1111_1101, MetaV2BitFlags::TpsInsteadOfDt));
    let mut flags = 0u8;
    MetaV2BitFlags::set(&mut flags, MetaV2BitFlags::TpsInsteadOfDt, true);
    assert_eq!(flags, 0b10);
    MetaV2BitFlags::set(&mut flags, MetaV2BitFlags::TpsInsteadOfDt, true);
    assert_eq!(flags, 0b10);
    MetaV2BitFlags::set(&mut flags, MetaV2BitFlags::OverrideSeed, true);
    assert_eq!(flags, 0b11);
    MetaV2BitFlags::set(&mut flags, MetaV2BitFlags::TpsInsteadOfDt, false);
    assert_eq!(flags, 0b01);
    MetaV2BitFlags::set(&mut flags, MetaV2BitFlags::TpsInsteadOfDt, false);
    assert_eq!(flags, 0b01);
    let mut flags = 0xFFu8;
    MetaV2BitFlags::set(&mut flags, MetaV2BitFlags::OverrideSeed, false);
    assert_eq!(flags, 0xFE);
}

#[test]
fn dynamic_meta_forwards() {
    let v1 = DynamicMeta::V1(MetaV1::new(240.0f32.to_bits(), 1));
    assert_eq!(v1.version_instance(), 1);
    assert_eq!(v1.tps(), Some(240.0f32.to_bits()));
    assert_eq!(v1.tps_dt(), None);
    assert!(!v1.uses_dt());
    assert_eq!(v1.rng_seed(), None);
    assert!(!v1.is_rng_seed_set());
    assert_eq!(v1.to_bytes(), MetaV1::new(240.0f32.to_bits(), 1).to_bytes());
    assert_eq!(v1.effective_tps(77), 240.0f32.to_bits());

    let stored_dt = MetaV2 { rng_seed: Some(4), tps_or_dt: 11, append_counter: 0, flags: 0b01 };
    let v2 = DynamicMeta::V2(stored_dt);
    assert_eq!(v2.version_instance(), 2);
    assert_eq!(v2.tps(), None);
    assert_eq!(v2.tps_dt(), Some(11));
    assert!(v2.uses_dt());
    assert_eq!(v2.rng_seed(), Some(4));
    assert!(v2.is_rng_seed_set());
    assert_eq!(v2.to_bytes(), stored_dt.to_bytes());
    assert_eq!(v2.effective_tps(77), 77);
}
