use tonlib_shards::{active_shards, get_shard, is_well_formed, shard_contains, validate_shard};

const SHARDS: [u64; 4] = [
    0x2000000000000000,
    0x6000000000000000,
    0xA000000000000000,
    0xE000000000000000,
];

#[test]
fn it_works() {
    let net_shards = SHARDS.to_vec();

    let addresses_shard = [
        ("0:af78316b56ee5f7e88f3558ad3b5ebbafd49304249e48dd33c9f27e63b7c8fe7", 0xa000000000000000),
        ("0:80fa1ebdd70277ca902d52cb2007cf910ca572b80f7c186fbb86e116cf4c66ba", 0xa000000000000000),
        ("0:923150e0c668cb309dc3d43449be197e17f5095378260e7715e278eaa80941ab", 0xa000000000000000),
        ("0:684c17d1138bcd4355aa88cc30dacba8cda4d8f3de4392cb5a7f4bec030190af", 0x6000000000000000),
        ("0:51cca3ff74207b3ed8f075740b126c320e795ec4f19f70b80d9cf919fc292594", 0x6000000000000000),
        ("0:b19a8a1821d01279aeb98e84a2ed002e4a30633264702b1059cebe73100d6b95", 0xa000000000000000),
    ];

    for (account_id, expect_shard) in addresses_shard {
        let got_shard = get_shard(&net_shards, account_id);
        assert_eq!(got_shard, Some(expect_shard), "shard must be equal, but got: {:x?}, expect: {:x?}, address: {:?}", got_shard, expect_shard, account_id);
    }
}

#[test]
fn membership_examples() {
    let net_shards = SHARDS.to_vec();
    let id = "af78316b56ee5f7e000000000000000000000000000000000000000000000000";
    assert_eq!(get_shard(&net_shards, id), Some(0xA000000000000000));
    let id = "684c17d1138bcd43000000000000000000000000000000000000000000000000";
    assert_eq!(get_shard(&net_shards, id), Some(0x6000000000000000));
}

#[test]
fn malformed_identifier_has_no_shard() {
    let net_shards = SHARDS.to_vec();
    let thirty_one = "0:af78316b56ee5f7e88f3558ad3b5ebbafd49304249e48dd33c9f27e63b7c8f";
    assert_eq!(get_shard(&net_shards, thirty_one), None);
    let thirty_three = "0:af78316b56ee5f7e88f3558ad3b5ebbafd49304249e48dd33c9f27e63b7c8fe7aa";
    assert_eq!(get_shard(&net_shards, thirty_three), None);
    assert_eq!(get_shard(&net_shards, ""), None);
    assert_eq!(get_shard(&net_shards, "not an identifier"), None);
}

#[test]
fn empty_topology_has_no_shard() {
    let net_shards: Vec<u64> = Vec::new();
    let id = "0:af78316b56ee5f7e88f3558ad3b5ebbafd49304249e48dd33c9f27e63b7c8fe7";
    assert_eq!(get_shard(&net_shards, id), None);
}

#[test]
fn uncovered_prefix_has_no_shard() {
    let net_shards = vec![0x2000000000000000u64, 0x6000000000000000];
    let id = "0:af78316b56ee5f7e88f3558ad3b5ebbafd49304249e48dd33c9f27e63b7c8fe7";
    assert_eq!(get_shard(&net_shards, id), None);
}

#[test]
fn first_match_wins_in_supplied_order() {
    let id = "0:af78316b56ee5f7e88f3558ad3b5ebbafd49304249e48dd33c9f27e63b7c8fe7";
    let net_shards = vec![0x8000000000000000u64, 0xA000000000000000];
    assert_eq!(get_shard(&net_shards, id), Some(0x8000000000000000));
    let net_shards = vec![0xA000000000000000u64, 0x8000000000000000];
    assert_eq!(get_shard(&net_shards, id), Some(0xA000000000000000));
}

#[test]
fn whole_space_shard_is_tolerated() {
    let net_shards = vec![0x8000000000000000u64];
    let id = "0:0000000000000000000000000000000000000000000000000000000000000000";
    assert_eq!(get_shard(&net_shards, id), Some(0x8000000000000000));
    let id = "0:ffffffffffffffffffffffffffffffffffffffffffffffffffffffffffffffff";
    assert_eq!(get_shard(&net_shards, id), Some(0x8000000000000000));
}

#[test]
fn partition_assigns_exactly_one_shard() {
    let uneven = vec![
        0x4000000000000000u64,
        0xA000000000000000,
        0xD000000000000000,
        0xF000000000000000,
    ];
    for net_shards in [SHARDS.to_vec(), uneven] {
        let mut prefix: u64 = 0x0123456789abcdef;
        for _ in 0..2000 {
            prefix = prefix.wrapping_mul(6364136223846793005).wrapping_add(1442695040888963407);
            let holders = net_shards.iter().filter(|shard| shard_contains(**shard, prefix)).count();
            assert_eq!(holders, 1);
            let id = format!("0:{:016x}{:048x}", prefix, 0);
            let found = get_shard(&net_shards, &id);
            assert!(matches!(found, Some(shard) if shard_contains(shard, prefix)));
        }
        for prefix in [0u64, u64::MAX, 0x3fffffffffffffff, 0x4000000000000000, 0x7fffffffffffffff, 0x8000000000000000] {
            let holders = net_shards.iter().filter(|shard| shard_contains(**shard, prefix)).count();
            assert_eq!(holders, 1);
        }
    }
}

#[test]
fn known_shard_is_accepted() {
    for shard in SHARDS {
        assert_eq!(validate_shard(SHARDS.to_vec(), shard), Ok(()));
    }
}

#[test]
fn unknown_shard_is_rejected_with_choices() {
    let result = validate_shard(SHARDS.to_vec(), 0x0000000000000001);
    let message = result.unwrap_err();
    assert_eq!(
        message,
        "Invalid shard. Choose from: 2000000000000000, 6000000000000000, a000000000000000, e000000000000000"
    );
    for shard in SHARDS {
        assert!(message.contains(&format!("{:x}", shard)));
    }
}

#[test]
fn membership_is_by_equality_not_by_prefix() {
    assert!(validate_shard(SHARDS.to_vec(), 0xA800000000000000).is_err());
    assert!(validate_shard(vec![0x8000000000000000], 0xA000000000000000).is_err());
}

#[test]
fn empty_topology_rejects_every_shard() {
    assert_eq!(
        validate_shard(Vec::new(), 0xA000000000000000),
        Err(String::from("Invalid shard. Choose from: "))
    );
    assert_eq!(
        validate_shard(vec![0x10], 0xA000000000000000),
        Err(String::from("Invalid shard. Choose from: 10"))
    );
}

#[test]
fn active_shards_drop_the_whole_space_shard() {
    let reported = vec![0x2000000000000000i64, 0x6000000000000000, i64::MIN, -0x6000000000000000, -0x2000000000000000];
    assert_eq!(
        active_shards(i64::MIN, &reported),
        vec![0x2000000000000000u64, 0x6000000000000000, 0xA000000000000000, 0xE000000000000000]
    );
}

#[test]
fn active_shards_keep_the_masterchain_shard_first() {
    let reported = vec![0x4000000000000000i64, -0x4000000000000000];
    assert_eq!(
        active_shards(0x1000000000000000, &reported),
        vec![0x1000000000000000u64, 0x4000000000000000, 0xC000000000000000]
    );
    assert_eq!(active_shards(i64::MIN, &Vec::new()), Vec::<u64>::new());
    assert_eq!(active_shards(-1, &Vec::new()), vec![u64::MAX]);
}

#[test]
fn well_formed_topology_has_no_zero_shard() {
    assert!(is_well_formed(&SHARDS.to_vec()));
    assert!(is_well_formed(&Vec::new()));
    assert!(!is_well_formed(&vec![0x2000000000000000, 0, 0xA000000000000000]));
    assert!(!is_well_formed(&vec![0]));
}
