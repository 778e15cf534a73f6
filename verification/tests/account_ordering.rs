use drift_sdk::accounts::{sort, AccountMeta, AccountType};
use drift_sdk::keys::Pubkey;

#[test]
fn account_type_sorting() {
    let accounts = vec![
        AccountType::Perp {
            pubkey: Pubkey::new_from_array([4_u8; 32]),
            writable: false,
        },
        AccountType::Oracle {
            pubkey: Pubkey::new_from_array([2_u8; 32]),
        },
        AccountType::Oracle {
            pubkey: Pubkey::new_from_array([1_u8; 32]),
        },
        AccountType::Spot {
            pubkey: Pubkey::new_from_array([3_u8; 32]),
            writable: true,
        },
    ];
    let sorted = sort(accounts);

    assert_eq!(
        sorted,
        vec![
            AccountType::Oracle {
                pubkey: Pubkey::new_from_array([1_u8; 32])
            },
            AccountType::Oracle {
                pubkey: Pubkey::new_from_array([2_u8; 32])
            },
            AccountType::Spot {
                pubkey: Pubkey::new_from_array([3_u8; 32]),
                writable: true
            },
            AccountType::Perp {
                pubkey: Pubkey::new_from_array([4_u8; 32]),
                writable: false
            },
        ]
    )
}

#[test]
fn sorting_is_stable_for_equal_keys() {
    // two spot entries with the same key but different writability keep
    // their arrival order
    let first = AccountType::Spot {
        pubkey: Pubkey::new_from_array([9_u8; 32]),
        writable: true,
    };
    let second = AccountType::Spot {
        pubkey: Pubkey::new_from_array([9_u8; 32]),
        writable: false,
    };
    let oracle = AccountType::Oracle {
        pubkey: Pubkey::new_from_array([0_u8; 32]),
    };
    let sorted = sort(vec![first, second, oracle]);
    assert_eq!(sorted, vec![oracle, first, second]);

    let sorted_swapped = sort(vec![second, first, oracle]);
    assert_eq!(sorted_swapped, vec![oracle, second, first]);
}

#[test]
fn sorting_orders_keys_bytewise_within_role() {
    let a = AccountType::Perp {
        pubkey: Pubkey::new_from_array([1_u8; 32]),
        writable: true,
    };
    let mut high = [1_u8; 32];
    high[31] = 2;
    let b = AccountType::Perp {
        pubkey: Pubkey::new_from_array(high),
        writable: false,
    };
    assert_eq!(sort(vec![b, a]), vec![a, b]);
}

#[test]
fn account_meta_projection_never_signs() {
    let spot = AccountType::Spot {
        pubkey: Pubkey::new_from_array([5_u8; 32]),
        writable: true,
    };
    let meta = AccountMeta::from(spot);
    assert_eq!(meta.pubkey, Pubkey::new_from_array([5_u8; 32]));
    assert!(meta.is_writable);
    assert!(!meta.is_signer);

    let oracle = AccountType::Oracle {
        pubkey: Pubkey::new_from_array([6_u8; 32]),
    };
    let meta = AccountMeta::from(oracle);
    assert!(!meta.is_writable);
    assert!(!meta.is_signer);
}
