use proof_registry::{assets_config, contracts_config};

#[test]
fn asset_deposit_values() {
    assert_eq!(assets_config::deposit(0, 0), 0);
    assert_eq!(assets_config::deposit(0, 1), 1_000_000_000);
    assert_eq!(assets_config::deposit(1, 68), 69_000_000_000);
    assert_eq!(assets_config::deposit(1, 18), 19_000_000_000);
    assert_eq!(assets_config::deposit(u32::MAX, u32::MAX), 2 * (u32::MAX as u128) * 1_000_000_000);
}

#[test]
fn contract_deposit_values() {
    assert_eq!(contracts_config::CENTS, 1_000_000_000_000);
    assert_eq!(contracts_config::deposit(0, 1), 6_000_000_000_000);
    assert_eq!(contracts_config::deposit(1, 0), 15_000_000_000_000);
    assert_eq!(contracts_config::deposit(2, 3), 48_000_000_000_000);
    assert_eq!(
        contracts_config::deposit(u32::MAX, u32::MAX),
        21 * (u32::MAX as u128) * 1_000_000_000_000
    );
}
