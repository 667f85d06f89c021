//! Wallet lifecycle, credential parsing and provisioning decisions.

use lexe_sdk::credentials::{ClientCredentials, Credentials, RootSeed, UserPk};
use lexe_sdk::errors::{CredentialError, StoreError};
use lexe_sdk::payment::{PaymentRecord, PaymentStatus, UpdatePaymentNote};
use lexe_sdk::provision::{
    apply_provision_success, ensure_provisioned_action, signup_action, NodeProvisionState,
    ProvisionAction,
};
use lexe_sdk::wallet::{DeployEnv, WalletEnvConfig, WalletUserConfig, WalletWithStore,
    WalletWithoutStore};

fn rec(created: u64, updated: u64, status: PaymentStatus) -> PaymentRecord {
    PaymentRecord {
        created_index: created,
        updated_index: updated,
        status,
        is_junk: false,
        note: None,
        amount_msat: None,
        invoice: None,
    }
}

fn seed_hex() -> String {
    "0123456789abcdef0123456789abcdef0123456789ABCDEF0123456789abcdef".to_string()
}

#[test]
fn root_seed_from_hex_exact_bytes() {
    let short = RootSeed::from_hex("00ff10a5").err();
    assert_eq!(short, Some(CredentialError::InvalidLength));

    let seed = RootSeed::from_hex(&seed_hex()).unwrap();
    let expected: Vec<u8> = vec![
        0x01, 0x23, 0x45, 0x67, 0x89, 0xab, 0xcd, 0xef, 0x01, 0x23, 0x45, 0x67, 0x89, 0xab, 0xcd,
        0xef, 0x01, 0x23, 0x45, 0x67, 0x89, 0xab, 0xcd, 0xef, 0x01, 0x23, 0x45, 0x67, 0x89, 0xab,
        0xcd, 0xef,
    ];
    assert_eq!(seed.expose_bytes(), &expected);
}

#[test]
fn root_seed_rejects_bad_digit() {
    let mut s = seed_hex();
    s.replace_range(10..11, "g");
    assert_eq!(
        RootSeed::from_hex(&s).err(),
        Some(CredentialError::InvalidHexDigit)
    );
}

#[test]
fn root_seed_new_rejects_wrong_length() {
    assert_eq!(
        RootSeed::new(vec![0u8; 31]).err(),
        Some(CredentialError::InvalidLength)
    );
    assert!(RootSeed::new(vec![0u8; 32]).is_ok());
}

#[test]
fn client_credentials_blob_round_trip() {
    // 64 hex digits of public key, then the auth token "beef".
    let mut blob = String::new();
    for _ in 0..32 {
        blob.push_str("ab");
    }
    blob.push_str("beef");
    let creds = ClientCredentials::try_from_hex_blob(&blob).unwrap();
    assert_eq!(creds.user_pk.as_bytes().as_slice(), &[0xabu8; 32][..]);
    assert_eq!(creds.auth_token, vec![0xbe, 0xef]);

    // Too short for a public key.
    assert_eq!(
        ClientCredentials::try_from_hex_blob("abcd").err(),
        Some(CredentialError::InvalidLength)
    );
    // Odd length.
    let mut odd = blob.clone();
    odd.push('a');
    assert_eq!(
        ClientCredentials::try_from_hex_blob(&odd).err(),
        Some(CredentialError::InvalidLength)
    );
    // Bad digit.
    let mut bad = blob.clone();
    bad.replace_range(2..3, "z");
    assert_eq!(
        ClientCredentials::try_from_hex_blob(&bad).err(),
        Some(CredentialError::InvalidHexDigit)
    );
}

#[test]
fn credentials_expose_user_pk_only_for_bundle() {
    let seed = RootSeed::new(vec![7u8; 32]).unwrap();
    let creds = Credentials::RootSeed(seed);
    assert!(creds.user_pk().is_none());

    let pk = UserPk::new(vec![9u8; 32]).unwrap();
    let creds = Credentials::ClientCredentials(ClientCredentials {
        user_pk: pk,
        auth_token: vec![1, 2, 3],
    });
    assert_eq!(
        creds.user_pk().unwrap().as_bytes().as_slice(),
        &[9u8; 32][..]
    );
}

#[test]
fn env_configs() {
    let prod = WalletEnvConfig::prod();
    assert_eq!(prod.deploy_env, DeployEnv::Prod);
    assert!(!prod.use_local_network);
    assert!(prod.gateway_url.is_none());

    let staging = WalletEnvConfig::staging();
    assert_eq!(staging.deploy_env, DeployEnv::Staging);

    let dev = WalletEnvConfig::dev(true, Some("https://localhost:4040".to_string()));
    assert_eq!(dev.deploy_env, DeployEnv::Dev);
    assert!(dev.use_local_network);
    assert_eq!(dev.gateway_url.as_deref(), Some("https://localhost:4040"));
}

#[test]
fn fresh_refuses_existing_store() {
    let cfg = WalletUserConfig {
        user_pk: None,
        env_config: WalletEnvConfig::prod(),
    };
    assert_eq!(
        WalletWithStore::fresh(cfg, true).err(),
        Some(StoreError::AlreadyExists)
    );

    let cfg = WalletUserConfig {
        user_pk: None,
        env_config: WalletEnvConfig::prod(),
    };
    let w = WalletWithStore::fresh(cfg, false).unwrap();
    assert_eq!(w.payments_db().num_payments(), 0);
}

#[test]
fn load_absent_store_is_not_an_error() {
    let cfg = WalletUserConfig {
        user_pk: None,
        env_config: WalletEnvConfig::prod(),
    };
    let loaded = WalletWithStore::load(cfg, None).unwrap();
    assert!(loaded.is_none());

    // A corrupted snapshot is an error, distinguished from "nothing there".
    let cfg = WalletUserConfig {
        user_pk: None,
        env_config: WalletEnvConfig::prod(),
    };
    let corrupt = vec![rec(2, 2, PaymentStatus::Pending), rec(1, 1, PaymentStatus::Pending)];
    assert_eq!(
        WalletWithStore::load(cfg, Some(corrupt)).err(),
        Some(StoreError::Corrupted)
    );
}

#[test]
fn load_or_fresh_paths() {
    let cfg = WalletUserConfig {
        user_pk: None,
        env_config: WalletEnvConfig::staging(),
    };
    let w = WalletWithStore::load_or_fresh(cfg, None).unwrap();
    assert_eq!(w.payments_db().num_payments(), 0);

    let cfg = WalletUserConfig {
        user_pk: None,
        env_config: WalletEnvConfig::staging(),
    };
    let stored = vec![rec(1, 1, PaymentStatus::Pending), rec(2, 2, PaymentStatus::Finalized)];
    let w = WalletWithStore::load_or_fresh(cfg, Some(stored)).unwrap();
    assert_eq!(w.payments_db().num_payments(), 2);
    assert_eq!(w.sync_cursor(), Some(2));
}

#[test]
fn wallet_sync_and_note_update() {
    let seed = RootSeed::new(vec![3u8; 32]).unwrap();
    let creds = Credentials::RootSeed(seed);
    let mut w =
        WalletWithStore::from_credentials(WalletEnvConfig::prod(), &creds, None).unwrap();
    assert!(w.user_config().user_pk.is_none());

    let batch = vec![rec(1, 1, PaymentStatus::Pending), rec(2, 2, PaymentStatus::Pending)];
    let summary = w.sync_payments(&batch);
    assert_eq!(summary.num_new, 2);
    assert_eq!(summary.num_updated, 0);

    w.update_payment_note(UpdatePaymentNote {
        index: 1,
        note: Some("lunch".to_string()),
    })
    .unwrap();
    assert_eq!(
        w.payments_db()
            .get_payment_by_created_index(1)
            .unwrap()
            .note
            .as_deref(),
        Some("lunch")
    );
    // The local write advanced the cursor past the last sync.
    assert_eq!(w.sync_cursor(), Some(3));
}

#[test]
fn without_db_has_bundle_pk() {
    let pk = UserPk::new(vec![5u8; 32]).unwrap();
    let creds = Credentials::ClientCredentials(ClientCredentials {
        user_pk: pk,
        auth_token: Vec::new(),
    });
    let w = WalletWithoutStore::without_db(WalletEnvConfig::prod(), &creds);
    assert_eq!(
        w.user_config().user_pk.as_ref().unwrap().as_bytes().as_slice(),
        &[5u8; 32][..]
    );
}

#[test]
fn ensure_provisioned_is_idempotent() {
    let required = 40u64;
    // Tracks how much remote provisioning work each call asks for.
    let mut provision_runs = 0usize;

    // First call on a stale node: one provisioning run.
    let mut state = NodeProvisionState::Provisioned { version: 39 };
    if ensure_provisioned_action(state, required) == ProvisionAction::Provision {
        provision_runs += 1;
        state = apply_provision_success(required);
    }
    assert_eq!(provision_runs, 1);

    // Second call on the now-current node: no remote work at all.
    let before = provision_runs;
    if ensure_provisioned_action(state, required) == ProvisionAction::Provision {
        provision_runs += 1;
    }
    assert_eq!(ensure_provisioned_action(state, required), ProvisionAction::NoOp);
    assert_eq!(provision_runs, before);
}

#[test]
fn signup_only_from_unregistered() {
    assert_eq!(
        signup_action(NodeProvisionState::Unregistered).unwrap(),
        ProvisionAction::Signup
    );
    assert_eq!(
        signup_action(NodeProvisionState::Provisioned { version: 3 }),
        Err(lexe_sdk::errors::ProvisioningError::AlreadyRegistered)
    );
}
