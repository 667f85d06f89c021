//! Wallet lifecycle. The store capability is a type-level distinction:
//! [`WalletWithStore`] owns a [`PaymentsDb`] and is the only type carrying
//! store-backed operations, while [`WalletWithoutStore`] offers the
//! remote-only surface — calling a store operation on a store-less wallet
//! cannot be expressed, not merely fails at runtime.
//!
//! Construction takes the credential material by reference: the wallet
//! borrows it for the call and never takes ownership, so the same material
//! can serve several wallets or call sites. The persisted snapshot is read
//! and written by the embedding program and handed over as plain records.

use vstd::prelude::*;

use crate::credentials::{Credentials, UserPk};
use crate::errors::StoreError;
use crate::payment::{PaymentCreatedIndex, PaymentRecord, PaymentUpdatedIndex, UpdatePaymentNote};
use crate::payments_db::{
    apply_batch, batch_ok, count_new, records_valid, PaymentSyncSummary, PaymentsDb,
};

verus! {

/// Deployment environment selection.
#[derive(Clone, Copy, PartialEq, Eq, Structural, Debug)]
pub enum DeployEnv {
    /// The production backend.
    Prod,
    /// The staging backend.
    Staging,
    /// A development backend.
    Dev,
}

/// Environment configuration: which backend deployment the wallet talks to.
pub struct WalletEnvConfig {
    /// Deployment selection.
    pub deploy_env: DeployEnv,
    /// Development only: talk to a node on the local machine.
    pub use_local_network: bool,
    /// Development only: an explicit gateway URL override.
    pub gateway_url: Option<String>,
}

impl WalletEnvConfig {
    /// Production configuration.
    pub fn prod() -> (c: WalletEnvConfig)
        ensures
            c.deploy_env == DeployEnv::Prod,
            !c.use_local_network,
            c.gateway_url is None,
    {
        WalletEnvConfig { deploy_env: DeployEnv::Prod, use_local_network: false, gateway_url: None }
    }

    /// Staging configuration.
    pub fn staging() -> (c: WalletEnvConfig)
        ensures
            c.deploy_env == DeployEnv::Staging,
            !c.use_local_network,
            c.gateway_url is None,
    {
        WalletEnvConfig {
            deploy_env: DeployEnv::Staging,
            use_local_network: false,
            gateway_url: None,
        }
    }

    /// Development configuration, optionally against a local node or an
    /// explicit gateway.
    pub fn dev(use_local_network: bool, gateway_url: Option<String>) -> (c: WalletEnvConfig)
        ensures
            c.deploy_env == DeployEnv::Dev,
            c.use_local_network == use_local_network,
            c.gateway_url == gateway_url,
    {
        WalletEnvConfig { deploy_env: DeployEnv::Dev, use_local_network, gateway_url }
    }
}

impl Clone for WalletEnvConfig {
    fn clone(&self) -> (r: Self)
        ensures
            r == *self,
    {
        WalletEnvConfig {
            deploy_env: self.deploy_env,
            use_local_network: self.use_local_network,
            gateway_url: self.gateway_url.clone(),
        }
    }
}

/// Per-user configuration the wallet owns.
pub struct WalletUserConfig {
    /// Known up front for bundle credentials; for a root seed it becomes
    /// known once the remote node is provisioned.
    pub user_pk: Option<UserPk>,
    /// The environment the wallet talks to.
    pub env_config: WalletEnvConfig,
}

impl WalletUserConfig {
    /// Assemble per-user configuration from an environment selection and
    /// borrowed credential material.
    pub fn from_credentials(env_config: WalletEnvConfig, credentials: &Credentials) -> (c:
        WalletUserConfig)
        ensures
            c.env_config == env_config,
            match credentials {
                Credentials::ClientCredentials(cc) => c.user_pk matches Some(pk) && pk@
                    == cc.user_pk@,
                Credentials::RootSeed(_) => c.user_pk is None,
            },
    {
        match credentials {
            Credentials::RootSeed(_) => WalletUserConfig { user_pk: None, env_config },
            Credentials::ClientCredentials(cc) => WalletUserConfig {
                user_pk: Some(cc.user_pk.clone()),
                env_config,
            },
        }
    }
}

/// A wallet with local persistence: owns the payment store, and is the only
/// wallet type carrying the store-backed operations.
pub struct WalletWithStore {
    user_config: WalletUserConfig,
    db: PaymentsDb,
}

impl WalletWithStore {
    /// The owned store, as a value, for contracts.
    pub closed spec fn db_spec(&self) -> PaymentsDb {
        self.db
    }

    /// The per-user configuration, as a value, for contracts.
    pub closed spec fn user_config_spec(&self) -> WalletUserConfig {
        self.user_config
    }

    /// The wallet's per-user configuration.
    pub fn user_config(&self) -> (r: &WalletUserConfig)
        ensures
            *r == self.user_config_spec(),
    {
        &self.user_config
    }

    /// Wallet well-formedness: the owned store's invariant.
    pub open spec fn wf(&self) -> bool {
        self.db_spec().wf()
    }

    /// Construct over a fresh, empty store. `store_present` reports whether
    /// the embedding program found an existing store at the target
    /// directory; creation over one fails with `AlreadyExists` — a
    /// conflict, never a silent overwrite.
    pub fn fresh(user_config: WalletUserConfig, store_present: bool) -> (r: Result<
        WalletWithStore,
        StoreError,
    >)
        ensures
            match r {
                Ok(w) => {
                    &&& !store_present
                    &&& w.wf()
                    &&& w.db_spec()@.len() == 0
                    &&& w.db_spec().cursor_spec() is None
                    &&& w.user_config_spec() == user_config
                },
                Err(e) => store_present && e == StoreError::AlreadyExists,
            },
    {
        if store_present {
            Err(StoreError::AlreadyExists)
        } else {
            Ok(WalletWithStore { user_config, db: PaymentsDb::new() })
        }
    }

    /// Open an existing store from the records the embedding program read
    /// back. `None` records mean nothing was persisted: the result is
    /// `Ok(None)` — nothing to load is not an error — while a corrupted
    /// snapshot is refused with `Corrupted`.
    pub fn load(user_config: WalletUserConfig, stored: Option<Vec<PaymentRecord>>) -> (r: Result<
        Option<WalletWithStore>,
        StoreError,
    >)
        ensures
            match r {
                Ok(opt) => match opt {
                    None => stored is None,
                    Some(w) => {
                        &&& stored matches Some(v) && records_valid(v@) && w.db_spec()@ == v@
                        &&& w.wf()
                        &&& w.user_config_spec() == user_config
                    },
                },
                Err(e) => {
                    &&& e == StoreError::Corrupted
                    &&& stored matches Some(v) && !records_valid(v@)
                },
            },
    {
        match stored {
            None => Ok(None),
            Some(v) => match PaymentsDb::from_records(v) {
                Ok(db) => Ok(Some(WalletWithStore { user_config, db })),
                Err(e) => Err(e),
            },
        }
    }

    /// Open an existing store, falling back to fresh creation when nothing
    /// was persisted — the common entry point for long-lived clients. A
    /// corrupted snapshot is still refused.
    pub fn load_or_fresh(user_config: WalletUserConfig, stored: Option<Vec<PaymentRecord>>) -> (r:
        Result<WalletWithStore, StoreError>)
        ensures
            match r {
                Ok(w) => {
                    &&& w.wf()
                    &&& w.user_config_spec() == user_config
                    &&& match stored {
                        None => w.db_spec()@.len() == 0,
                        Some(v) => records_valid(v@) && w.db_spec()@ == v@,
                    }
                },
                Err(e) => {
                    &&& e == StoreError::Corrupted
                    &&& stored matches Some(v) && !records_valid(v@)
                },
            },
    {
        match stored {
            None => Ok(WalletWithStore { user_config, db: PaymentsDb::new() }),
            Some(v) => match PaymentsDb::from_records(v) {
                Ok(db) => Ok(WalletWithStore { user_config, db }),
                Err(e) => Err(e),
            },
        }
    }

    /// Read access to the owned payment store.
    pub fn payments_db(&self) -> (r: &PaymentsDb)
        ensures
            *r == self.db_spec(),
    {
        &self.db
    }

    /// The cursor to hand the remote: fetch records with update index
    /// strictly past it (everything when `None`).
    pub fn sync_cursor(&self) -> (r: Option<PaymentUpdatedIndex>)
        ensures
            r == self.db_spec().cursor_spec(),
    {
        self.db.latest_updated_index()
    }

    /// Apply the delta the embedding program fetched from the remote for
    /// this wallet's cursor. See `PaymentsDb::apply_sync_batch` for the
    /// exact effect; notably `num_new + num_updated` equals the batch
    /// length, and the cursor ends past everything applied, which makes the
    /// sync idempotent.
    pub fn sync_payments(&mut self, batch: &Vec<PaymentRecord>) -> (summary: PaymentSyncSummary)
        requires
            old(self).wf(),
            batch_ok(old(self).db_spec()@, batch@),
        ensures
            final(self).wf(),
            final(self).user_config_spec() == old(self).user_config_spec(),
            final(self).db_spec()@ == apply_batch(old(self).db_spec()@, batch@),
            summary.num_new == count_new(old(self).db_spec()@, batch@),
            summary.num_new + summary.num_updated == batch@.len(),
            final(self).db_spec()@.len() == old(self).db_spec()@.len() + summary.num_new,
            batch@.len() == 0 ==> final(self).db_spec() == old(self).db_spec(),
            batch@.len() > 0 ==> final(self).db_spec().cursor_spec() == Some(
                batch@[batch@.len() - 1].updated_index,
            ),
    {
        self.db.apply_sync_batch(batch)
    }

    /// Replace a payment's note through the local store; the write gets an
    /// update index strictly past everything stored. See
    /// `PaymentsDb::update_payment_note` for the exact effect and failures.
    pub fn update_payment_note(&mut self, req: UpdatePaymentNote) -> (r: Result<(), StoreError>)
        requires
            old(self).wf(),
        ensures
            final(self).wf(),
            final(self).user_config_spec() == old(self).user_config_spec(),
            r is Ok <==> !crate::payments_db::is_new(old(self).db_spec()@, req.index) && old(
                self,
            ).db_spec().cursor_spec() != Some(u64::MAX),
            r is Err ==> final(self).db_spec()@ == old(self).db_spec()@
                && final(self).db_spec().cursor_spec() == old(self).db_spec().cursor_spec(),
            r matches Err(e) ==> (e == StoreError::PaymentNotFound <==> crate::payments_db::is_new(
                old(self).db_spec()@,
                req.index,
            )),
            r matches Err(e) ==> (e == StoreError::IndexSpaceExhausted
                <==> !crate::payments_db::is_new(old(self).db_spec()@, req.index)
                    && old(self).db_spec().cursor_spec() == Some(u64::MAX)),
            r is Ok ==> exists|j: int|
                {
                    &&& 0 <= j < old(self).db_spec()@.len()
                    &&& (#[trigger] old(self).db_spec()@[j]).created_index == req.index
                    &&& final(self).db_spec()@[j].note == req.note
                    &&& final(self).db_spec()@ == old(self).db_spec()@.update(
                        j,
                        final(self).db_spec()@[j],
                    )
                },
    {
        let r = self.db.update_payment_note(req);
        proof {
            if r is Ok {
                let s0 = old(self).db_spec()@;
                let c0 = old(self).db_spec().cursor_spec()->0;
                let j = choose|j: int|
                    {
                        &&& 0 <= j < s0.len()
                        &&& (#[trigger] s0[j]).created_index == req.index
                        &&& self.db_spec()@ == s0.update(
                            j,
                            crate::payments_db::with_note(s0[j], req.note, (c0 + 1) as u64),
                        )
                    };
                assert(self.db_spec()@[j].note == req.note);
                assert(self.db_spec()@ == s0.update(j, self.db_spec()@[j]));
            }
        }
        r
    }

    /// Wallet construction from borrowed credentials plus the environment,
    /// opening or creating the store as `load_or_fresh` does.
    pub fn from_credentials(
        env_config: WalletEnvConfig,
        credentials: &Credentials,
        stored: Option<Vec<PaymentRecord>>,
    ) -> (r: Result<WalletWithStore, StoreError>)
        ensures
            match r {
                Ok(w) => {
                    &&& w.wf()
                    &&& w.user_config_spec().env_config == env_config
                    &&& match stored {
                        None => w.db_spec()@.len() == 0,
                        Some(v) => records_valid(v@) && w.db_spec()@ == v@,
                    }
                },
                Err(e) => {
                    &&& e == StoreError::Corrupted
                    &&& stored matches Some(v) && !records_valid(v@)
                },
            },
    {
        let user_config = WalletUserConfig::from_credentials(env_config, credentials);
        WalletWithStore::load_or_fresh(user_config, stored)
    }
}

/// A wallet with no local persistence capability: only the remote-backed
/// surface exists on this type. A payment-note update on a store-less
/// wallet is unavailable by design, not forwarded: there is no local ledger
/// for its index to be resolved against.
pub struct WalletWithoutStore {
    user_config: WalletUserConfig,
}

impl WalletWithoutStore {
    /// The per-user configuration, as a value, for contracts.
    pub closed spec fn user_config_spec(&self) -> WalletUserConfig {
        self.user_config
    }

    /// The wallet's per-user configuration.
    pub fn user_config(&self) -> (r: &WalletUserConfig)
        ensures
            *r == self.user_config_spec(),
    {
        &self.user_config
    }

    /// Construct a store-less wallet from borrowed credentials.
    pub fn without_db(env_config: WalletEnvConfig, credentials: &Credentials) -> (w:
        WalletWithoutStore)
        ensures
            w.user_config_spec().env_config == env_config,
            match credentials {
                Credentials::ClientCredentials(cc) => w.user_config_spec().user_pk matches Some(pk)
                    && pk@ == cc.user_pk@,
                Credentials::RootSeed(_) => w.user_config_spec().user_pk is None,
            },
    {
        WalletWithoutStore {
            user_config: WalletUserConfig::from_credentials(env_config, credentials),
        }
    }
}

/// Request to create a Lightning invoice on the remote node.
pub struct SdkCreateInvoiceRequest {
    /// Seconds until the invoice expires.
    pub expiration_secs: u64,
    /// Amount in millisatoshis; `None` for an amountless invoice.
    pub amount_msat: Option<u64>,
    /// Optional human description.
    pub description: Option<String>,
}

/// The created invoice and its creation index in the remote ledger.
pub struct SdkCreateInvoiceResponse {
    /// The encoded invoice string.
    pub invoice: String,
    /// Creation index assigned by the remote ledger.
    pub index: PaymentCreatedIndex,
}

/// Request to pay an invoice through the remote node.
pub struct SdkPayInvoiceRequest {
    /// The encoded invoice string.
    pub invoice: String,
    /// Amount in millisatoshis, for amountless invoices.
    pub amount_msat: Option<u64>,
    /// Optional note to attach locally.
    pub note: Option<String>,
}

/// The creation index the remote ledger assigned the outgoing payment.
pub struct SdkPayInvoiceResponse {
    /// Creation index assigned by the remote ledger.
    pub index: PaymentCreatedIndex,
}

/// Request to fetch one payment directly from the remote source, bypassing
/// the local store.
pub struct SdkGetPaymentRequest {
    /// The payment's creation index.
    pub index: PaymentCreatedIndex,
}

/// The remote's answer to a direct payment lookup; absent is not an error.
pub struct SdkGetPaymentResponse {
    /// The payment, when the remote knows the index.
    pub payment: Option<PaymentRecord>,
}

/// A snapshot of the remote node's status.
pub struct SdkNodeInfo {
    /// The node's running version.
    pub version: u64,
    /// Spendable balance in millisatoshis.
    pub balance_msat: u64,
    /// Open channel count.
    pub num_channels: u64,
}

} // verus!
