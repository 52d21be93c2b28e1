//! Payment-gated provisioning and governance of managed units: a checksummed
//! identifier codec, a payment verifier over an external ledger, the
//! lifecycle decisions for managed units, and the registry that tracks their
//! ownership and controllers.

pub mod bytes;
pub mod codec;
pub mod ledger;
pub mod lifecycle;
pub mod owner;
pub mod principal;
pub mod registry;
pub mod workflow;

pub use codec::{decode_token, encode_token, TokenError};
pub use ledger::{
    check_transfer, memo_from_random, ICPService, LedgerBlock, LedgerOperation, PaymentError,
    PaymentStatus, TransactionItem, VerificationError, PAYMENT_AMOUNT,
};
pub use lifecycle::{
    deposit_remainder, nnsdao_change_controller, nnsdao_create_canister, nnsdao_install_code,
    nnsdao_reinstall_code, nnsdao_upgrade_code, HostCall, HostError, InstallMode, CREATE_CYCLES,
    DEFAULT_CYCLES,
};
pub use owner::OwnerService;
pub use principal::PrincipalId;
pub use registry::{
    AddDaoInfo, ControllerAction, CreateDaoOptions, DaoAdmin, DaoError, DaoInfo, DaoStatusCode,
};
pub use workflow::{snapshot_retry_len, CreateDaoFlow, CreateEvent, CreateStage, CreateStep, Data};

