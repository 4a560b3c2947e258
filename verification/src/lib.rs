pub mod agg_covers;
pub mod agg_forms;
pub mod aggregate;
pub mod bilinear;
pub mod conceal;
pub mod covers;
pub mod curve;
pub mod error;
pub mod expanded;
pub mod expanded_covers;
pub mod expanded_forms;
pub mod fold_terms;
pub mod keys;
pub mod open;
pub mod params;
pub mod scheme;
pub mod setup;
pub mod signature;
pub mod types;
pub mod utils;
pub mod verify;

pub use aggregate::{aggregate_concealed_signatures, local_aggregate_opening};
pub use conceal::{convert, AuxiliaryData, Commitment, ConcealedSignature, Proof};
pub use error::HashingError;
pub use keys::{key_gen, SignKey, VerifyKey};
pub use open::open_concealed_signature;
pub use scheme::Scheme;
pub use setup::{csetup, CSetupParameters, V, W};
pub use signature::{sign, Signature};
pub use types::{AggregateSignature, Cross, LocalAggregateOpening};
pub use verify::{local_verify, verify, verify_aggregate, verify_concealed};
