//! The gateway: which provider answers a request, and what becomes of the answer.
pub mod adaptive;
pub mod cache;
pub mod call;
pub mod coalescing;
pub mod consensus;
pub mod cost;
pub mod dispatch;
pub mod engine;
pub mod headroom;
pub mod hedging;
pub mod method_policy;
pub mod predictive;
pub mod probe;
pub mod ranking;
pub mod reply;
pub mod response;
pub mod rpc;
pub mod validation;

pub use self::adaptive::HedgingStatsView;
pub use self::engine::{Gateway, ProviderHealthView};
pub use self::response::{DispatchError, GatewayResponse, ProviderFailure};
