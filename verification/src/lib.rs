//! Typed custom queries from a contract to its host chain: the catalog of
//! requests, the records that answer them, their wire form, and the client
//! that dispatches a request and decodes the reply. An example contract
//! that uses the client comes with it.

pub mod contract;
pub mod error;
pub mod host;
pub mod msg;
pub mod number;
pub mod querier;
pub mod query;
pub mod state;
pub mod text;
pub mod token;
pub mod types;
pub mod value;
pub mod wire;

pub use contract::{instantiate, query};
pub use error::QueryError;
pub use host::{HostQuerier, HostReply, HostStorage};
pub use msg::{ChainResponse, InstantiateMsg, OwnerResponse, QueryMsg};
pub use querier::BabylonQuerier;
pub use query::{
    BabylonQuery, BabylonResponse, BtcBaseHeaderResponse, BtcHeaderQueryResponse, BtcTipResponse,
    CurrentEpochResponse, CustomRequest, LatestFinalizedEpochInfoResponse, ResponseKind,
};
pub use state::State;
pub use types::{BtcBlockHeader, BtcBlockHeaderInfo, FinalizedEpochInfo};
pub use wire::{from_json, to_json_vec, Wire};
