//! Verified core of the bridge relays: header synchronisation queues, message
//! race strategies, finality proof selection and the helpers around them.

pub mod cli;
pub mod delivery;
pub mod fees;
pub mod finality;
pub mod groups;
pub mod headers;
pub mod linked_map;
pub mod maintain;
pub mod message_details;
pub mod messages_lane;
pub mod metrics;
pub mod on_demand;
pub mod proposal;
pub mod race;
pub mod relay_loop;
pub mod relay_strategy;
pub mod send_message;
pub mod sync;
pub mod sync_loop;
pub mod sync_types;
pub mod utils;
