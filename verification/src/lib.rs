//! A verified event-processing pipeline core: graph-fragment nodes with
//! deterministic merge rules, a deduplication cache, a batch event handler,
//! and the failure-routing planner of a queue-driven executor.

mod cache;
mod deploy;
mod dynamic_node;
mod errors;
mod event_filter;
mod executor;
mod file;
mod graph;
mod handler;
mod identity;
mod ids;
mod ip_connection;
mod key;
mod merge_rules;
mod mutation;
mod numfmt;
mod process_inbound_connection;

pub use cache::Cache;
pub use cache::CacheError;
pub use cache::CacheResponse;
pub use cache::MemCache;
pub use cache::NopCache;
pub use deploy::CustomError;
pub use deploy::DeployRequest;
pub use deploy::deploy_response_status;
pub use dynamic_node::DynamicNode;
pub use dynamic_node::IdStrategy;
pub use dynamic_node::NodeProperty;
pub use errors::CheckedError;
pub use errors::Error;
pub use errors::Recoverable;
pub use event_filter::filter_event_lines;
pub use executor::Action;
pub use executor::ActionKind;
pub use executor::RetrievalOutcome;
pub use executor::SlotPool;
pub use executor::batch_in_flight;
pub use executor::make_ten;
pub use executor::process_message;
pub use file::File;
pub use file::FileState;
pub use graph::Edge;
pub use graph::Graph;
pub use graph::Node;
pub use handler::BatchItem;
pub use handler::CompletedEvents;
pub use handler::SysmonGeneratorError;
pub use handler::handle_event;
pub use handler::process_events;
pub use ip_connection::IpConnection;
pub use ip_connection::IpConnectionState;
pub use key::build_key;
pub use key::time_based_key_fn;
pub use mutation::new_mutation_unit;
pub use numfmt::i64_to_dec_string;
pub use numfmt::u64_to_dec_string;
pub use process_inbound_connection::ProcessInboundConnection;
pub use process_inbound_connection::ProcessInboundConnectionState;
