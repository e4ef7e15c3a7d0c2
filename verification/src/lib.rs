//! Dispatch core of an event-driven graph-analytics pipeline.
//!
//! Tenant-scoped messages arrive on an ordered log and are routed to a
//! dynamically discovered, per-tenant set of downstream targets. The crate
//! provides the verified logic of that pipeline: a coalescing, TTL-bounded
//! target cache, the per-message dispatch decisions, concurrent fan-out
//! construction, the retry-routing discipline, and the lease/acknowledge
//! discipline of the execution sidecars. Around the core stand the verified
//! pieces of the supporting services: node identity attribution, graph
//! upsert building, scheduler plan checking, and the uid allocator's
//! request handling. Transport (log consumers, RPC clients, stores) is left
//! to the host program, which drives these state machines.

mod cache;
mod digits;
mod dispatch;
mod envelope;
mod executor;
mod grpc_config;
mod identity;
mod nomad;
mod quads;
mod uid_allocator;
mod upsert;
mod work_queue;

pub use cache::CacheEntry;
pub use cache::CacheError;
pub use cache::FailureRecord;
pub use cache::GetCase;
pub use cache::PopulationResult;
pub use cache::TargetCache;
pub use cache::distinct_entry_keys;
pub use cache::key_in;
pub use cache::lemma_fresh_value_served;
pub use cache::lemma_overflow_evicts_lru;
pub use cache::lemma_pending_unique;
pub use cache::lemma_single_flight;
pub use cache::lemma_stale_never_served;
pub use cache::spec_deadline;
pub use dispatch::DispatchAction;
pub use dispatch::DispatchLoopState;
pub use dispatch::IntakeDecision;
pub use dispatch::SourceEvent;
pub use dispatch::classify_pull;
pub use dispatch::build_work_items;
pub use dispatch::dispatch_message;
pub use dispatch::fan_out_items;
pub use dispatch::first_enqueue_failure;
pub use dispatch::lemma_empty_targets_no_work;
pub use dispatch::lemma_fan_out_shape;
pub use envelope::Envelope;
pub use envelope::EnvelopeModel;
pub use envelope::WorkItem;
pub use envelope::WorkItemModel;
pub use digits::dec_digits;
pub use digits::digit_char;
pub use digits::i64_to_decimal;
pub use digits::signed_dec_digits;
pub use digits::u128_to_decimal;
pub use digits::u64_to_decimal;
pub use executor::ExecutorStep;
pub use executor::PluginExecutor;
pub use executor::ProcessOutcome;
pub use executor::PullEvent;
pub use executor::lemma_ack_discipline;
pub use executor::plugin_upstream_address;
pub use executor::plugin_upstream_env_var;
pub use executor::should_acknowledge;
pub use executor::spec_retriable;
pub use grpc_config::GenericGrpcClientConfig;
pub use grpc_config::GrpcClientConfig;
pub use grpc_config::PipelineIngressClientConfig;
pub use grpc_config::PluginBootstrapClientConfig;
pub use grpc_config::PluginRegistryClientConfig;
pub use identity::AttributionStep;
pub use identity::IdentityError;
pub use identity::NodeDescription;
pub use identity::SessionStrategy;
pub use identity::StaticStrategy;
pub use identity::Strategy;
pub use identity::UnidSession;
pub use identity::apply_session_id;
pub use identity::attribute_static_mapping;
pub use identity::be_byte;
pub use identity::get_static_node_key;
pub use identity::hashed_parts_from;
pub use identity::hex_digit;
pub use identity::hex_of;
pub use identity::is_static_key_of;
pub use identity::lex_leq_chars;
pub use identity::prepare_attribution;
pub use identity::primary_session_key;
pub use identity::prop_lookup;
pub use identity::session_for_attribution;
pub use identity::session_parts;
pub use identity::session_parts_from;
pub use identity::sha256_of;
pub use identity::sort_property_names;
pub use identity::static_key_input;
pub use identity::tenant_id_bytes;
pub use identity::u128_be_bytes;
pub use identity::urn_of;
pub use nomad::JobPlanError;
pub use nomad::JobPlanOutcome;
pub use nomad::nomad_base_path;
pub use quads::MutationModel;
pub use quads::UpsertMutation;
pub use quads::build_upserts;
pub use quads::cond_when_absent;
pub use quads::cond_when_present;
pub use quads::creation_nquads_chars;
pub use quads::creation_query_chars;
pub use quads::creation_var_chars;
pub use quads::gen_node_property_upsert_quads;
pub use quads::node_creation_quads;
pub use quads::prop_create_nquads;
pub use quads::prop_mutations_from;
pub use quads::prop_queries_from;
pub use quads::prop_query_chars;
pub use quads::prop_update_nquads;
pub use quads::upsert_value_chars;
pub use quads::upserted;
pub use uid_allocator::SERVER_CHOSEN_ALLOCATION;
pub use uid_allocator::Status;
pub use uid_allocator::StatusKind;
pub use uid_allocator::UidAllocatorServiceError;
pub use uid_allocator::effective_allocation_count;
pub use uid_allocator::hyphenated_of;
pub use uid_allocator::status_for_error;
pub use upsert::Escaped;
pub use upsert::NodeProperty;
pub use upsert::Property;
pub use upsert::escape_char;
pub use upsert::escape_chars;
pub use upsert::escape_prop;
pub use upsert::escape_quote;
pub use upsert::property_chars;
pub use upsert::property_string;
pub use upsert::quoted;
pub use work_queue::QueueSlot;
pub use work_queue::WorkQueue;
pub use work_queue::first_available;
pub use work_queue::lemma_unacked_item_redelivered;
