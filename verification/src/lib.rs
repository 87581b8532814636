//! Group coordination core: a registry of device groups and a presence hub
//! that tracks live connections and fans out membership notifications.
//!
//! The registry owns every group's device descriptors and directory
//! snapshots; the hub owns live session handles and room membership, and
//! answers each event with the deliveries to make. Both are stated over
//! maps and sequences and verified against those statements, together with
//! the wire grammar that routes requests onto registry operations.

mod action;
mod api;
mod config;
mod db;
mod device_manager;
mod device_spec;
mod error_handler;
mod file_sys;
mod id_map;
mod ids;
mod lobby;
mod network;
mod registry;
mod request_handler;
mod text;
mod websocket;

pub use action::ActionNum;
pub use api::ApiCall;
pub use api::Request;
pub use api::RouteError;
pub use api::extract_uuid_from_request;
pub use api::find_char;
pub use api::hex_digit_char;
pub use api::hyphens_before;
pub use api::lemma_uuid_text_round_trip;
pub use api::nibble;
pub use api::pow16;
pub use api::uuid_text;
pub use api::uuid_text_of;
pub use api::find_crlf;
pub use api::find_sub;
pub use api::find_uuid_pos;
pub use api::hex_prefix;
pub use api::hex_seq_value;
pub use api::hex_val;
pub use api::is_canonical_uuid;
pub use api::is_hex_digit;
pub use api::method_router;
pub use api::parse_request;
pub use api::parse_uuid;
pub use api::parsed_request;
pub use api::rfind_crlf;
pub use api::routed;
pub use api::routed_get;
pub use api::routed_post;
pub use api::uuid_at;
pub use api::uuid_char_ok;
pub use api::uuid_value;
pub use config::ClientConfig;
pub use config::Config;
pub use config::ServerConfig;
pub use db::MongoDB;
pub use device_manager::DeviceManager;
pub use device_spec::DeviceSpec;
pub use error_handler::ErrorHandler;
pub use error_handler::ErrorType;
pub use error_handler::NotAbortError;
pub use error_handler::pad2;
pub use error_handler::pad4;
pub use file_sys::FileNode;
pub use file_sys::FileSystem;
pub use file_sys::default_shared_dir;
pub use file_sys::default_shared_dir_name;
pub use file_sys::render_kids;
pub use file_sys::render_node;
pub use id_map::IdMap;
pub use id_map::distinct_keys;
pub use id_map::entries_to_map;
pub use ids::Uid;
pub use lobby::ClientGroupWs;
pub use lobby::HubEvent;
pub use lobby::Outbound;
pub use lobby::broadcast_out;
pub use lobby::connect_out;
pub use lobby::connect_rooms;
pub use lobby::connect_sessions;
pub use lobby::deliveries_for;
pub use lobby::disconnect_state;
pub use lobby::hub_next;
pub use lobby::hub_out;
pub use lobby::hub_run;
pub use lobby::hub_run_out;
pub use lobby::joined_members;
pub use lobby::left_members;
pub use lobby::lemma_deliveries_reach_members;
pub use lobby::lemma_disconnect_idempotent;
pub use lobby::lemma_event_order_preserved;
pub use lobby::lemma_fresh_room_after_collection;
pub use lobby::lemma_room_garbage_collected;
pub use network::TcpNetwork;
pub use registry::ClientGroup;
pub use registry::LookupError;
pub use registry::SpecOp;
pub use registry::apply_spec_op;
pub use registry::apply_spec_ops;
pub use registry::apply_upserts;
pub use registry::create_group_transition;
pub use registry::delete_group_transition;
pub use registry::lemma_create_then_get;
pub use registry::lemma_delete_then_get;
pub use registry::lemma_distinct_upserts_all_visible;
pub use registry::lemma_last_write_wins;
pub use request_handler::RequestHandler;
pub use text::dec_digits;
pub use text::digit_char;
pub use text::str_eq;
pub use text::usize_to_decimal;
pub use websocket::CLIENT_TIMEOUT;
pub use websocket::HEARTBEAT_INTERVAL;
pub use websocket::WebSocket;
pub use websocket::WsAction;
pub use websocket::WsEvent;
