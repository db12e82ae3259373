use vstd::prelude::*;

pub mod action;
pub mod ai_config;
pub mod ai_usage;
pub mod action_contract;
pub mod contract_schema;
pub mod agents;
pub mod assoc;
pub mod attempts;
pub mod conversation;
pub mod audit;
pub mod character_files;
pub mod domain;
pub mod draft_log;
pub mod drafts;
pub mod events;
pub mod execution;
pub mod facts;
pub mod gates;
pub mod generations;
pub mod images;
pub mod limits;
pub mod listing;
pub mod media;
pub mod model3d;
pub mod orchestration;
pub mod order;
pub mod project;
pub mod project_json;
pub mod records;
pub mod resume;
pub mod routing;
pub mod store;
pub mod text;
pub mod transport;
pub mod turn_output;
pub mod turns;
pub mod workflow;

verus! {
} // verus!
