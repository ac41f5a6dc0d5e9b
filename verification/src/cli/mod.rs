pub mod audit;
pub mod braid_args;
pub mod browse;
pub mod braid_cmd;
pub mod braid_where;
pub mod common;
pub mod contract;
pub mod diff;
pub mod digest;
pub mod digest_log;
pub mod doctor;
pub mod doctor_report;
pub mod focus;
pub mod log;
pub mod log_args;
pub mod log_view;
pub mod map;
pub mod noise;
pub mod noise_report;
pub mod onboarding;
pub mod pack_api;
pub mod pack_args;
pub mod pack_check;
pub mod pack_ignore;
pub mod pack_paths;
pub mod pack_time;
pub mod pack_why;
pub mod pack_why_report;
pub mod relations;
pub mod replay;
pub mod replay_diff;
pub mod roots;
pub mod roots_args;
pub mod roots_registry;
pub mod roots_list;
pub mod skim;
pub mod tree_budget;
pub mod tree_text;
pub mod where_args;
pub mod tree_args;
pub mod where_symbols;
pub mod tree_render;
pub mod tree_aggregate;
