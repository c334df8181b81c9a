//! Verified decision logic of the HIP evidence runners: what a run is asked to do, the inputs it
//! makes, the replies, dispatches and results it accepts, and the verdict it ends in.
//!
//! Nothing here touches a device or a file. A caller performs the device work, hands over what came
//! back as plain values, and gets the next step or the verdict.

pub mod argmax;
pub mod attention_cases;
pub mod attention_config;
pub mod attention_inputs;
pub mod attention_preprocess;
pub mod attention_provider;
pub mod attention_run;
pub mod audit;
pub mod bytes;
pub mod candidates;
pub mod catch_up;
pub mod catch_up_entry;
pub mod catch_up_ledger;
pub mod catch_up_report;
pub mod companion;
pub mod device_args;
pub mod diagnostic;
pub mod digest;
pub mod draft_run;
pub mod elementwise;
pub mod embedding;
pub mod fp8_accuracy;
pub mod fp8_matmul;
pub mod gemma_args;
pub mod gemma_full;
pub mod gemma_profile;
pub mod gemma_slice;
pub mod gemma_slice_run;
pub mod gqa6_config;
pub mod gqa6_run;
pub mod json;
pub mod kv_image;
pub mod manifest;
pub mod mtp_case;
pub mod mtp_numeric;
pub mod mtp_path;
pub mod native;
pub mod number;
pub mod preprocess_inputs;
pub mod preprocess_run;
pub mod research_args;
pub mod research_candidate;
pub mod research_inputs;
pub mod research_run;
pub mod session;
pub mod state_check;
pub mod state_report;
pub mod stats;
pub mod text;
pub mod transfer;
