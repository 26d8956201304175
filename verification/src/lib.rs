//! Verified core of the OneChat desktop client: prompt templates, conversation export,
//! context accounting, generation state and the validation rules for attachments.
pub mod text;
pub mod order;
pub mod prompt;
pub mod domain;
pub mod reducer;
pub mod continuation;
pub mod time;
pub mod html;
pub mod export;
pub mod context_usage;
pub mod history;
pub mod prepare;
pub mod attachments;
pub mod title;
pub mod navigation;
pub mod store;
pub mod playback;
pub mod runner;
pub mod documents;
pub mod rendering;
pub mod commands;
pub mod tools;
pub mod run_loop;
pub mod active;
pub mod composer;
pub mod workspace;
pub mod models;
pub mod actions;
pub mod editing;
pub mod live;
pub mod agent;
