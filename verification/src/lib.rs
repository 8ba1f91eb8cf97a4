//! The verified core of a desktop voice assistant for games.
pub mod text;
pub mod kana;
pub mod wake_word;
pub mod asr;
pub mod json;
pub mod paths;
pub mod asr_worker;
pub mod transcript;
pub mod ai_client;
pub mod generation;
pub mod ordering;
pub mod summary_failure;
pub mod lance_memory;
pub mod memory_table;
pub mod memory_summary;
pub mod backfill;
pub mod backup_run;
pub mod grounding;
pub mod local_summary;
pub mod summary_server;
pub mod summary_service;
pub mod clock;
pub mod digest;
pub mod identifiers;
pub mod bootstrap;
pub mod setup_status;
pub mod setup_tools;
pub mod setup_run;
pub mod restore_run;
pub mod runtime_init;
pub mod logger;
pub mod wav;
pub mod audio;
pub mod audio_input;
pub mod startup;
