pub mod call_data;
pub mod codec;
pub mod protocol;
pub mod types;
pub mod type_info;
pub mod metadata;
pub mod extension;
pub mod vm;
pub mod host;
pub mod executor;
pub mod syntax;
pub mod naming;
pub mod program;
pub mod pvq_program;
pub mod runner;
pub mod extension_decl;
pub mod derive;
