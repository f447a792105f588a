pub mod branches;
pub mod editors;
pub mod executor;
pub mod github;
pub mod history;
pub mod number;
pub mod operations;
pub mod scanner;
pub mod sorting;
pub mod status;
pub mod templates;
pub mod text;
pub mod types;
pub mod workspace;
