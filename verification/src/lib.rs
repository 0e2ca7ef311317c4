//! The logic of the Ankora desktop shell: reading application launchers,
//! installing packages, running shell commands, handling documents, talking
//! to a local language model, and preparing disk installation.
pub mod text;
pub mod trusted;
pub mod desktop;
pub mod shell;
pub mod packages;
pub mod documents;
pub mod assistant;
pub mod installer;
pub mod storage;
pub mod system;
