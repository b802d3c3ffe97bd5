//! Security scoring of MCP servers: from the files of a repository to a grade with evidence.
//!
//! Start with [`repo::parse_repo`] for the model of a server and [`grading::grade_model`] for its
//! findings and its grade.
pub mod catalog;
pub mod context;
pub mod deps;
pub mod document;
pub mod files;
pub mod go;
pub mod grading;
pub mod inventory;
pub mod js;
pub mod json;
pub mod laws_context;
pub mod laws_deps;
pub mod laws_files;
pub mod laws_go;
pub mod laws_js;
pub mod laws_literal;
pub mod laws_python;
pub mod laws_repo;
pub mod laws_report;
pub mod laws_rules;
pub mod laws_score;
pub mod laws_text;
pub mod literal;
pub mod manifest;
pub mod model;
pub mod order;
pub mod python;
pub mod repo;
pub mod report;
pub mod rules;
pub mod scan;
pub mod score;
pub mod taint;
pub mod targets;
pub mod text;
