//! Inspection, preflight and PDF/X-1a conversion planning for print PDFs.
pub mod text;
pub mod pdf;
pub mod models;
pub mod digest;
pub mod icc;
pub mod error;
pub mod security;
pub mod paths;
pub mod inspector;
pub mod preflight;
pub mod conversion;
pub mod ghostscript;
pub mod validator;
pub mod application;
pub mod pdfx;
pub mod cli;
pub mod conversion_steps;
