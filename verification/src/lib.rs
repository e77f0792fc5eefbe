//! Verified core of a manga downloader: entities, text handling, extension
//! manifests, date normalisation and the decision logic around downloads and
//! browser-based challenge solving.

pub mod text;
pub mod date;
pub mod numbers;
pub mod error;
pub mod entities;
pub mod catalog;
pub mod browser;
pub mod cloudflare;
pub mod download;
pub mod manifest;
pub mod extension;
pub mod search_params;
pub mod crypto;
pub mod encoding;
pub mod fetch;
pub mod url_object;
pub mod browser_api;
pub mod html;
pub mod config;
pub mod loader;
pub mod js_entities;
pub mod registry;
