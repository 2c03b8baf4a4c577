//! Style-aware QR rendering: module geometry, raster, SVG and PDF backends,
//! logo compositing, payload templates, the request rules of the service and
//! a fixed-window rate limiter.

pub mod blend;
pub mod decode;
pub mod embed;
pub mod encode;
pub mod geometry;
pub mod ids;
pub mod logo;
pub mod models;
pub mod pdf;
pub mod raster;
pub mod rate_limit;
pub mod render;
pub mod service;
pub mod style;
pub mod svg;
pub mod templates;
pub mod text;
