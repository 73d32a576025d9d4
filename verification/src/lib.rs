//! Financial structural signal: market contracts, asset resolution without
//! guessing, corpus custody and cadence, request validation, provider and
//! data-source rules, runtime readiness, cross-scale and cross-asset
//! agreement, first-passage labels, publication gates and the integer
//! statistics of held-out calibration, with their behaviour stated as Verus
//! contracts.

pub mod contracts;
pub mod text;
pub mod resolver;
pub mod calibration;
pub mod dynamics;
pub mod native_response;
pub mod signal;
pub mod service;
pub mod historical;
pub mod digest;
pub mod corpus;
pub mod provider;
pub mod logging;
pub mod readiness;
pub mod cross_asset;
pub mod observation;
pub mod profile;
pub mod daily_csv;
