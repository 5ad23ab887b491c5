//! Currency exchange-rate services: currency codes and rate sets, the
//! provider adapter's request and response handling, and the decisions of a
//! cache-aside decorator.

pub mod models;
pub mod cache;
pub mod currency_service;
pub mod http_client;
pub mod api_currency_service;
pub mod cache_currency_service;
