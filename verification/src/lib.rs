//! Verified core of an API simulator: request routing, port assignment,
//! endpoint path patterns, configuration validation and client code generation.

pub mod admin;
pub mod axios_client;
pub mod codegen;
pub mod config;
pub mod endpoints;
pub mod exchange;
pub mod graphql;
pub mod handler;
pub mod instance;
pub mod json;
pub mod lifecycle;
pub mod loading;
pub mod marketplace;
pub mod mockoon;
pub mod openapi;
pub mod postman;
pub mod ports;
pub mod react_query;
pub mod react_view;
pub mod recording;
pub mod registry;
pub mod recording_proxy;
pub mod route_registry;
pub mod router;
pub mod scenario;
pub mod routing;
pub mod soap;
pub mod state;
pub mod status;
pub mod strmap;
pub mod text;
pub mod urls;
pub mod validation;
pub mod xml;
