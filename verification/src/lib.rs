pub mod text;
pub mod assoc;
pub mod logger;
pub mod meltdown;
pub mod token_registry;
pub mod jwt;
pub mod bootstrap;
pub mod jwt_service;
pub mod htmx;
pub mod builders;
pub mod guards;
pub mod catchers;
pub mod auth_flow;
pub mod fairings;
pub mod tenancy;
pub mod hooks;
pub mod spark_state;
pub mod sparks;
pub mod passwords;
pub mod records;
pub mod scheduler;
pub mod api_logs;
pub mod partials;
pub mod manifest;
pub mod token_history;
