//! The decision logic of the e-shop services: basket arithmetic, order
//! checks and status rules, gateway routing and header handling, login
//! decisions, and the reactions of the event consumers.
pub mod text;
pub mod money;
pub mod basket;
pub mod http;
pub mod ordering;
pub mod gateway;
pub mod identity;
pub mod consumers;
