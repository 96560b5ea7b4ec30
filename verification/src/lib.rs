//! Reservation e-mail templates: placeholders, rendering, custom template
//! numbering, configuration defaults and the decisions of the set-up screens.

pub mod text;
pub mod numbers;
pub mod configshandler;
pub mod dbadapt;
pub mod first_configuration;
pub mod home;
pub mod window;
pub mod app;
