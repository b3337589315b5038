pub mod order;
pub mod json;
pub mod domains;
pub mod cards;
pub mod text;
pub mod secrets;
pub mod wizard;
pub mod cli;
pub mod demo;
pub mod onboard;
pub mod operator_i18n;
pub mod provider_registry;
pub mod wizard_plan_builder;
pub mod wizard_executor;
pub mod wizard_spec_builder;
pub mod paths;
pub mod project;
pub mod slug;
pub mod textmap;
pub mod dev_mode;
pub mod settings;
pub mod dev_detect;
