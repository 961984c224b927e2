//! Decision core of an autopilot that hands Asana tasks to coding sessions.

pub mod asana;
pub mod assistant;
pub mod claudecli;
pub mod cli;
pub mod client;
pub mod context;
pub mod daemon;
pub mod decimal;
pub mod initproj;
pub mod links;
pub mod model;
pub mod order;
pub mod outside;
pub mod paths;
pub mod registry;
pub mod runner;
pub mod selection;
pub mod settings;
pub mod telegram;
pub mod text;
