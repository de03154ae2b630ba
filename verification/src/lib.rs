//! Queueing, scheduling and presentation rules of a MEGA download manager.

pub mod actions;
pub mod app;
pub mod batch;
pub mod batching;
pub mod bookmarklet;
pub mod bootstrap;
pub mod collection;
pub mod collection_laws;
pub mod commands;
pub mod dashboard;
pub mod dispatch;
pub mod duplicates;
pub mod effects;
pub mod event_laws;
pub mod events;
pub mod html;
pub mod ids;
pub mod login;
pub mod login_laws;
pub mod model;
pub mod ordered;
pub mod packages;
pub mod paths;
pub mod persistence;
pub mod projection;
pub mod publish_laws;
pub mod report_laws;
pub mod requests;
pub mod rows;
pub mod runtime;
pub mod save_laws;
pub mod scheduler;
pub mod scheduler_laws;
pub mod screen_laws;
pub mod session;
pub mod settings;
pub mod shutdown;
pub mod sorted;
pub mod task;
pub mod text;
pub mod text_laws;
pub mod tracking;
pub mod verification;
pub mod web;
pub mod web_laws;
