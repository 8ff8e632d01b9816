//! Verified core of a direct Android Debug Bridge client.

pub mod bytes;
pub mod command;
pub mod commands;
pub mod control;
pub mod crypto;
pub mod daemon;
pub mod dispatched;
pub mod dispatcher;
pub mod download;
pub mod endpoints;
pub mod error;
pub mod forward;
pub mod frames;
pub mod identity;
pub mod install;
pub mod invocation;
pub mod job;
pub mod listing;
pub mod message;
pub mod message_device;
pub mod operation;
pub mod package;
pub mod pairing;
pub mod paths;
pub mod requests;
pub mod reverse_relay;
pub mod routing;
pub mod service;
pub mod spake;
pub mod sync;
pub mod table;
pub mod tcp;
pub mod text;
pub mod transfer;
pub mod upload;
pub mod usb;
pub mod walk;
