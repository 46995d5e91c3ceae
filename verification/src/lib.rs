//! Enforcement lifecycle engine for a moderation bot.
//!
//! The engine issues time-delayed, reversible moderation actions (mute, ban,
//! kick, voice mute, voice deafen, voice disconnect, and a multi-step voice
//! channel "haunt") in response to behavioural warnings.  It owns the action
//! taxonomy, the per-record state machine, the keyed record store, the
//! per-kind effect dispatch, and the orchestration that drives records
//! through their lifecycle.  All platform I/O is delegated to the caller:
//! the engine decides which effect to request and accounts for the outcome.

pub mod action;
pub mod error;
pub mod handler;
pub mod record;
pub mod service;
pub mod store;
