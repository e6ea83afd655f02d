//! Verified core of the SakiPet desktop companion: pet life state, chat
//! message shaping, provider stream decoding, the social scene catalogue and
//! relationship bookkeeping, desktop-environment classification and the
//! companion schedulers.

pub mod text;
pub mod platform;
pub mod scene;
pub mod relationship;
pub mod behavior;
pub mod life;
pub mod chat;
pub mod json;
pub mod provider;
pub mod sse;
pub mod environment;
pub mod companion;
pub mod payload;
pub mod memory;
pub mod desktop;
pub mod social;
pub mod prompt;
pub mod football;
pub mod screen;
