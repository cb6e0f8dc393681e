//! Scene-driven entity behavior core.
//!
//! Levels are authored in a content tool and exported as scene graphs;
//! gameplay behavior (doors, buttons, triggers, teleports, phones) is
//! attached to exported nodes by naming convention and embedded metadata.
//! This crate holds the verified core of that mechanism:
//!
//! * a scene-load notifier that reports each freshly materialized entity
//!   exactly once ([`scene`]),
//! * a behavior matcher that tests display names against per-behavior
//!   tokens and parses embedded property blobs ([`matcher`], [`props`]),
//! * the linear door state machine and its per-frame tween ([`door`]),
//! * the interaction and collision event pipeline ([`interact`],
//!   [`overlap`], [`button`], [`trigger`], [`teleport`], [`phone`]),
//! * name-keyed per-frame status maps with single-frame decay ([`status`]),
//! * generic substring-based query helpers ([`query`], [`text`]).
//!
//! The engine itself (rendering, physics solving, audio, input devices,
//! asset loading) stays outside: the core consumes plain values that a
//! host hands in each frame and returns plain values, events and plans.
//! Spatial quantities are carried in signed fixed-point thousandths
//! ([`fixed`]) so that every computation here is exact and verified.

pub mod button;
pub mod door;
pub mod fixed;
pub mod interact;
pub mod json;
pub mod matcher;
pub mod mesh;
pub mod overlap;
pub mod phone;
pub mod props;
pub mod query;
pub mod scene;
pub mod status;
pub mod teleport;
pub mod text;
pub mod trigger;
