//! Deterministic simulation rules for a small rollback-networked arena game:
//! input bitmasks, per-axis movement decisions, pursuer targeting, survival
//! scoring, respawn placement and the scoreboard.
//!
//! Everything here is integer and boolean logic, so each tick is a pure
//! function of its inputs. The floating-point kinematics live with the
//! engine glue.

pub mod input;
pub mod rules;
pub mod scoreboard;
