//! Experimental helpers.

pub mod audio_dual_nic;
