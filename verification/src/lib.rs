//! The decisions behind setting up and launching a Linux desktop in a PRoot container on Android.
//!
//! Nothing here touches a disk, a network or a process. The functions take what was read or what
//! happened as plain values, and give back texts to write, steps to take (`plan`) or actions to
//! perform:
//!
//! - `kv`, `ini`, `openbox`, `theme` and `pacman` rewrite configuration files;
//! - `lxqt`, `sysdata` and `firefox` plan the steps of a stage;
//! - `rootfs`, `install`, `launch` and `stages` decide, from a state and an event, the next state and
//!   what to do;
//! - `text`, `decimal` and `facts` hold what all of them need of texts and numbers.
//!
//! What the functions are for, and what holds of several of them together, stands in the proof
//! functions whose names begin with `law_`; most of them are in the modules whose names end in `_laws`,
//! `_lines` or `_sections`.

pub mod decimal;
pub mod facts;
pub mod firefox;
pub mod ini;
pub mod ini_laws;
pub mod ini_lines;
pub mod ini_sections;
pub mod install;
pub mod install_laws;
pub mod kv;
pub mod kv_laws;
pub mod kv_lines;
pub mod launch;
pub mod launch_laws;
pub mod lxqt;
pub mod message;
pub mod openbox;
pub mod openbox_laws;
pub mod openbox_lines;
pub mod pacman;
pub mod pacman_laws;
pub mod plan;
pub mod rootfs;
pub mod rootfs_laws;
pub mod stage_laws;
pub mod stages;
pub mod stages_laws;
pub mod sysdata;
pub mod text;
pub mod text_laws;
pub mod theme;
