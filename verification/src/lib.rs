//! A small build-system and image-shading library: `Mcule` build units with
//! their recipes, the `Redoxri` build-script driver, PPM pixel buffers, and
//! the size arithmetic of a page-granular allocator.

pub mod config;
pub mod image;
pub mod karlloc;
pub mod mcule;
pub mod redoxri;
pub mod rust_mcule;
pub mod text;

pub use config::BuildConfig;
pub use image::{decimal, Image, Pixel, ThreadPool};
pub use karlloc::{power_of_two, Karlloc};
pub use mcule::{
    status_code, CommandOutcome, Mcule, MUTED_NOT_STARTED, MUTED_NO_CODE, NOT_STARTED, NO_CODE,
};
pub use redoxri::{forced_rebuild_exit, rebuild_exit, self_compile_action, Redoxri, ScriptAction};
pub use rust_mcule::{CMcule, RustCrateType, RustMcule};
pub use text::same_text;
