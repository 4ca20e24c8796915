//! Machine registers the kernel drives.

pub mod acpi;

pub use acpi::{Pm1Cnt, SleepType};
