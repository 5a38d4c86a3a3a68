//! Script systems for an entity-component simulation.
//!
//! A script system is a function inside the scripting VM that runs once per
//! tick. It declares by name which shared resources it reads and writes. The
//! names are resolved to resource identities when the system is registered;
//! before each run the identities are checked against the resource store,
//! against the borrows that are outstanding and against the reflection table,
//! which says what scripts may see. There is one VM, and it passes through a
//! channel from the scheduler to each system in turn and back.

pub mod borrow;
pub mod colors;
pub mod delta_time;
pub mod dependencies;
pub mod input;
pub mod modding;
pub mod reflection;
pub mod resource_id;
pub mod resource_table;
pub mod scheduler;
pub mod script_system;
pub mod system_data;
pub mod vm;
pub mod world;
