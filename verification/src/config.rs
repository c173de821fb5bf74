//! Configuration items the core consumes: the resolved per-project settings
//! and the typed-value tags of the configuration store.  Reading, writing and
//! discovering the configuration file are a caller's concern; the core only
//! takes the already-resolved values.

use vstd::prelude::*;

verus! {

/// The per-project settings the driver needs: the fallback output extension
/// used when a template declares none.
#[derive(Debug, PartialEq, Clone)]
pub struct GedentConfig {
    pub default_extension: String,
}

/// The type a textual configuration value should be parsed as.
#[derive(Debug, PartialEq, Eq, Clone, Copy)]
pub enum ArgType {
    String,
    Float,
    Bool,
    Int,
}

impl Default for ArgType {
    /// The default value type is a plain string.
    fn default() -> (r: ArgType)
        ensures
            r == ArgType::String,
    {
        ArgType::String
    }
}

/// The directory the configuration file lives in: the gedent home itself,
/// once a caller has resolved it.
pub fn get_config_dir(gedent_home: &str) -> (r: String)
    ensures
        r@ == gedent_home@,
{
    gedent_home.to_owned()
}

} // verus!
