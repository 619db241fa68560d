//! The optional file destination of the log.

use vstd::prelude::*;

verus! {

/// Where the log goes besides the console.
#[derive(Debug)]
pub struct FileLogConfig {
    pub enabled: bool,
    pub path: String,
    pub also_console: bool,
}

/// The default of `enabled`.
pub fn default_enabled() -> (r: bool)
    ensures
        r == false,
{
    false
}

/// The default of `path`.
pub fn default_path() -> (r: String)
    ensures
        r@ == "resocks5.log"@,
{
    "resocks5.log".to_owned()
}

/// The default of `also_console`.
pub fn default_also_console() -> (r: bool)
    ensures
        r == true,
{
    true
}

impl Default for FileLogConfig {
    fn default() -> (r: Self)
        ensures
            r.enabled == false,
            r.path@ == "resocks5.log"@,
            r.also_console == true,
    {
        FileLogConfig {
            enabled: default_enabled(),
            path: default_path(),
            also_console: default_also_console(),
        }
    }
}

impl Clone for FileLogConfig {
    fn clone(&self) -> (r: Self)
        ensures
            r.enabled == self.enabled,
            r.path@ == self.path@,
            r.also_console == self.also_console,
    {
        FileLogConfig {
            enabled: self.enabled,
            path: self.path.clone(),
            also_console: self.also_console,
        }
    }
}

} // verus!
