use vstd::prelude::*;
use vstd::string::*;

verus! {

/// Where unpacked files go, and how they are named.
pub struct OutputConfig {
    pub upload_dir: String,
    pub filename_pattern: String,
}

/// The service's settings.
pub struct Config {
    pub port: u16,
    pub interface: String,
    pub output: OutputConfig,
}

/// The port used where the configuration names none.
pub fn default_port() -> (r: u16)
    ensures
        r == 5551,
{
    5551
}

/// The interface listened on where the configuration names none.
pub fn default_interface() -> (r: String)
    ensures
        r@ == "127.0.0.1"@,
{
    String::from_str("127.0.0.1")
}

} // verus!
