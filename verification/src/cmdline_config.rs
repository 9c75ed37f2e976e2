//! Command-line surface: the raw option values as parsed from the command
//! line, and their translation into the immutable server configuration.

use crate::config::Config;
use vstd::prelude::*;

verus! {

/// The raw command-line options. Parsing the actual argument strings is left
/// to the surrounding process; this type carries the parsed values.
pub struct Cli {
    /// GNSS device node.
    pub device: String,
    /// GNSS device baud rate.
    pub baudrate: u32,
    /// TCP service IP or net iface; absent means binding all interfaces.
    pub interface: Option<String>,
    /// TCP service port.
    pub port: u16,
    /// Disable the TCP service.
    pub no_tcp: bool,
    /// Unix socket service path; absent means disabled.
    pub socket_path: Option<String>,
    /// Daemonize the process.
    pub daemonize: bool,
}

/// Builds the immutable server configuration from the command-line options,
/// field for field.
pub fn config_from_cmdline(cli: Cli) -> (config: Config)
    ensures
        config.dev_path == cli.device,
        config.port == cli.port,
        config.net_iface == cli.interface,
        config.no_tcp == cli.no_tcp,
        config.socket_path == cli.socket_path,
        config.baudrate == cli.baudrate,
        config.daemonize == cli.daemonize,
{
    Config {
        dev_path: cli.device,
        port: cli.port,
        net_iface: cli.interface,
        no_tcp: cli.no_tcp,
        socket_path: cli.socket_path,
        baudrate: cli.baudrate,
        daemonize: cli.daemonize,
    }
}

} // verus!
