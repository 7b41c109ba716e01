use vstd::prelude::*;
use vstd::string::StringExecFns;

use crate::split::{decimal, decimal_string};

verus! {

/// How to run an nginx service.
#[derive(Debug, Clone)]
pub struct NginxConfig {
    pub id: String,
    pub address: String,
    pub port: u16,
}

/// A development service that runs nginx.
#[derive(Debug)]
pub struct NginxService {
    pub config: NginxConfig,
}

#[derive(Debug, Clone)]
pub enum ServiceError {
    /// The nginx binary is not where the service looks for it.
    BinaryNotFound { path: String },
}

/// The arguments that start a service at `address` and `port`.
pub open spec fn service_args(address: Seq<char>, port: nat) -> Seq<Seq<char>> {
    seq!["--bind"@, address, "--port"@, decimal(port), "--shutdown-on-sigint"@, "nosave"@]
}

impl NginxService {
    pub fn new(config: NginxConfig) -> (r: Result<Self, ServiceError>)
        ensures
            r matches Ok(s) && s.config == config,
    {
        Ok(NginxService { config })
    }

    /// The service's id.
    pub fn id(&self) -> (r: String)
        ensures
            r@ == self.config.id@,
    {
        self.config.id.clone()
    }

    /// The command-line arguments of the service's process.
    pub fn command_args(&self) -> (r: Vec<String>)
        ensures
            r@.map_values(|s: String| s@) == service_args(self.config.address@, self.config.port as nat),
    {
        let mut args: Vec<String> = Vec::new();
        args.push(String::from_str("--bind"));
        args.push(self.config.address.clone());
        args.push(String::from_str("--port"));
        args.push(decimal_string(self.config.port as u32));
        args.push(String::from_str("--shutdown-on-sigint"));
        args.push(String::from_str("nosave"));
        assert(args@.map_values(|s: String| s@) =~= service_args(self.config.address@, self.config.port as nat));
        args
    }
}

} // verus!
