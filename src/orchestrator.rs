//! The execution pool that the HTTP layer calls: whether the selected
//! strategy started, and the permits that bound concurrent executions.

use crate::config::{Config, PhpConfig, PhpMode};
use crate::executor::ExecError;
use crate::pool::{gate_step, ExecutionGate, GateOp};
use crate::text::{chars_of, index_in, str_equals, string_of_range};
use vstd::prelude::*;

verus! {

/// Whether the interpreter binary can be used: it exists, or it is the bare
/// name `php`, left to the search path.
pub open spec fn binary_usable(path: Seq<char>, present: bool) -> bool {
    present || path == "php"@
}

/// The state of the execution pool.
pub struct PoolState {
    mode: PhpMode,
    enabled: bool,
    available: bool,
    running: bool,
    version: Option<String>,
    gate: ExecutionGate,
}

impl PoolState {
    /// The selected strategy.
    pub closed spec fn mode_spec(&self) -> PhpMode {
        self.mode
    }

    pub closed spec fn available_spec(&self) -> bool {
        self.available
    }

    pub closed spec fn running_spec(&self) -> bool {
        self.running
    }

    pub closed spec fn enabled_spec(&self) -> bool {
        self.enabled
    }

    pub closed spec fn gate_spec(&self) -> ExecutionGate {
        self.gate
    }

    pub closed spec fn version_spec(&self) -> Option<Seq<char>> {
        match self.version {
            Some(v) => Some(v@),
            None => None,
        }
    }

    pub open spec fn wf(&self) -> bool {
        self.gate_spec().wf()
    }

    /// A pool that has not started, with one permit per configured worker.
    pub fn new(config: &PhpConfig) -> (r: PoolState)
        ensures
            r.wf(),
            r.mode_spec() == config.mode,
            r.enabled_spec() == config.enable,
            !r.available_spec(),
            !r.running_spec(),
            r.version_spec() is None,
            r.gate_spec().capacity_spec() == config.workers,
            r.gate_spec().in_flight_spec() == 0,
    {
        let mode = match config.mode {
            PhpMode::Cgi => PhpMode::Cgi,
            PhpMode::Socket => PhpMode::Socket,
            PhpMode::Embed => PhpMode::Embed,
        };
        PoolState {
            mode,
            enabled: config.enable,
            available: false,
            running: false,
            version: None,
            gate: ExecutionGate::new(config.workers),
        }
    }

    /// Records how the start went: the pool is available when scripts are
    /// enabled, the binary can be used and it reported its version.
    pub fn start(&mut self, binary_path: &str, binary_exists: bool, version: Option<String>)
        requires
            old(self).wf(),
        ensures
            final(self).wf(),
            final(self).available_spec() == (old(self).enabled_spec() && binary_usable(
                binary_path@,
                binary_exists,
            ) && version is Some),
            final(self).running_spec() == final(self).available_spec(),
            final(self).available_spec() ==> final(self).version_spec() == match version {
                Some(v) => Some(v@),
                None => None,
            },
            final(self).gate_spec() == old(self).gate_spec(),
            final(self).enabled_spec() == old(self).enabled_spec(),
            final(self).mode_spec() == old(self).mode_spec(),
    {
        self.available = false;
        self.running = false;
        if !self.enabled {
            return ;
        }
        let named_php = str_equals(binary_path, "php");
        if !binary_exists && !named_php {
            return ;
        }
        assert(binary_usable(binary_path@, binary_exists));
        match version {
            Some(v) => {
                self.version = Some(v);
                self.available = true;
                self.running = true;
            },
            None => {},
        }
    }

    /// The selected strategy.
    pub fn mode(&self) -> (r: &PhpMode)
        ensures
            *r == self.mode_spec(),
    {
        &self.mode
    }

    /// Whether scripts can be executed.
    pub fn is_available(&self) -> (r: bool)
        ensures
            r == self.available_spec(),
    {
        self.available
    }

    /// Starts one execution: refused while the pool is unavailable or all
    /// permits are taken.
    pub fn begin(&mut self) -> (r: Result<(), ExecError>)
        requires
            old(self).wf(),
        ensures
            final(self).wf(),
            !old(self).available_spec() ==> (r matches Err(ExecError::Unavailable(_))) && final(
                self).gate_spec() == old(self).gate_spec(),
            old(self).available_spec() ==> (r is Ok <==> old(self).gate_spec().in_flight_spec()
                < old(self).gate_spec().capacity_spec()) && final(self).gate_spec().in_flight_spec()
                == gate_step(
                old(self).gate_spec().capacity_spec(),
                old(self).gate_spec().in_flight_spec(),
                GateOp::Acquire,
            ),
            final(self).gate_spec().capacity_spec() == old(self).gate_spec().capacity_spec(),
            final(self).available_spec() == old(self).available_spec(),
            final(self).running_spec() == old(self).running_spec(),
            final(self).enabled_spec() == old(self).enabled_spec(),
            final(self).mode_spec() == old(self).mode_spec(),
    {
        if !self.available {
            return Err(ExecError::Unavailable(String::from_str("PHP support is not available")));
        }
        if self.gate.try_acquire() {
            Ok(())
        } else {
            Err(ExecError::PoolExhausted)
        }
    }

    /// Ends one execution.
    pub fn end(&mut self)
        requires
            old(self).wf(),
        ensures
            final(self).wf(),
            final(self).gate_spec().in_flight_spec() == gate_step(
                old(self).gate_spec().capacity_spec(),
                old(self).gate_spec().in_flight_spec(),
                GateOp::Release,
            ),
            final(self).gate_spec().capacity_spec() == old(self).gate_spec().capacity_spec(),
            final(self).available_spec() == old(self).available_spec(),
            final(self).running_spec() == old(self).running_spec(),
            final(self).enabled_spec() == old(self).enabled_spec(),
            final(self).mode_spec() == old(self).mode_spec(),
    {
        self.gate.release();
    }

    /// Executions in flight.
    pub fn active_workers(&self) -> (r: usize)
        ensures
            r == self.gate_spec().in_flight_spec(),
    {
        self.gate.in_flight()
    }

    /// The interpreter's version, once started.
    pub fn version(&self) -> (r: Option<&String>)
        ensures
            match r {
                Some(v) => self.version_spec() == Some(v@),
                None => self.version_spec() is None,
            },
    {
        match &self.version {
            Some(v) => Some(v),
            None => None,
        }
    }
}

/// The version of the interpreter: the first line of what `php -v` wrote,
/// or `Unknown` where it wrote nothing.
pub fn version_line(output: &str) -> (r: String)
    ensures
        output@.len() == 0 ==> r@ == "Unknown"@,
        output@.len() > 0 ==> r@ == crate::cgi::first_line(output@),
{
    let v = chars_of(output);
    if v.len() == 0 {
        return String::from_str("Unknown");
    }
    let k = index_in(&v, 0, v.len(), '\n');
    let mut le = k;
    if k < v.len() && k > 0 && v[k - 1] == '\r' {
        le = k - 1;
    }
    proof {
        assert(v@.subrange(0, v@.len() as int) =~= output@);
        if k < v@.len() {
            assert(crate::sapi::strip_cr(output@.subrange(0, k as int)) =~= v@.subrange(0, le as int));
        } else {
            assert(output@ =~= v@.subrange(0, le as int));
        }
    }
    string_of_range(&v, 0, le)
}

/// TLS can be enabled: an HTTPS address is configured, and either the
/// global certificate and key are present or some virtual host names both
/// and has them present.
pub open spec fn tls_possible(c: Config, global_present: bool, vhost_present: Seq<bool>) -> bool {
    c.server.listen_ssl is Some && ((c.ssl is Some && global_present) || exists|i: int|
        0 <= i < c.virtualhost@.len() && c.virtualhost@[i].ssl_certificate is Some
            && c.virtualhost@[i].ssl_certificate_key is Some && #[trigger] vhost_present[i])
}

/// Whether TLS can be enabled. `global_present` tells whether the global
/// certificate and key files exist; `vhost_present[i]` whether those that
/// virtual host `i` names exist.
pub fn can_enable_tls(config: &Config, global_present: bool, vhost_present: &Vec<bool>) -> (r: bool)
    requires
        vhost_present@.len() == config.virtualhost@.len(),
    ensures
        r == tls_possible(*config, global_present, vhost_present@),
{
    if config.server.listen_ssl.is_none() {
        return false;
    }
    if config.ssl.is_some() && global_present {
        return true;
    }
    let mut i: usize = 0;
    while i < config.virtualhost.len()
        invariant
            i <= config.virtualhost@.len(),
            vhost_present@.len() == config.virtualhost@.len(),
            config.server.listen_ssl is Some,
            !(config.ssl is Some && global_present),
            forall|j: int|
                0 <= j < i ==> !(config.virtualhost@[j].ssl_certificate is Some
                    && config.virtualhost@[j].ssl_certificate_key is Some && #[trigger] vhost_present@[j]),
        decreases config.virtualhost@.len() - i,
    {
        let v = &config.virtualhost[i];
        if v.ssl_certificate.is_some() && v.ssl_certificate_key.is_some() && vhost_present[i] {
            assert(0 <= i < config.virtualhost@.len() && config.virtualhost@[i as int].ssl_certificate is Some
                && config.virtualhost@[i as int].ssl_certificate_key is Some && vhost_present@[i as int]);
            return true;
        }
        i = i + 1;
    }
    false
}

} // verus!
