//! Choice of the sandbox back end.
use vstd::prelude::*;
use crate::text::owned;
use super::cubesandbox::config::CubeSandboxConfig;

verus! {

/// The available sandbox back ends.
#[derive(PartialEq, Eq, Structural, Clone, Copy, Debug)]
pub enum SandboxBackend {
    Microsandbox,
    CubeSandbox,
    Process,
}

/// The back end named by the `SANDBOX_BACKEND` setting: `process`, `microsandbox` or
/// `cubesandbox`; otherwise microsandbox on macOS and Linux hosts and the process back end
/// elsewhere.
pub open spec fn backend_for_setting(setting: Option<Seq<char>>, unix_host: bool) -> SandboxBackend {
    if setting == Some("process"@) {
        SandboxBackend::Process
    } else if setting == Some("microsandbox"@) {
        SandboxBackend::Microsandbox
    } else if setting == Some("cubesandbox"@) {
        SandboxBackend::CubeSandbox
    } else if unix_host {
        SandboxBackend::Microsandbox
    } else {
        SandboxBackend::Process
    }
}

impl SandboxBackend {
    /// The back end for the value of the `SANDBOX_BACKEND` setting, if any; `unix_host` says
    /// whether the host is macOS or Linux.
    pub fn from_setting(setting: Option<&str>, unix_host: bool) -> (b: SandboxBackend)
        ensures
            b == backend_for_setting(
                match setting {
                    Some(s) => Some(s@),
                    None => None,
                },
                unix_host,
            ),
    {
        match setting {
            Some(s) => {
                if crate::text::str_eq(s, "process") {
                    SandboxBackend::Process
                } else if crate::text::str_eq(s, "microsandbox") {
                    SandboxBackend::Microsandbox
                } else if crate::text::str_eq(s, "cubesandbox") {
                    SandboxBackend::CubeSandbox
                } else if unix_host {
                    SandboxBackend::Microsandbox
                } else {
                    SandboxBackend::Process
                }
            },
            None => {
                if unix_host {
                    SandboxBackend::Microsandbox
                } else {
                    SandboxBackend::Process
                }
            },
        }
    }
}

/// Settings of the microsandbox back end.
#[derive(Clone)]
pub struct MicrosandboxConfig {
    /// OCI image reference.
    pub image: String,
    /// Number of CPUs.
    pub cpus: u8,
    /// Memory in MiB.
    pub memory_mib: u32,
}

impl Default for MicrosandboxConfig {
    fn default() -> (c: MicrosandboxConfig)
        ensures
            c.image@ == "debian"@,
            c.cpus == 1,
            c.memory_mib == 512,
    {
        MicrosandboxConfig { image: owned("debian"), cpus: 1, memory_mib: 512 }
    }
}

/// How the availability of a back end is found out.
#[derive(PartialEq, Eq, Structural, Clone, Copy, Debug)]
pub enum BackendProbe {
    /// Available without a probe.
    Available,
    /// Unavailable without a probe.
    Unavailable,
    /// Available on Linux when the KVM device exists.
    KvmDevice,
    /// Available when the CubeSandbox API answers its health check.
    CubeHealth,
}

/// The first back end whose probe succeeded, the process back end when none did.
pub open spec fn first_available(backends: Seq<SandboxBackend>, ok: Seq<bool>) -> SandboxBackend
    decreases backends.len(),
{
    if backends.len() == 0 || ok.len() == 0 {
        SandboxBackend::Process
    } else if ok[0] {
        backends[0]
    } else {
        first_available(backends.drop_first(), ok.drop_first())
    }
}

/// The first back end whose probe succeeded, the process back end when none did.
fn first_available_exec(backends: &Vec<SandboxBackend>, ok: &Vec<bool>) -> (b: SandboxBackend)
    ensures
        b == first_available(backends@, ok@),
{
    let mut i: usize = 0;
    assert(backends@.subrange(0, backends@.len() as int) =~= backends@);
    assert(ok@.subrange(0, ok@.len() as int) =~= ok@);
    while i < backends.len() && i < ok.len()
        invariant
            i <= backends.len(),
            i <= ok.len(),
            first_available(backends@, ok@) == first_available(
                backends@.subrange(i as int, backends@.len() as int),
                ok@.subrange(i as int, ok@.len() as int),
            ),
        decreases backends.len() - i,
    {
        let ghost b = backends@.subrange(i as int, backends@.len() as int);
        let ghost o = ok@.subrange(i as int, ok@.len() as int);
        assert(b[0] == backends@[i as int] && o[0] == ok@[i as int]);
        if ok[i] {
            return backends[i];
        }
        assert(b.drop_first() =~= backends@.subrange(i + 1, backends@.len() as int));
        assert(o.drop_first() =~= ok@.subrange(i + 1, ok@.len() as int));
        i = i + 1;
    }
    SandboxBackend::Process
}

/// Builds sandboxes of the back end chosen among the configured ones.
pub struct SandboxFactory {
    backends: Vec<SandboxBackend>,
    selected: Option<SandboxBackend>,
    micro_config: MicrosandboxConfig,
    cube_config: CubeSandboxConfig,
}

impl SandboxFactory {
    /// The configured back ends, in order of preference.
    pub closed spec fn backends(&self) -> Seq<SandboxBackend> {
        self.backends@
    }

    /// The back end chosen by the last selection, if any.
    pub closed spec fn selected(&self) -> Option<SandboxBackend> {
        self.selected
    }

    /// The microsandbox settings.
    pub closed spec fn micro(&self) -> MicrosandboxConfig {
        self.micro_config
    }

    /// The CubeSandbox settings.
    pub closed spec fn cube(&self) -> CubeSandboxConfig {
        self.cube_config
    }

    /// A factory over `backends` with the given settings; nothing selected yet.
    pub fn from_config(
        backends: Vec<SandboxBackend>,
        micro_config: MicrosandboxConfig,
        cube_config: CubeSandboxConfig,
    ) -> (f: SandboxFactory)
        ensures
            f.backends() == backends@,
            f.selected() is None,
            f.micro() == micro_config,
            f.cube() == cube_config,
    {
        SandboxFactory { backends, selected: None, micro_config, cube_config }
    }

    /// A factory over the one back end `configured` (the `SANDBOX_BACKEND` choice) with
    /// default settings.
    pub fn new(configured: SandboxBackend) -> (f: SandboxFactory)
        ensures
            f.backends() == seq![configured],
            f.selected() is None,
            f.micro().image@ == "debian"@,
            f.micro().cpus == 1,
            f.micro().memory_mib == 512,
            f.cube().api_url@.len() == 0,
            f.cube().template_id@.len() == 0,
            f.cube().api_key@ == "dummy"@,
            f.cube().timeout_secs == 1800,
    {
        let backends = vec![configured];
        assert(backends@ =~= seq![configured]);
        SandboxFactory {
            backends,
            selected: None,
            micro_config: MicrosandboxConfig::default(),
            cube_config: CubeSandboxConfig::default(),
        }
    }

    /// The same factory with `backend` as its only back end and the selection cleared.
    pub fn with_backend(self, backend: SandboxBackend) -> (f: SandboxFactory)
        ensures
            f.backends() == seq![backend],
            f.selected() is None,
            f.micro() == self.micro(),
            f.cube() == self.cube(),
    {
        let backends = vec![backend];
        assert(backends@ =~= seq![backend]);
        SandboxFactory { backends, selected: None, micro_config: self.micro_config, cube_config: self.cube_config }
    }

    /// The same factory with other microsandbox settings.
    pub fn with_micro_config(self, config: MicrosandboxConfig) -> (f: SandboxFactory)
        ensures
            f.backends() == self.backends(),
            f.selected() == self.selected(),
            f.micro() == config,
            f.cube() == self.cube(),
    {
        SandboxFactory { backends: self.backends, selected: self.selected, micro_config: config, cube_config: self.cube_config }
    }

    /// The configured back ends, in order of preference.
    pub fn candidates(&self) -> (v: &Vec<SandboxBackend>)
        ensures
            v@ == self.backends(),
    {
        &self.backends
    }

    /// How to find out whether `backend` is available: CubeSandbox needs a complete
    /// configuration before its health check.
    pub fn probe(&self, backend: SandboxBackend) -> (p: BackendProbe)
        ensures
            p == (match backend {
                SandboxBackend::Microsandbox => BackendProbe::KvmDevice,
                SandboxBackend::CubeSandbox => if self.cube().complete() {
                    BackendProbe::CubeHealth
                } else {
                    BackendProbe::Unavailable
                },
                SandboxBackend::Process => BackendProbe::Available,
            }),
    {
        match backend {
            SandboxBackend::Microsandbox => BackendProbe::KvmDevice,
            SandboxBackend::CubeSandbox => {
                if self.cube_config.is_complete() {
                    BackendProbe::CubeHealth
                } else {
                    BackendProbe::Unavailable
                }
            },
            SandboxBackend::Process => BackendProbe::Available,
        }
    }

    /// Records the selection from the probe outcomes `ok`, one per configured back end in
    /// order: the first available one, or the process back end.
    pub fn select(&mut self, ok: &Vec<bool>) -> (b: SandboxBackend)
        ensures
            b == first_available(old(self).backends(), ok@),
            final(self).selected() == Some(b),
            final(self).backends() == old(self).backends(),
            final(self).micro() == old(self).micro(),
            final(self).cube() == old(self).cube(),
    {
        let chosen = first_available_exec(&self.backends, ok);
        self.selected = Some(chosen);
        chosen
    }

    /// Clears the selection before back ends are probed again.
    pub fn reset_selection(&mut self)
        ensures
            final(self).selected() is None,
            final(self).backends() == old(self).backends(),
            final(self).micro() == old(self).micro(),
            final(self).cube() == old(self).cube(),
    {
        self.selected = None;
    }

    /// The back end to build: the selected one (the process back end when nothing was
    /// selected), with microsandbox falling back to the process back end on hosts that
    /// cannot run it.
    pub fn create(&self, microsandbox_supported: bool) -> (b: SandboxBackend)
        ensures
            b == (match self.selected() {
                Some(SandboxBackend::Microsandbox) => if microsandbox_supported {
                    SandboxBackend::Microsandbox
                } else {
                    SandboxBackend::Process
                },
                Some(x) => x,
                None => SandboxBackend::Process,
            }),
    {
        let backend = match self.selected {
            Some(b) => b,
            None => SandboxBackend::Process,
        };
        match backend {
            SandboxBackend::Microsandbox => {
                if microsandbox_supported {
                    SandboxBackend::Microsandbox
                } else {
                    SandboxBackend::Process
                }
            },
            other => other,
        }
    }

    /// The microsandbox settings.
    pub fn micro_config(&self) -> (c: &MicrosandboxConfig)
        ensures
            *c == self.micro(),
    {
        &self.micro_config
    }

    /// The CubeSandbox settings.
    pub fn cube_config(&self) -> (c: &CubeSandboxConfig)
        ensures
            *c == self.cube(),
    {
        &self.cube_config
    }
}

} // verus!
