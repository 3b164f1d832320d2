use vstd::prelude::*;

verus! {

/// The local port the intercepting proxy binds to by default.
pub const DEFAULT_PROXY_PORT: u16 = 8080;

/// Description of the one child-process invocation the supervisor ever
/// asks for: the proxy executable listening on loopback at `port`,
/// running `script_path` as its traffic-handling script, keeping the
/// original Host header on forwarded requests. The surrounding
/// application renders this into the actual command line and spawns it.
pub struct SpawnCommand {
    pub port: u16,
    pub script_path: String,
}

/// Supervises at most one live child proxy process. `running` mirrors
/// whether a process handle is currently held; it does not probe the
/// OS-level liveness of the child.
pub struct ProxyManager {
    pub running: bool,
    pub port: u16,
}

/// Counts the processes an action spawns.
pub open spec fn spawn_count(spawned: bool) -> nat {
    if spawned {
        1nat
    } else {
        0nat
    }
}

impl ProxyManager {
    /// Whether a start call in this state asks for a spawn.
    pub open spec fn spec_start_spawns(self) -> bool {
        !self.running
    }

    /// The state after a successful spawn has been reported.
    pub open spec fn spec_after_started(self) -> ProxyManager {
        ProxyManager { running: true, port: self.port }
    }

    /// A stopped supervisor bound to the default port.
    pub fn new() -> (m: ProxyManager)
        ensures
            !m.running,
            m.port == DEFAULT_PROXY_PORT,
    {
        ProxyManager { running: false, port: DEFAULT_PROXY_PORT }
    }

    /// Decides whether starting the proxy needs a spawn: when already
    /// running this is a successful no-op asking for nothing, otherwise it
    /// yields the one command to spawn. The state moves to running only
    /// once `confirm_started` reports a successful spawn, so a failed
    /// spawn leaves the supervisor stopped.
    pub fn start_mitmproxy(&self, script_path: &str) -> (r: Option<SpawnCommand>)
        ensures
            (r is Some) == self.spec_start_spawns(),
            match r {
                Some(cmd) => cmd.port == self.port && cmd.script_path@ == script_path@,
                None => true,
            },
    {
        if self.running {
            None
        } else {
            Some(SpawnCommand { port: self.port, script_path: script_path.to_owned() })
        }
    }

    /// Records that the spawn asked for by `start_mitmproxy` succeeded.
    pub fn confirm_started(&mut self)
        requires
            !old(self).running,
        ensures
            *final(self) == old(self).spec_after_started(),
    {
        self.running = true;
    }

    /// Stops the proxy: reports whether a child must be terminated and
    /// waited for, and clears the handle unconditionally — even if the
    /// caller's termination then fails, the supervisor is stopped, never
    /// stuck. When not running this is a successful no-op that changes
    /// nothing and asks for nothing.
    pub fn stop_mitmproxy(&mut self) -> (r: bool)
        ensures
            r == old(self).running,
            !final(self).running,
            final(self).port == old(self).port,
    {
        let was_running = self.running;
        self.running = false;
        was_running
    }

    /// Whether a process handle is currently held.
    pub fn is_running(&self) -> (r: bool)
        ensures
            r == self.running,
    {
        self.running
    }
}

/// Law: starting twice in a row without an intervening stop spawns
/// exactly one process — the first call spawns, and once that spawn is
/// confirmed the second call asks for nothing and is no error.
pub proof fn lemma_start_twice_spawns_once(m0: ProxyManager)
    requires
        !m0.running,
    ensures
        ({
            let m1 = m0.spec_after_started();
            spawn_count(m0.spec_start_spawns()) + spawn_count(m1.spec_start_spawns()) == 1
        }),
{
}

} // verus!
