//! What runs when the module is initialised. It is initialised once on the main
//! thread and once in every worker, so the first question is where it is.

use vstd::prelude::*;

use crate::text::same_text;

verus! {

/// What the entry point does.
#[derive(Clone, Copy, Debug, PartialEq, Eq, Structural)]
pub enum Boot {
    /// In a worker: nothing, the worker is started with its role later.
    Wait,
    /// On the main thread: build the page and start the workers.
    StartMain,
    /// On a main thread without shared memory: refuse, with [`isolation_error`].
    Refuse,
}

/// Decide what the entry point does. The app is threads-only: it needs both a
/// cross-origin isolated page and `SharedArrayBuffer`.
pub fn boot(worker: bool, isolated: bool, shared_buffers: bool) -> (action: Boot)
    ensures
        action == (if worker {
            Boot::Wait
        } else if isolated && shared_buffers {
            Boot::StartMain
        } else {
            Boot::Refuse
        }),
{
    if worker {
        Boot::Wait
    } else if !isolated || !shared_buffers {
        Boot::Refuse
    } else {
        Boot::StartMain
    }
}

/// Why a page without shared memory is refused.
pub fn isolation_error() -> (message: &'static str)
    ensures
        message@
            == "Cross-origin isolation is OFF — multithreading is unavailable, so this build cannot run. It needs COOP: same-origin + COEP: require-corp (sent by `task dev`, or re-imposed by coi-serviceworker.js on static hosts like GitHub Pages)."@,
{
    "Cross-origin isolation is OFF — multithreading is unavailable, so this build cannot run. It needs COOP: same-origin + COEP: require-corp (sent by `task dev`, or re-imposed by coi-serviceworker.js on static hosts like GitHub Pages)."
}

/// What a worker is for.
#[derive(Clone, Copy, Debug, PartialEq, Eq, Structural)]
pub enum Role {
    Render,
    Unknown,
}

/// The role that a worker is started with.
pub fn worker_role(role: &str) -> (r: Role)
    ensures
        r == (if role@ == "render"@ {
            Role::Render
        } else {
            Role::Unknown
        }),
{
    if same_text(role, "render") {
        Role::Render
    } else {
        Role::Unknown
    }
}

/// The page starts exactly on a main thread that has both an isolated page and shared
/// buffers; a worker always waits, and nothing else is refused.
pub proof fn law_page_starts_with_shared_memory_alone(
    worker: bool,
    isolated: bool,
    shared_buffers: bool,
    action: Boot,
)
    requires
        call_ensures(boot, (worker, isolated, shared_buffers), action),
    ensures
        action is Wait <==> worker,
        action is StartMain <==> !worker && isolated && shared_buffers,
        action is Refuse <==> !worker && !(isolated && shared_buffers),
{
}

/// `render` is the one role there is.
pub proof fn law_render_is_the_only_role(role: &str, r: Role)
    requires
        call_ensures(worker_role, (role,), r),
    ensures
        r is Render <==> role@ == seq!['r', 'e', 'n', 'd', 'e', 'r'],
{
    reveal_strlit("render");
    assert("render"@ =~= seq!['r', 'e', 'n', 'd', 'e', 'r']);
}

} // verus!
