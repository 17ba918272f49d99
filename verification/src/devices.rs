//! Choosing and recovering DirectX devices.

use crate::chars::{ascii_lowered, same_ignoring_ascii_case, trim, trimmed, white_space};
use vstd::prelude::*;

verus! {

// ---------------------------------------------------------------------------
// The debug layer

/// What a value of the debug variable asks for: `auto` (the default) follows the
/// build, `on` and `off` override it, in any case and with white space around.
/// `None` for any other value.
pub open spec fn debug_layer_request(mode: Seq<char>, debug_build: bool) -> Option<bool> {
    let word = ascii_lowered(trimmed(mode));
    if word.len() == 0 || word == "auto"@ {
        Some(debug_build)
    } else if word == "on"@ {
        Some(true)
    } else if word == "off"@ {
        Some(false)
    } else {
        None
    }
}

/// Parses a value of the debug variable, returning `None` if it isn't recognized.
pub fn debug_layer_requested(mode: &str, debug_build: bool) -> (requested: Option<bool>)
    ensures
        requested == debug_layer_request(mode@, debug_build),
{
    proof {
        reveal_strlit("auto");
        reveal_strlit("on");
        reveal_strlit("off");
        assert(ascii_lowered("auto"@) =~= "auto"@);
        assert(ascii_lowered("on"@) =~= "on"@);
        assert(ascii_lowered("off"@) =~= "off"@);
    }
    let mode = trim(mode);
    let word = mode.as_str();
    if word.is_empty() || same_ignoring_ascii_case(word, "auto") {
        Some(debug_build)
    } else if same_ignoring_ascii_case(word, "on") {
        Some(true)
    } else if same_ignoring_ascii_case(word, "off") {
        Some(false)
    } else {
        None
    }
}

/// Whether the debug layer should be looked for: what the variable asks for, or
/// what the build says where its value is not recognized.
pub fn debug_layer_wanted(mode: &str, debug_build: bool) -> (wanted: bool)
    ensures
        wanted == match debug_layer_request(mode@, debug_build) {
            Some(requested) => requested,
            None => debug_build,
        },
{
    match debug_layer_requested(mode, debug_build) {
        Some(requested) => requested,
        None => debug_build,
    }
}

/// Creates a DXGI factory that reports to the debug layer.
pub const DXGI_CREATE_FACTORY_DEBUG: u32 = 0x1;

/// Creates a device that supports BGRA surfaces.
pub const D3D11_CREATE_DEVICE_BGRA_SUPPORT: u32 = 0x20;

/// Creates a device that reports to the debug layer.
pub const D3D11_CREATE_DEVICE_DEBUG: u32 = 0x2;

/// The flags to create a DXGI factory with.
pub fn dxgi_factory_flags(debug_layer_available: bool) -> (flags: u32)
    ensures
        flags == if debug_layer_available {
            DXGI_CREATE_FACTORY_DEBUG
        } else {
            0
        },
{
    if debug_layer_available {
        DXGI_CREATE_FACTORY_DEBUG
    } else {
        0
    }
}

/// The flags to create a Direct3D device with.
pub fn device_flags(debug_layer_available: bool) -> (flags: u32)
    ensures
        flags == if debug_layer_available {
            D3D11_CREATE_DEVICE_BGRA_SUPPORT | D3D11_CREATE_DEVICE_DEBUG
        } else {
            D3D11_CREATE_DEVICE_BGRA_SUPPORT
        },
{
    if debug_layer_available {
        D3D11_CREATE_DEVICE_BGRA_SUPPORT | D3D11_CREATE_DEVICE_DEBUG
    } else {
        D3D11_CREATE_DEVICE_BGRA_SUPPORT
    }
}

// ---------------------------------------------------------------------------
// Finding an adapter

/// The error with which enumeration says that there are no more adapters.
pub const DXGI_ERROR_NOT_FOUND: i32 = -2005270526;

/// What came of looking at one adapter.
#[derive(Clone, Copy, Debug, PartialEq, Eq, Structural)]
pub enum AdapterProbe {
    /// The adapter could not be had, for the reason that this code gives.
    Enumeration(i32),
    /// It supports no device of the levels that are asked for.
    NoDevice,
    /// A device was created, with its immediate context or without.
    Device { has_context: bool },
}

/// Why there is no adapter to use.
#[derive(Clone, Copy, Debug, PartialEq, Eq, Structural)]
pub enum AdapterError {
    /// No compatible Direct3D 11 adapter found.
    NoCompatibleAdapter,
    /// Enumeration failed with this code.
    Enumeration(i32),
    /// D3D11CreateDevice returned no device context.
    NoDeviceContext,
}

/// How the search for an adapter goes on.
#[derive(Clone, Copy, Debug, PartialEq, Eq, Structural)]
pub enum AdapterStep {
    /// Look at the adapter of this index.
    Probe(u32),
    /// Use the adapter of this index.
    Use(u32),
    /// Give up.
    Fail(AdapterError),
}

/// How the search goes on after looking at the adapter of an index.
pub open spec fn next_adapter_step(index: u32, probe: AdapterProbe) -> AdapterStep {
    match probe {
        AdapterProbe::Enumeration(code) => if code == DXGI_ERROR_NOT_FOUND {
            AdapterStep::Fail(AdapterError::NoCompatibleAdapter)
        } else {
            AdapterStep::Fail(AdapterError::Enumeration(code))
        },
        AdapterProbe::NoDevice => AdapterStep::Probe((index + 1) as u32),
        AdapterProbe::Device { has_context } => if has_context {
            AdapterStep::Use(index)
        } else {
            AdapterStep::Fail(AdapterError::NoDeviceContext)
        },
    }
}

/// Decides how the search for an adapter goes on after looking at one.
pub fn adapter_step(index: u32, probe: AdapterProbe) -> (step: AdapterStep)
    requires
        index < u32::MAX,
    ensures
        step == next_adapter_step(index, probe),
{
    match probe {
        AdapterProbe::Enumeration(code) => {
            if code == DXGI_ERROR_NOT_FOUND {
                AdapterStep::Fail(AdapterError::NoCompatibleAdapter)
            } else {
                AdapterStep::Fail(AdapterError::Enumeration(code))
            }
        },
        AdapterProbe::NoDevice => AdapterStep::Probe(index + 1),
        AdapterProbe::Device { has_context } => {
            if has_context {
                AdapterStep::Use(index)
            } else {
                AdapterStep::Fail(AdapterError::NoDeviceContext)
            }
        },
    }
}

/// How the search stands after looking at adapters in order.
pub open spec fn adapter_search(probes: Seq<AdapterProbe>) -> AdapterStep
    decreases probes.len(),
{
    if probes.len() == 0 {
        AdapterStep::Probe(0)
    } else {
        match adapter_search(probes.drop_last()) {
            AdapterStep::Probe(index) => next_adapter_step(index, probes.last()),
            decided => decided,
        }
    }
}

/// The search takes the first adapter that gives a device: adapters before it that
/// give none are passed over, and none after it is looked at.
pub proof fn law_first_capable_adapter_is_used(probes: Seq<AdapterProbe>, at: int)
    requires
        0 <= at < probes.len() < u32::MAX,
        forall|i: int| 0 <= i < at ==> #[trigger] probes[i] == AdapterProbe::NoDevice,
        probes[at] == (AdapterProbe::Device { has_context: true }),
    ensures
        adapter_search(probes) == AdapterStep::Use(at as u32),
    decreases probes.len(),
{
    if at < probes.len() - 1 {
        law_first_capable_adapter_is_used(probes.drop_last(), at);
    } else {
        lemma_passed_over(probes.drop_last());
    }
}

proof fn lemma_passed_over(probes: Seq<AdapterProbe>)
    requires
        probes.len() < u32::MAX,
        forall|i: int| 0 <= i < probes.len() ==> #[trigger] probes[i] == AdapterProbe::NoDevice,
    ensures
        adapter_search(probes) == AdapterStep::Probe(probes.len() as u32),
    decreases probes.len(),
{
    if probes.len() > 0 {
        lemma_passed_over(probes.drop_last());
        assert(probes[probes.len() - 1] == AdapterProbe::NoDevice);
    }
}

// ---------------------------------------------------------------------------
// Recovering a lost device

/// How often recovery is attempted.
pub const RECOVERY_ATTEMPTS: u64 = 5;

/// How the recovery of a lost device goes on.
#[derive(Clone, Copy, Debug, PartialEq, Eq, Structural)]
pub enum RecoveryStep {
    /// Wait for so many milliseconds, then attempt it.
    Attempt { delay_ms: u64 },
    /// Take the outcome of the last attempt.
    Done,
}

/// How recovery goes on after some attempts, of which the last one came out as
/// given.
pub open spec fn next_recovery_step(attempts: nat, last_ok: bool) -> RecoveryStep {
    if attempts == 0 {
        RecoveryStep::Attempt { delay_ms: 0 }
    } else if last_ok || attempts >= RECOVERY_ATTEMPTS {
        RecoveryStep::Done
    } else {
        RecoveryStep::Attempt { delay_ms: (100 + attempts * 10) as u64 }
    }
}

/// Decides how recovery goes on: the first attempt comes at once, a later one
/// after a small delay that grows, until one succeeds or all are spent.
pub fn recovery_step(attempts: u64, last_ok: bool) -> (step: RecoveryStep)
    ensures
        step == next_recovery_step(attempts as nat, last_ok),
{
    if attempts == 0 {
        RecoveryStep::Attempt { delay_ms: 0 }
    } else if last_ok || attempts >= RECOVERY_ATTEMPTS {
        RecoveryStep::Done
    } else {
        RecoveryStep::Attempt { delay_ms: 100 + attempts * 10 }
    }
}

/// How many attempts recovery makes where the attempts would come out as given,
/// from the one after `made` on.
pub open spec fn attempts_made(outcomes: Seq<bool>, made: nat) -> nat
    decreases RECOVERY_ATTEMPTS - made,
{
    if made < RECOVERY_ATTEMPTS && next_recovery_step(
        made,
        made > 0 && outcomes[made - 1],
    ) is Attempt {
        attempts_made(outcomes, made + 1)
    } else {
        made
    }
}

/// Recovery ends with the first attempt that succeeds, and after five attempts
/// at the latest.
pub proof fn law_recovery_stops_at_first_success(outcomes: Seq<bool>)
    requires
        outcomes.len() >= RECOVERY_ATTEMPTS,
    ensures
        1 <= attempts_made(outcomes, 0) <= RECOVERY_ATTEMPTS,
        forall|i: int| 0 <= i < attempts_made(outcomes, 0) - 1 ==> !#[trigger] outcomes[i],
        attempts_made(outcomes, 0) < RECOVERY_ATTEMPTS ==> outcomes[attempts_made(outcomes, 0)
            - 1],
{
    reveal_with_fuel(attempts_made, 6);
}

/// White space around a word, and the case of its letters, make no difference to what is asked
/// for.
pub proof fn law_case_and_white_space_do_not_count(
    before: Seq<char>,
    word: Seq<char>,
    behind: Seq<char>,
    debug_build: bool,
)
    requires
        forall|i: int| 0 <= i < before.len() ==> white_space(#[trigger] before[i]),
        forall|i: int| 0 <= i < behind.len() ==> white_space(#[trigger] behind[i]),
        word.len() > 0 ==> !white_space(word[0]) && !white_space(word.last()),
    ensures
        ({
            let request = debug_layer_request(before + word + behind, debug_build);
            let name = ascii_lowered(word);
            &&& request == Some(true) <==> name == "on"@ || (debug_build && (word.len() == 0
                || name == "auto"@))
            &&& request == Some(false) <==> name == "off"@ || (!debug_build && (word.len() == 0
                || name == "auto"@))
        }),
{
    crate::chars::law_trimming_takes_white_space_only(before, word, behind);
    reveal_strlit("auto");
    reveal_strlit("on");
    reveal_strlit("off");
    assert("auto"@.len() != "on"@.len() && "on"@.len() != "off"@.len() && "auto"@.len()
        != "off"@.len());
    assert(ascii_lowered(word).len() == word.len());
}

/// The build decides only where it is left to decide: a value that asks for the debug layer, or
/// for none, is heard in every build, and a value that is not recognized is so in every build.
pub proof fn law_build_decides_only_by_default(mode: Seq<char>)
    ensures
        ({
            let debug = debug_layer_request(mode, true);
            let release = debug_layer_request(mode, false);
            &&& debug is None <==> release is None
            &&& debug == release || (debug == Some(true) && release == Some(false))
        }),
{
}

/// A search ends for what the first adapter that cannot be passed over is: the end of the
/// adapters, another failure of the enumeration, or a device without a context. Nothing that
/// comes after it makes a difference.
pub proof fn law_search_ends_at_the_first_decision(probes: Seq<AdapterProbe>, at: int)
    requires
        0 <= at < probes.len() < u32::MAX,
        forall|i: int| 0 <= i < at ==> #[trigger] probes[i] == AdapterProbe::NoDevice,
        probes[at] != AdapterProbe::NoDevice,
    ensures
        match probes[at] {
            AdapterProbe::Enumeration(code) => adapter_search(probes) == AdapterStep::Fail(
                if code == -2005270526 {
                    AdapterError::NoCompatibleAdapter
                } else {
                    AdapterError::Enumeration(code)
                },
            ),
            AdapterProbe::NoDevice => false,
            AdapterProbe::Device { has_context } => adapter_search(probes) == if has_context {
                AdapterStep::Use(at as u32)
            } else {
                AdapterStep::Fail(AdapterError::NoDeviceContext)
            },
        },
    decreases probes.len(),
{
    if at < probes.len() - 1 {
        law_search_ends_at_the_first_decision(probes.drop_last(), at);
    } else {
        lemma_passed_over(probes.drop_last());
    }
}

/// Adapters that give no device are passed over one by one, from the first adapter on.
pub proof fn law_adapters_are_looked_at_in_order(probes: Seq<AdapterProbe>)
    requires
        probes.len() < u32::MAX,
        forall|i: int| 0 <= i < probes.len() ==> #[trigger] probes[i] == AdapterProbe::NoDevice,
    ensures
        adapter_search(probes) == AdapterStep::Probe(probes.len() as u32),
{
    lemma_passed_over(probes);
}

/// The first attempt at recovery comes at once. After each of the first four that fail another
/// one comes, the second after 110 milliseconds and each one after it 10 milliseconds later
/// than the one before; after a success, and after five attempts, none does.
pub proof fn law_attempts_come_after_growing_delays(attempts: nat, last_ok: bool)
    ensures
        next_recovery_step(0, last_ok) == (RecoveryStep::Attempt { delay_ms: 0 }),
        next_recovery_step(1, false) == (RecoveryStep::Attempt { delay_ms: 110 }),
        attempts > 0 ==> next_recovery_step(attempts, true) == RecoveryStep::Done,
        attempts > 0 ==> (next_recovery_step(attempts, false) is Attempt <==> attempts < 5),
        1 <= attempts < 4 ==> next_recovery_step(attempts + 1, false)->delay_ms
            == next_recovery_step(attempts, false)->delay_ms + 10,
{
}

} // verus!
