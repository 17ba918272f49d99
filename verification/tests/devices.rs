use native_shell::devices::{
    adapter_step, debug_layer_requested, debug_layer_wanted, device_flags, dxgi_factory_flags,
    recovery_step, AdapterError, AdapterProbe, AdapterStep, RecoveryStep, DXGI_ERROR_NOT_FOUND,
};

#[test]
fn debug_layer_follows_the_build_unless_overridden() {
    for debug_build in [false, true] {
        for auto in ["", "auto", " Auto ", "AUTO"] {
            assert_eq!(debug_layer_requested(auto, debug_build), Some(debug_build));
        }
        for on in ["on", " on ", "ON"] {
            assert_eq!(debug_layer_requested(on, debug_build), Some(true));
        }
        for off in ["off", "Off\n"] {
            assert_eq!(debug_layer_requested(off, debug_build), Some(false));
        }
        for unrecognized in ["1", "true", "o n", "typo"] {
            assert_eq!(debug_layer_requested(unrecognized, debug_build), None);
        }
    }
}

#[test]
fn an_unrecognized_value_follows_the_build() {
    assert!(debug_layer_wanted("typo", true));
    assert!(!debug_layer_wanted("typo", false));
    assert!(debug_layer_wanted("on", false));
    assert!(!debug_layer_wanted("off", true));
}

#[test]
fn flags_follow_the_debug_layer() {
    assert_eq!(dxgi_factory_flags(true), 0x1);
    assert_eq!(dxgi_factory_flags(false), 0);
    assert_eq!(device_flags(true), 0x22);
    assert_eq!(device_flags(false), 0x20);
}

fn search(probes: &[AdapterProbe]) -> AdapterStep {
    let mut step = AdapterStep::Probe(0);
    for &probe in probes {
        match step {
            AdapterStep::Probe(index) => step = adapter_step(index, probe),
            _ => return step,
        }
    }
    step
}

#[test]
fn the_first_adapter_with_a_device_is_used() {
    let device = AdapterProbe::Device { has_context: true };
    assert_eq!(search(&[]), AdapterStep::Probe(0));
    assert_eq!(
        search(&[AdapterProbe::NoDevice, AdapterProbe::NoDevice, device, device]),
        AdapterStep::Use(2)
    );
}

#[test]
fn a_search_can_fail() {
    let bare = AdapterProbe::Device { has_context: false };
    assert_eq!(
        search(&[
            AdapterProbe::NoDevice,
            AdapterProbe::Enumeration(DXGI_ERROR_NOT_FOUND)
        ]),
        AdapterStep::Fail(AdapterError::NoCompatibleAdapter)
    );
    assert_eq!(
        search(&[AdapterProbe::Enumeration(-5)]),
        AdapterStep::Fail(AdapterError::Enumeration(-5))
    );
    assert_eq!(
        search(&[bare]),
        AdapterStep::Fail(AdapterError::NoDeviceContext)
    );
    assert_eq!(DXGI_ERROR_NOT_FOUND as u32, 0x887a_0002);
}

fn delays(outcomes: &[bool]) -> Vec<u64> {
    let mut delays = Vec::new();
    let mut attempts = 0;
    while let RecoveryStep::Attempt { delay_ms } =
        recovery_step(attempts, attempts > 0 && outcomes[attempts as usize - 1])
    {
        delays.push(delay_ms);
        attempts += 1;
    }
    delays
}

#[test]
fn recovery_waits_longer_each_time() {
    assert_eq!(delays(&[false; 8]), [0, 110, 120, 130, 140]);
    assert_eq!(delays(&[true; 8]), [0]);
    assert_eq!(delays(&[false, false, true, false]), [0, 110, 120]);
}
