use flexpart_gpu::adapter::{is_software_adapter_requested, parse_truthy_flag, GpuAdapterOptions};

#[test]
fn test_parse_truthy_flag_accepts_documented_values() {
    for value in ["1", "true", "TRUE", " True ", "yes", "YES", "on", "ON"] {
        assert!(parse_truthy_flag(value), "expected truthy: {value}");
    }
}

#[test]
fn test_parse_truthy_flag_rejects_other_values() {
    for value in ["", "0", "false", "no", "off", "2", "auto"] {
        assert!(!parse_truthy_flag(value), "expected falsy: {value}");
    }
}

#[test]
fn test_software_options_request_fallback_adapter() {
    let options = GpuAdapterOptions::software();
    assert!(options.force_software_fallback);
    assert_eq!(options.backend_override, None);
}

#[test]
fn test_hardware_options_do_not_request_fallback_adapter() {
    let options = GpuAdapterOptions::hardware();
    assert!(!options.force_software_fallback);
    assert_eq!(GpuAdapterOptions::default(), options);
}

#[test]
fn either_variable_requests_the_software_adapter() {
    assert!(!is_software_adapter_requested(None, None));
    assert!(is_software_adapter_requested(Some("1"), None));
    assert!(is_software_adapter_requested(None, Some("true")));
    assert!(is_software_adapter_requested(Some("0"), Some("\tOn\n")));
    assert!(!is_software_adapter_requested(Some("0"), Some("off")));
    assert!(GpuAdapterOptions::from_flag_values(Some(" YES"), None).force_software_fallback);
    assert!(!GpuAdapterOptions::from_flag_values(Some("y"), None).force_software_fallback);
}
