use magneto_pad::handlers::{DeviceHandler, RequestHandler};
use magneto_pad::sampler::mux_route;
use magneto_pad::usb_config::{get_device_configs, get_usb_config};

#[test]
fn test_configured_flag_transitions() {
    let mut h = DeviceHandler::new();
    assert!(!h.configured);
    h.configured(true);
    assert!(h.configured);
    h.reset();
    assert!(!h.configured);
    h.configured(true);
    h.enabled(true);
    assert!(!h.configured);
    h.configured(true);
    h.addressed(5);
    assert!(!h.configured);
    h.configured(true);
    h.configured(false);
    assert!(!h.configured);
}

#[test]
fn test_request_handler_defaults() {
    let mut h = RequestHandler::new();
    assert!(h.get_report().is_none());
    assert!(h.set_report());
    assert!(h.get_idle_ms().is_none());
}

#[test]
fn test_usb_identity() {
    let c = get_usb_config(0xC0DE, 0xCAFE);
    assert_eq!(c.vendor_id, 0xC0DE);
    assert_eq!(c.product_id, 0xCAFE);
    assert_eq!(c.manufacturer, "magneto_pad_manufacturer");
    assert_eq!(c.product, "magneto_pad_product");
    assert_eq!(c.serial_number, "magneto_pad_serial_nr");
    assert_eq!(c.max_power, 100);
    assert_eq!(c.max_packet_size_0, 64);
    assert!(c.composite_with_iads);
    assert_eq!(c.device_class, 0xEF);
    assert_eq!(c.device_sub_class, 0x02);
    assert_eq!(c.device_protocol, 0x01);
}

#[test]
fn test_class_configs() {
    let (hid, web) = get_device_configs();
    assert_eq!(hid.poll_ms, 60);
    assert_eq!(hid.max_packet_size, 64);
    assert_eq!(web.max_packet_size, 64);
    assert_eq!(web.vendor_code, 1);
}

#[test]
fn test_mux_routing() {
    let r = mux_route(0);
    assert!(!r.s0 && !r.s1 && !r.s2 && !r.s3);
    assert_eq!(r.adc_input, 0);

    // Channel 10 is 0b1010 on the select lines, on the first ADC input.
    let r = mux_route(10);
    assert!(!r.s0 && r.s1 && !r.s2 && r.s3);
    assert_eq!(r.adc_input, 0);

    // Channel 21 is 0b0101 within its bank, on the second ADC input.
    let r = mux_route(21);
    assert!(r.s0 && !r.s1 && r.s2 && !r.s3);
    assert_eq!(r.adc_input, 1);
}
