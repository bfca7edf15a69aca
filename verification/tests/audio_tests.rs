use typr::audio::{choose_input_device, microphone_list, InputDeviceChoice, MicDevice};

#[test]
fn microphones_skip_unnamed_devices_and_mark_the_default() {
    let devices = microphone_list(
        vec![Some("Built-in".to_string()), None, Some("USB Mic".to_string())],
        "USB Mic",
    );
    assert_eq!(
        devices,
        vec![
            MicDevice { name: "Built-in".to_string(), is_default: false },
            MicDevice { name: "USB Mic".to_string(), is_default: true },
        ]
    );
    assert!(microphone_list(vec![], "").is_empty());
}

#[test]
fn input_device_is_the_default_or_the_first_with_the_name() {
    let names = vec![None, Some("USB Mic".to_string()), Some("USB Mic".to_string())];
    assert_eq!(choose_input_device("default", &names), InputDeviceChoice::Default);
    assert_eq!(choose_input_device("USB Mic", &names), InputDeviceChoice::Listed(1));
    assert_eq!(
        choose_input_device("Headset", &names),
        InputDeviceChoice::NotFound("Microphone 'Headset' not found".to_string())
    );
}
