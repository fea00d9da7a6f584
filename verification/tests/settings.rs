use eventwork::NetworkSettings;

#[test]
fn settings_default_to_ten_mebibytes() {
    let settings = NetworkSettings::new("127.0.0.1:9999".to_string());
    assert_eq!(settings.max_packet_length, 10 * 1024 * 1024);
    assert_eq!(settings.addr, "127.0.0.1:9999");
}
