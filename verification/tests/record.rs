use svled::record::{data_record, esp_delay_split, esp_entry, hex_bytes_text};

#[test]
fn delay_split_matches_step_by_step_encoding() {
    assert_eq!(esp_delay_split(0), (0, 0));
    assert_eq!(esp_delay_split(1), (0, 1));
    assert_eq!(esp_delay_split(255), (0, 255));
    assert_eq!(esp_delay_split(256), (1, 1));
    assert_eq!(esp_delay_split(510), (1, 255));
    assert_eq!(esp_delay_split(600), (2, 90));
}

#[test]
fn esp_entry_layout() {
    assert_eq!(esp_entry(0, 0x0102, 3, 4, 5), vec![0x02, 0x01, 3, 4, 5]);
    assert_eq!(esp_entry(90, 300, 3, 4, 5), vec![0xFE, 90, 0x2C, 0x01, 3, 4, 5]);
}

#[test]
fn esp_text_is_upper_case_hex() {
    let text = hex_bytes_text(&[0xFE, 0x05, 0xAB, 0x00]);
    assert_eq!(String::from_utf8(text).unwrap(), "0xFE, 0x05, 0xAB, 0x00, ");
    assert_eq!(format!("0xFE, {:#04X}, ", 5u128), "0xFE, 0x05, ");
}

#[test]
fn data_record_writes_delay_from_three_ms() {
    assert_eq!(String::from_utf8(data_record(2, 12, 1, 2, 3)).unwrap(), "12|1|2|3\n");
    assert_eq!(String::from_utf8(data_record(3, 0, 255, 0, 10)).unwrap(), "T:3\n0|255|0|10\n");
    assert_eq!(
        String::from_utf8(data_record(1234567, 65535, 9, 99, 100)).unwrap(),
        "T:1234567\n65535|9|99|100\n"
    );
}
