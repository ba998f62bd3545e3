use oracle_backfill::{
    connect_error_message, default_targets, header_row, record_row, OracleTarget, RoundRecord,
    Uint256,
};

#[test]
fn header_row_is_fixed() {
    assert_eq!(header_row(), "roundId,answer,startedAt,updatedAt,answeredInRound\n");
}

#[test]
fn five_values_render_in_decimal() {
    let rec = RoundRecord::new(
        Uint256::from_u64(1),
        Uint256::from_u64(2),
        Uint256::from_u64(3),
        Uint256::from_u64(4),
        Uint256::from_u64(5),
    );
    assert_eq!(record_row(&rec), "1,2,3,4,5\n");
}

#[test]
fn large_values_render_in_full() {
    let rec = RoundRecord::new(
        Uint256::from_words([0, 1, 0, 0]),
        Uint256::from_words([u64::MAX, u64::MAX, u64::MAX, u64::MAX]),
        Uint256::from_u64(0),
        Uint256::from_u64(1_000_000_000_000),
        Uint256::from_words([0, 0, 0, 1]),
    );
    assert_eq!(
        record_row(&rec),
        "18446744073709551616,\
         115792089237316195423570985008687907853269984665640564039457584007913129639935,\
         0,1000000000000,\
         6277101735386680763835789423207666416102355444464034512896\n"
    );
}

#[test]
fn decimal_has_no_leading_zero() {
    assert_eq!(Uint256::from_u64(0).to_decimal(), "0");
    assert_eq!(Uint256::from_u64(10).to_decimal(), "10");
    assert_eq!(Uint256::from_u64(9223372036854775808).to_decimal(), "9223372036854775808");
}

#[test]
fn checked_dec_at_zero_and_across_words() {
    assert_eq!(Uint256::from_u64(0).checked_dec(), None);
    assert!(Uint256::from_u64(0).is_zero());
    let d = Uint256::from_words([0, 0, 0, 1]).checked_dec().unwrap();
    assert_eq!(d.to_words(), [u64::MAX, u64::MAX, u64::MAX, 0]);
    assert_eq!(Uint256::from_u64(8).checked_dec(), Some(Uint256::from_u64(7)));
}

#[test]
fn connect_error_names_the_url() {
    let invalid_url = "some_invalid_url";
    assert_eq!(
        connect_error_message(invalid_url),
        format!("Failed to connect to Ethereum node at {}", invalid_url)
    );
}

#[test]
fn output_path_follows_oracle_name() {
    let t = OracleTarget::new("ETH-BTC-CL".to_string(), "0x00".to_string());
    assert_eq!(t.output_path(), "ETH-BTC-CL_oracle_data.csv");
}

#[test]
fn default_targets_list_the_oracle() {
    let targets = default_targets();
    assert_eq!(targets.len(), 1);
    assert_eq!(targets[0].name, "ETH-BTC-CL");
    assert_eq!(targets[0].address, "0xdeb288F737066589598e9214E782fa5A8eD689e8");
}

#[test]
fn address_text_decodes_to_bytes() {
    let targets = default_targets();
    let bytes = targets[0].address_bytes().unwrap();
    assert_eq!(bytes[0], 0xde);
    assert_eq!(bytes[1], 0xb2);
    assert_eq!(bytes[19], 0xe8);
    let bad = OracleTarget::new("X".to_string(), "0x12".to_string());
    assert_eq!(bad.address_bytes(), None);
}
