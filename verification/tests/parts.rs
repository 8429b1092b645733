use hexafreeze::constants::{MAX_NODE_ID, MAX_TIMESTAMP_NANOS, RESET_INCREMENT, TIMESTAMP_SHIFT};
use hexafreeze::generator::checks::{check_epoch, check_epoch_at, check_node_id};
use hexafreeze::generator::nano::{Millisecond, Nanosecond};
use hexafreeze::generator::snowflake::create_snowflake;
use hexafreeze::generator::util::{micros_from_reading, nanos_from_reading, now, now_micros};
use hexafreeze::{GeneratorError, HexaFreezeError, DEFAULT_EPOCH};

#[test]
fn default_epoch_is_start_of_2020() {
    let parsed = chrono::DateTime::parse_from_rfc3339("2020-01-01T00:00:00Z").unwrap();
    assert_eq!(DEFAULT_EPOCH, parsed.timestamp_millis());
}

#[test]
fn constants_match_the_layout() {
    assert_eq!(RESET_INCREMENT, 1 << 12);
    assert_eq!(MAX_NODE_ID, (1 << 10) - 1);
    assert_eq!(MAX_TIMESTAMP_NANOS, ((1i64 << 41) - 1) * 1_000_000);
    assert_eq!(TIMESTAMP_SHIFT, 22);
}

#[test]
fn node_ids_from_0_to_1023_pass() {
    assert_eq!(check_node_id(0), Ok(()));
    assert_eq!(check_node_id(1023), Ok(()));
    assert_eq!(check_node_id(1024), Err(HexaFreezeError::NodeIdTooLarge));
    assert_eq!(check_node_id(-1), Err(HexaFreezeError::NodeIdTooLarge));
}

#[test]
fn epochs_are_checked_against_the_time() {
    let now = Nanosecond(1_000_000_000_000_000_000);
    assert_eq!(check_epoch_at(now, now), Ok(()));
    assert_eq!(check_epoch_at(Nanosecond(now.0 + 1), now), Err(HexaFreezeError::EpochInTheFuture));
    assert_eq!(check_epoch_at(Nanosecond(now.0 - MAX_TIMESTAMP_NANOS), now), Ok(()));
    assert_eq!(
        check_epoch_at(Nanosecond(now.0 - MAX_TIMESTAMP_NANOS - 1), now),
        Err(HexaFreezeError::EpochTooFarInThePast)
    );
    // The distance is taken exactly, beyond the range of an i64.
    assert_eq!(
        check_epoch_at(Nanosecond(i64::MIN), Nanosecond(i64::MAX)),
        Err(HexaFreezeError::EpochTooFarInThePast)
    );
    assert_eq!(
        check_epoch_at(Nanosecond(i64::MAX), Nanosecond(i64::MIN)),
        Err(HexaFreezeError::EpochInTheFuture)
    );
    assert_eq!(check_epoch(Nanosecond::from_millis(DEFAULT_EPOCH)), Ok(()));
    assert_eq!(
        check_epoch(Nanosecond::from_millis(DEFAULT_EPOCH + 1_000_000_000_000)),
        Err(HexaFreezeError::EpochInTheFuture)
    );
}

#[test]
fn millis_and_nanos_convert() {
    assert_eq!(Nanosecond::from_millis(3), Nanosecond(3_000_000));
    assert_eq!(Nanosecond::from_millis(-3), Nanosecond(-3_000_000));
    assert_eq!(Nanosecond(3_999_999).into_millis(), 3);
    assert_eq!(Nanosecond(-1).into_millis(), -1);
    assert_eq!(Nanosecond(-1_000_000).into_millis(), -1);
    assert_eq!(Nanosecond(-1_000_001).into_millis(), -2);
    let m: Millisecond = Nanosecond(7_500_000).into();
    assert_eq!(m, Millisecond(7));
    assert_eq!(Millisecond(7).into_nanos(), Nanosecond(7_000_000));
    assert_eq!(Nanosecond::from_millis(12345).into_millis(), 12345);
}

#[test]
fn time_arithmetic() {
    assert_eq!(Nanosecond(10) - Nanosecond(3), Nanosecond(7));
    assert_eq!(Nanosecond(10) + Nanosecond(3), Nanosecond(13));
    assert_eq!(Millisecond(10) - Millisecond(13), Millisecond(-3));
    assert_eq!(Millisecond(10) + Millisecond(1), Millisecond(11));
    assert!(Millisecond(1) < Millisecond(2));
    assert!(Nanosecond(-5) < Nanosecond(0));
}

#[test]
fn snowflakes_pack_their_fields() {
    assert_eq!(create_snowflake(1, 0, 0), 1 << 22);
    assert_eq!(create_snowflake(0, 1, 0), 1 << 12);
    assert_eq!(create_snowflake(0, 0, 1), 1);
    assert_eq!(create_snowflake(1234, 567, 89), 1234 * 4_194_304 + 567 * 4096 + 89);
    assert_eq!(
        create_snowflake((1 << 41) - 1, 1023, 4095),
        i64::MAX
    );
    assert_eq!(create_snowflake(-1, 0, 5), -(1 << 22) + 5);
}

#[test]
fn clock_readings_convert() {
    assert_eq!(nanos_from_reading(true, 5), Nanosecond(5));
    assert_eq!(nanos_from_reading(false, 5), Nanosecond(-5));
    assert_eq!(nanos_from_reading(true, 1u128 << 64), Nanosecond(0));
    assert_eq!(nanos_from_reading(false, 1u128 << 63), Nanosecond(i64::MIN));
    assert_eq!(micros_from_reading(true, 17), Ok(17));
    assert_eq!(micros_from_reading(false, 17), Ok(-17));
    assert_eq!(micros_from_reading(true, i64::MAX as u128), Ok(i64::MAX));
    assert_eq!(micros_from_reading(true, i64::MAX as u128 + 1), Err(GeneratorError::ItsTheFuture));
    assert_eq!(micros_from_reading(false, i64::MAX as u128 + 1), Ok(i64::MIN));
    assert_eq!(micros_from_reading(false, i64::MAX as u128 + 2), Err(GeneratorError::ItsTheFuture));
}

#[test]
fn the_clock_reads_after_2020() {
    let nanos = now();
    assert!(nanos.into_millis() > DEFAULT_EPOCH);
    let micros = now_micros().unwrap();
    assert!(micros / 1000 > DEFAULT_EPOCH);
    assert!(micros / 1000 >= nanos.into_millis());
}

#[test]
fn error_messages() {
    assert_eq!(HexaFreezeError::EpochInTheFuture.message(), "Epoch is too far in the future!");
    assert_eq!(HexaFreezeError::EpochTooFarInThePast.message(), "Epoch is too far in the past!");
    assert_eq!(
        HexaFreezeError::NodeIdTooLarge.message(),
        "The node_id less than 0 or bigger than 1023"
    );
    assert_eq!(
        HexaFreezeError::ClockWentBackInTime.message(),
        "Your clock jumped backwards in time!"
    );
    assert_eq!(
        HexaFreezeError::Surpassed64BitLimit.message(),
        "You've generated more than 9,223,372,036,854,775,807 ids!"
    );
}
