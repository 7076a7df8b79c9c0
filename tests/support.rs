use epd_display::error::{do_input, do_output, DisplayError};
use epd_display::single_device::{self, SingleDevice, SingleDeviceError, TxStep};

#[test]
fn line_failures_are_tagged_by_origin() {
    let out: Result<(), DisplayError<u8, u16, u32>> = do_output(Err(7u32));
    assert!(matches!(out, Err(DisplayError::Output(7))));
    let inp: Result<bool, DisplayError<u8, u16, u32>> = do_input(Err(9u16));
    assert!(matches!(inp, Err(DisplayError::Input(9))));
    let ok: Result<bool, DisplayError<u8, u16, u32>> = do_input(Ok(true));
    assert!(matches!(ok, Ok(true)));
}

#[test]
fn chip_select_failure_is_tagged() {
    let r: Result<(), SingleDeviceError<u8, u16>> = single_device::do_output(Err(3u16));
    assert!(matches!(r, Err(SingleDeviceError::Output(3))));
    let r: Result<i32, SingleDeviceError<u8, u16>> = single_device::do_output(Ok(5));
    assert!(matches!(r, Ok(5)));
}

type Device = SingleDevice<(), u8, (), ()>;

/// Runs the transaction steps for `n` operations, failing the step `fail_at` (if any).
fn run_transaction(n: usize, fail_at: Option<TxStep>) -> Vec<TxStep> {
    let mut seen = Vec::new();
    let mut step = Some(Device::first_step());
    while let Some(current) = step {
        seen.push(current);
        let succeeded = Some(current) != fail_at;
        step = Device::next_step(n, current, succeeded);
    }
    seen
}

#[test]
fn transaction_selects_around_all_operations() {
    assert_eq!(
        run_transaction(3, None),
        vec![
            TxStep::Select,
            TxStep::Operation(0),
            TxStep::Operation(1),
            TxStep::Operation(2),
            TxStep::Flush,
            TxStep::Release,
        ]
    );
    assert_eq!(run_transaction(0, None), vec![TxStep::Select, TxStep::Flush, TxStep::Release]);
}

#[test]
fn failed_operation_still_releases_chip_select() {
    assert_eq!(
        run_transaction(3, Some(TxStep::Operation(1))),
        vec![TxStep::Select, TxStep::Operation(0), TxStep::Operation(1), TxStep::Release]
    );
    assert_eq!(
        run_transaction(1, Some(TxStep::Flush)),
        vec![TxStep::Select, TxStep::Operation(0), TxStep::Flush, TxStep::Release]
    );
}

#[test]
fn failed_select_ends_transaction() {
    assert_eq!(run_transaction(2, Some(TxStep::Select)), vec![TxStep::Select]);
    assert_eq!(Device::next_step(2, TxStep::Release, false), None);
}

#[test]
fn bus_failure_converts_to_spi_error() {
    let e: DisplayError<u8, u16, u32> = DisplayError::from(5u8);
    assert!(matches!(e, DisplayError::Spi(5)));
    let timeout: DisplayError<u8, u16, u32> = DisplayError::BusyTimeout;
    assert!(matches!(timeout, DisplayError::BusyTimeout));
}
