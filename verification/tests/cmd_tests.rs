use flashrom_tester::cmd::{
    extract_flash_name as parse_flash_name, flashrom_decode_opts,
    flashrom_extract_size as parse_flash_size, hex_range_string, parse_wp_status, FlashromCmd,
    FlashromOpt, IOOpt, OperationArgs, WPOpt,
};
use flashrom_tester::flash::{FlashChip, FlashromError};

#[test]
fn decode_wp_opt() {
    fn test_wp_opt(wpo: WPOpt, expected: &[&str]) {
        assert_eq!(
            flashrom_decode_opts(FlashromOpt {
                wp_opt: wpo,
                ..Default::default()
            }),
            expected
        );
    }

    test_wp_opt(Default::default(), &[]);
    test_wp_opt(
        WPOpt {
            range: Some((0, 1234)),
            status: true,
            ..Default::default()
        },
        &["--wp-range", "0x000000,0x0004D2", "--wp-status"],
    );
    test_wp_opt(
        WPOpt {
            list: true,
            ..Default::default()
        },
        &["--wp-list"],
    );
    test_wp_opt(
        WPOpt {
            enable: true,
            ..Default::default()
        },
        &["--wp-enable"],
    );
    test_wp_opt(
        WPOpt {
            disable: true,
            ..Default::default()
        },
        &["--wp-disable"],
    );
}

#[test]
fn decode_io_opt() {
    fn test_io_opt(opts: IOOpt, expected: &[&str]) {
        assert_eq!(
            flashrom_decode_opts(FlashromOpt {
                io_opt: Some(opts),
                ..Default::default()
            }),
            expected
        );
    }

    test_io_opt(
        IOOpt::Read(OperationArgs::EntireChip("foo.bin".to_string())),
        &["-r", "foo.bin"],
    );
    test_io_opt(
        IOOpt::Write(OperationArgs::EntireChip("bar.bin".to_string())),
        &["-w", "bar.bin"],
    );
    test_io_opt(
        IOOpt::Verify(OperationArgs::EntireChip("baz.bin".to_string())),
        &["-v", "baz.bin"],
    );
    test_io_opt(IOOpt::Erase, &["-E"]);
    test_io_opt(
        IOOpt::Read(OperationArgs::FullFileRegion(
            "RO".to_string(),
            "foo.bin".to_string(),
            Some("baz.bin".to_string()),
        )),
        &["-r", "foo.bin", "--include", "RO", "--layout", "baz.bin"],
    );

    test_io_opt(
        IOOpt::Read(OperationArgs::RegionFileRegion(
            "foo".to_string(),
            "bar.bin".to_string(),
            None,
        )),
        &["-r", "--include", "foo:bar.bin"],
    )
}

#[test]
fn decode_misc() {
    assert_eq!(
        flashrom_decode_opts(FlashromOpt {
            flash_name: true,
            verbose: true,
            ..Default::default()
        }),
        &["--flash-name", "-V"]
    );
}

#[test]
fn flashrom_extract_size() {
    assert_eq!(
        parse_flash_size(
            "coreboot table found at 0x7cc13000.\n\
             Found chipset \"Intel Braswell\". Enabling flash write... OK.\n\
             8388608\n"
        ),
        Ok(8388608)
    );

    assert_eq!(
        parse_flash_size("There was a catastrophic error."),
        Err(FlashromError::new(
            "Found no purely-numeric lines in flashrom output"
        ))
    );
}

#[test]
fn flashrom_extract_size_overflow_is_an_error() {
    assert_eq!(
        parse_flash_size("99999999999999999999\n"),
        Err(FlashromError::new(
            "Failed to parse flashrom size output as integer"
        ))
    );
    // The last numeric line wins.
    assert_eq!(parse_flash_size("123\n456\nnot a number\n789\n"), Ok(789));
}

#[test]
fn flashrom_extract_size_accepts_crlf_output() {
    assert_eq!(parse_flash_size("preamble\r\n8388608\r\n"), Ok(8388608));
}

#[test]
fn extract_flash_name() {
    assert_eq!(
        parse_flash_name(
            "coreboot table found at 0x7cc13000\n\
             Found chipset \"Intel Braswell\". Enabling flash write... OK.\n\
             vendor=\"Winbond\" name=\"W25Q64DW\"\n"
        ),
        Some(("Winbond".to_string(), "W25Q64DW".to_string()))
    );

    assert_eq!(
        parse_flash_name(
            "vendor name is TEST\n\
             Something failed!"
        ),
        None
    )
}

#[test]
fn hex_range_string_pads_to_six_digits() {
    assert_eq!(hex_range_string(0, 1234), "0x000000,0x0004D2");
    assert_eq!(hex_range_string(0x10000, 0xFFFFFFF), "0x010000,0xFFFFFFF");
}

#[test]
fn wp_status_parse() {
    let enabled = "Some preamble\nProtection mode: hardware\n";
    let disabled = "Protection mode: disable\n";
    assert!(parse_wp_status(enabled, true));
    assert!(!parse_wp_status(enabled, false));
    assert!(parse_wp_status(disabled, false));
    assert!(!parse_wp_status(disabled, true));
}

#[test]
fn dispatch_args_select_the_programmer() {
    let cmd = FlashromCmd {
        path: "/usr/sbin/flashrom".to_string(),
        fc: FlashChip::INTERNAL,
    };
    let args = cmd.dispatch_args(FlashromOpt {
        flash_name: true,
        ..Default::default()
    });
    assert_eq!(args, &["-p", "internal", "--flash-name"]);
}
