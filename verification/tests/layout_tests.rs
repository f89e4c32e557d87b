use flashrom_tester::utils::{
    construct_layout_file as render_layout_file, get_hardware_wp, get_layout_sizes as compute_layout_sizes,
    layout_section, LayoutNames, LayoutSizes,
};

#[test]
fn construct_layout_file() {
    let text =
        render_layout_file(&compute_layout_sizes(0x10000).expect("64k is a valid chip size"));

    assert_eq!(
        text.as_bytes(),
        &b"000000:3fff BOTTOM_QUAD\n\
           000000:7fff BOTTOM_HALF\n\
           8000:ffff TOP_HALF\n\
           c000:ffff TOP_QUAD\n"[..]
    );
}

#[test]
fn get_layout_sizes() {
    assert_eq!(
        compute_layout_sizes(-128).err(),
        Some("invalid rom size provided".into())
    );

    assert_eq!(
        compute_layout_sizes(3 << 20).err(),
        Some("invalid rom size, not a power of 2".into())
    );

    assert_eq!(
        compute_layout_sizes(64 << 10).unwrap(),
        LayoutSizes {
            half_sz: 0x8000,
            quad_sz: 0x4000,
            rom_top: 0xFFFF,
            bottom_half_top: 0x7FFF,
            bottom_quad_top: 0x3FFF,
            top_quad_bottom: 0xC000,
        }
    );
}

#[test]
fn get_layout_sizes_zero_is_rejected() {
    assert_eq!(
        compute_layout_sizes(0).err(),
        Some("invalid rom size provided".into())
    );
}

/// The halves tile the chip and the quads are disjoint, for a 64k chip.
#[test]
fn layout_sections_tile_the_chip() {
    let sizes = compute_layout_sizes(0x10000).unwrap();
    let (bh_name, bh_start, bh_len) = layout_section(&sizes, LayoutNames::BottomHalf);
    let (th_name, th_start, th_len) = layout_section(&sizes, LayoutNames::TopHalf);
    assert_eq!(bh_name, "BOTTOM_HALF");
    assert_eq!(th_name, "TOP_HALF");
    assert_eq!(bh_start, 0);
    assert_eq!(bh_start + bh_len, th_start);
    assert_eq!(th_start + th_len, 0x10000);

    let (bq_name, bq_start, bq_len) = layout_section(&sizes, LayoutNames::BottomQuad);
    let (tq_name, tq_start, tq_len) = layout_section(&sizes, LayoutNames::TopQuad);
    assert_eq!(bq_name, "BOTTOM_QUAD");
    assert_eq!(tq_name, "TOP_QUAD");
    assert_eq!(bq_start, 0);
    assert!(bq_start + bq_len <= tq_start);
    assert_eq!(tq_start + tq_len, 0x10000);
}

/// Taking the non-overlapping sibling twice returns the starting section.
#[test]
fn non_overlapping_section_is_involution() {
    for section in [
        LayoutNames::TopQuad,
        LayoutNames::TopHalf,
        LayoutNames::BottomHalf,
        LayoutNames::BottomQuad,
    ] {
        assert_eq!(
            section
                .get_non_overlapping_section()
                .get_non_overlapping_section(),
            section
        );
    }
}

/// The hardware write-protect probe parse accepts exactly 0 and 1.
#[test]
fn hardware_wp_probe_parse() {
    assert_eq!(get_hardware_wp("1"), Ok(true));
    assert_eq!(get_hardware_wp("0"), Ok(false));
    assert_eq!(
        get_hardware_wp("2"),
        Err("Unknown write protect value".to_string())
    );
    assert_eq!(
        get_hardware_wp("junk"),
        Err("Cannot parse write protect value".to_string())
    );
    assert_eq!(
        get_hardware_wp(""),
        Err("Cannot parse write protect value".to_string())
    );
    assert_eq!(
        get_hardware_wp("99999999999"),
        Err("Cannot parse write protect value".to_string())
    );
}
