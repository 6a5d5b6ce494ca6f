use userdu::format::{SizeFormatter, SizeMode};

fn fmt(mode: SizeMode, si: bool) -> SizeFormatter {
    SizeFormatter { mode, si }
}

#[test]
fn bytes_mode_returns_raw_size() {
    let f = fmt(SizeMode::Bytes, false);
    assert_eq!(f.get_parts(0), (0, None));
    assert_eq!(f.get_parts(1500), (1500, None));
    assert_eq!(f.get_parts(u64::MAX), (u64::MAX, None));
}

#[test]
fn explicit_modes_divide_and_emit_no_suffix() {
    assert_eq!(fmt(SizeMode::Kilobytes, false).get_parts(1500), (1, None));
    assert_eq!(fmt(SizeMode::Kilobytes, true).get_parts(1500), (1, None));
    assert_eq!(fmt(SizeMode::Megabytes, false).get_parts(1048576), (1, None));
    assert_eq!(fmt(SizeMode::Megabytes, true).get_parts(2_000_000), (2, None));
    assert_eq!(fmt(SizeMode::Gigabytes, false).get_parts(1073741824), (1, None));
    assert_eq!(fmt(SizeMode::Gigabytes, true).get_parts(3_000_000_000), (3, None));
}

#[test]
fn division_truncates_toward_zero() {
    // A size and a half renders as one: no rounding, no decimals.
    assert_eq!(fmt(SizeMode::Megabytes, false).get_parts(1572864), (1, None));
    assert_eq!(fmt(SizeMode::Kilobytes, false).get_parts(1023), (0, None));
}

#[test]
fn human_threshold_binary() {
    let f = fmt(SizeMode::Human, false);
    // Exactly ten kibibytes still renders in bytes; one more moves to K.
    assert_eq!(f.get_parts(10240), (10240, Some("B")));
    assert_eq!(f.get_parts(10241), (10, Some("K")));
    // The same strict threshold at every higher tier.
    assert_eq!(f.get_parts(10 * 1048576), (10240, Some("K")));
    assert_eq!(f.get_parts(10 * 1048576 + 1), (10, Some("M")));
    assert_eq!(f.get_parts(10 * 1073741824), (10240, Some("M")));
    assert_eq!(f.get_parts(10 * 1073741824 + 1), (10, Some("G")));
    assert_eq!(f.get_parts(10 * 1099511627776), (10240, Some("G")));
    assert_eq!(f.get_parts(10 * 1099511627776 + 1), (10, Some("T")));
}

#[test]
fn human_threshold_si() {
    let f = fmt(SizeMode::Human, true);
    assert_eq!(f.get_parts(10_000), (10000, Some("B")));
    assert_eq!(f.get_parts(10_001), (10, Some("K")));
    assert_eq!(f.get_parts(10_000_000), (10000, Some("K")));
    assert_eq!(f.get_parts(10_000_001), (10, Some("M")));
    assert_eq!(f.get_parts(10_000_000_000), (10000, Some("M")));
    assert_eq!(f.get_parts(10_000_000_001), (10, Some("G")));
    assert_eq!(f.get_parts(10_000_000_000_000), (10000, Some("G")));
    assert_eq!(f.get_parts(10_000_000_000_001), (10, Some("T")));
}

#[test]
fn human_small_sizes_render_in_bytes() {
    let f = fmt(SizeMode::Human, false);
    assert_eq!(f.get_parts(0), (0, Some("B")));
    assert_eq!(f.get_parts(1500), (1500, Some("B")));
    assert_eq!(f.get_parts(9999), (9999, Some("B")));
}

#[test]
fn get_parts_divisor_divides() {
    let f = fmt(SizeMode::Kilobytes, false);
    assert_eq!(f.get_parts_divisor(10000, 1000), (10, None));
    assert_eq!(f.get_parts_divisor(999, 1000), (0, None));
}

#[test]
fn get_parts_human_picks_largest_qualifying_unit() {
    let f = fmt(SizeMode::Human, false);
    assert_eq!(f.get_parts_human(20480), (20, Some("K")));
    assert_eq!(f.get_parts_human(3 * 1073741824), (3072, Some("M")));
}

#[test]
fn wrap_and_render_one_file_of_1500_bytes() {
    // One 1500-byte file under each mode of the command line.
    assert_eq!(fmt(SizeMode::Bytes, false).wrap(1500).render(), "1500");
    assert_eq!(fmt(SizeMode::Kilobytes, false).wrap(1500).render(), "1");
    assert_eq!(fmt(SizeMode::Kilobytes, true).wrap(1500).render(), "1");
    assert_eq!(fmt(SizeMode::Human, false).wrap(1500).render(), "1500B");
}

#[test]
fn wrap_and_render_twenty_kibibytes() {
    assert_eq!(fmt(SizeMode::Human, false).wrap(20480).render(), "20K");
    assert_eq!(fmt(SizeMode::Human, true).wrap(20480).render(), "20K");
}

#[test]
fn formatting_depends_only_on_size_mode_and_si() {
    // Two separately built formatters with equal policy agree everywhere
    // sampled, whatever else happened around them.
    let a = fmt(SizeMode::Human, false);
    a.wrap(123).render();
    let b = fmt(SizeMode::Human, false);
    for size in [0, 1, 1024, 10240, 10241, 123456789, u64::MAX] {
        assert_eq!(a.get_parts(size), b.get_parts(size));
        assert_eq!(a.wrap(size).render(), b.wrap(size).render());
    }
}

#[test]
fn decimal_rendering_is_exact() {
    assert_eq!(userdu::format::u64_to_string(0), "0");
    assert_eq!(userdu::format::u64_to_string(9), "9");
    assert_eq!(userdu::format::u64_to_string(10), "10");
    assert_eq!(userdu::format::u64_to_string(1500), "1500");
    assert_eq!(
        userdu::format::u64_to_string(u64::MAX),
        "18446744073709551615"
    );
}
