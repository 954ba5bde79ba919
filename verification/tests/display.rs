use ai_cache_cleaner::display::{format_size, join_texts, CleanerTheme};

/// The float computation the sizes are shown by.
fn float_format(bytes: u64) -> String {
    let units = ["B", "KB", "MB", "GB", "TB"];
    let mut size = bytes as f64;
    let mut unit_idx = 0;
    while size >= 1024.0 && unit_idx < units.len() - 1 {
        size /= 1024.0;
        unit_idx += 1;
    }
    format!("{:.2} {}", size, units[unit_idx])
}

#[test]
fn test_format_size() {
    assert_eq!(format_size(0), "0.00 B");
    assert_eq!(format_size(1023), "1023.00 B");
    assert_eq!(format_size(1024), "1.00 KB");
    assert_eq!(format_size(1024 * 1024), "1.00 MB");
    assert_eq!(format_size(1024 * 1024 * 1024), "1.00 GB");
}

#[test]
fn format_size_terabytes_and_beyond() {
    assert_eq!(format_size(1024u64.pow(4)), "1.00 TB");
    assert_eq!(format_size(1024u64.pow(5)), "1024.00 TB");
    assert_eq!(format_size(u64::MAX), "16777216.00 TB");
}

#[test]
fn format_size_fractions() {
    assert_eq!(format_size(1536), "1.50 KB");
    assert_eq!(format_size(1024 * 1024 + 1024 * 512), "1.50 MB");
    assert_eq!(format_size(5 * 1024 + 1), "5.00 KB");
}

#[test]
fn format_size_rounds_half_to_even() {
    // 1.125 KB and 1.375 KB are exact halves of a hundredth.
    assert_eq!(format_size(1152), float_format(1152));
    assert_eq!(format_size(1408), float_format(1408));
}

#[test]
fn format_size_rounds_up_into_next_thousand() {
    // 1023.999... KB is still shown in KB.
    assert_eq!(format_size(1024 * 1024 - 1), "1024.00 KB");
}

#[test]
fn format_size_matches_float_formatting() {
    let mut samples: Vec<u64> = Vec::new();
    for i in 0..5000u64 {
        samples.push(i);
        samples.push(i * 1021 + 7);
        samples.push(i * 1_048_573 + 13);
    }
    let mut x: u64 = 0x9E37_79B9_7F4A_7C15;
    for _ in 0..20000 {
        x ^= x << 13;
        x ^= x >> 7;
        x ^= x << 17;
        samples.push(x >> (x % 64));
    }
    for k in 0..64 {
        let p = 1u64 << k;
        samples.push(p);
        samples.push(p - 1);
        samples.push(p.wrapping_add(1));
        samples.push(p + p / 2);
    }
    samples.push(u64::MAX);
    samples.push(u64::MAX - 1024);
    samples.push((1u64 << 53) + 1);
    samples.push((1u64 << 54) + 2);
    samples.push((1u64 << 54) + 6);
    for b in samples {
        assert_eq!(format_size(b), float_format(b), "bytes = {}", b);
    }
}

#[test]
fn join_texts_separates_neighbours() {
    assert_eq!(join_texts(&[], ", "), "");
    assert_eq!(join_texts(&["a"], ", "), "a");
    assert_eq!(join_texts(&["a", "b", "c"], ", "), "a, b, c");
}

#[test]
fn theme_prompts() {
    let t = CleanerTheme;
    assert_eq!(t.format_multi_select_prompt("Pick"), "❓ Pick");
    assert_eq!(
        t.format_multi_select_prompt_selection("Pick", &["x", "y"]),
        "Pick ... Selected: x, y"
    );
    assert_eq!(t.format_multi_select_prompt_item("item", true, true), " > [x] -- item");
    assert_eq!(t.format_multi_select_prompt_item("item", false, false), "   [ ] -- item");
    assert_eq!(t.layout_multi_select_item("item", "M", Some("P")), " P Mitem");
    assert_eq!(t.format_confirm_prompt("Sure?", Some(true)), "❓ Sure? [Y/n]");
    assert_eq!(t.format_confirm_prompt("Sure?", Some(false)), "❓ Sure? [y/N]");
    assert_eq!(t.format_confirm_prompt("Sure?", None), "❓ Sure? [y/n]");
    assert_eq!(t.format_confirm_prompt_selection("Sure?", Some(true)), "Sure? ... yes");
    assert_eq!(t.format_confirm_prompt_selection("Sure?", Some(false)), "Sure? ... no");
    assert_eq!(t.format_confirm_prompt_selection("Sure?", None), "Sure? ... ");
}
