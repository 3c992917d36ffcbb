use gpu_fill::buffer_byte_len;
use gpu_fill::fill_pattern;
use gpu_fill::pack_rgba;
use gpu_fill::random_fill_color;
use gpu_fill::readback_matches;

#[test]
fn pack_rgba_orders_channels() {
    assert_eq!(pack_rgba(0x12, 0x34, 0x56, 0xFF), 0xFF563412);
}

#[test]
fn pack_rgba_zero() {
    assert_eq!(pack_rgba(0, 0, 0, 0), 0);
}

#[test]
fn pack_rgba_saturated() {
    assert_eq!(pack_rgba(255, 255, 255, 255), 0xFFFFFFFF);
}

#[test]
fn random_fill_color_is_opaque() {
    for _ in 0..64 {
        let value = random_fill_color();
        assert_eq!(value >> 24, 255);
        assert!(value & 0xFF < 255);
        assert!((value >> 8) & 0xFF < 255);
        assert!((value >> 16) & 0xFF < 255);
    }
}

#[test]
fn fill_pattern_repeats_value_bytes() {
    let data = fill_pattern(0x04030201, 3);
    assert_eq!(data, vec![1, 2, 3, 4, 1, 2, 3, 4, 1, 2, 3, 4]);
}

#[test]
fn fill_pattern_empty() {
    let data = fill_pattern(0xDEADBEEF, 0);
    assert!(data.is_empty());
}

#[test]
fn buffer_byte_len_for_demo_image() {
    assert_eq!(buffer_byte_len(1280, 720), Some(3_686_400));
}

#[test]
fn buffer_byte_len_zero_dimension() {
    assert_eq!(buffer_byte_len(0, 720), Some(0));
}

#[test]
fn buffer_byte_len_overflows() {
    assert_eq!(buffer_byte_len(u32::MAX, u32::MAX), None);
}

#[test]
fn readback_matches_accepts_the_fill() {
    let value = pack_rgba(10, 20, 30, 255);
    let data = fill_pattern(value, 6 * 2);
    assert!(readback_matches(&data, 6, 2, value));
}

#[test]
fn readback_matches_rejects_changed_byte() {
    let value = pack_rgba(10, 20, 30, 255);
    let mut data = fill_pattern(value, 6 * 2);
    data[17] = data[17].wrapping_add(1);
    assert!(!readback_matches(&data, 6, 2, value));
}

#[test]
fn readback_matches_rejects_wrong_length() {
    let value = pack_rgba(10, 20, 30, 255);
    let mut data = fill_pattern(value, 6 * 2);
    data.pop();
    assert!(!readback_matches(&data, 6, 2, value));
}

#[test]
fn readback_matches_rejects_other_value() {
    let value = pack_rgba(10, 20, 30, 255);
    let data = fill_pattern(value, 4);
    assert!(!readback_matches(&data, 4, 1, pack_rgba(11, 20, 30, 255)));
}

#[test]
fn readback_matches_rejects_swapped_dimensions_of_other_size() {
    let value = pack_rgba(10, 20, 30, 255);
    let data = fill_pattern(value, 6 * 2);
    assert!(!readback_matches(&data, 6, 3, value));
}
