use joyful_create::device::{pad_to_multiple_of_256, round_up_power_two, strip_row_padding};

#[test]
fn rows_are_padded_to_the_next_multiple_of_256() {
    assert_eq!(pad_to_multiple_of_256(0), 0);
    assert_eq!(pad_to_multiple_of_256(1), 256);
    assert_eq!(pad_to_multiple_of_256(255), 256);
    assert_eq!(pad_to_multiple_of_256(256), 256);
    assert_eq!(pad_to_multiple_of_256(257), 512);
    assert_eq!(pad_to_multiple_of_256(4 * 100), 512);
    assert_eq!(pad_to_multiple_of_256(u32::MAX - 255), u32::MAX - 255);
}

#[test]
fn padding_is_cut_off_every_row() {
    let data: Vec<u8> = (0..20).collect();
    assert_eq!(strip_row_padding(&data, 3, 8, 3), vec![0, 1, 2, 8, 9, 10, 16, 17, 18]);
    assert_eq!(strip_row_padding(&data, 4, 4, 5), data);
    assert_eq!(strip_row_padding(&data, 3, 8, 0), Vec::<u8>::new());
    assert_eq!(strip_row_padding(&data, 0, 8, 3), Vec::<u8>::new());
    // the last row need not be padded
    assert_eq!(strip_row_padding(&data[..19], 3, 8, 3), vec![0, 1, 2, 8, 9, 10, 16, 17, 18]);
}

#[test]
fn sizes_round_up_to_a_power_of_two() {
    assert_eq!(round_up_power_two(1), 1);
    assert_eq!(round_up_power_two(2), 2);
    assert_eq!(round_up_power_two(3), 4);
    assert_eq!(round_up_power_two(8), 8);
    assert_eq!(round_up_power_two(9), 16);
    assert_eq!(round_up_power_two(1000), 1024);
    assert_eq!(round_up_power_two((1 << 20) + 1), 1 << 21);
    assert_eq!(round_up_power_two((1usize << 40) - 5), 1 << 40);
    assert_eq!(round_up_power_two(usize::MAX / 2 + 1), usize::MAX / 2 + 1);
}
