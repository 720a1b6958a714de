use world_gen::chunk::chunk_size::{
    chunk_coord, div_toward_zero, get_chunk_pos, get_chunk_relative_pos, get_world_pos,
    world_coord, CHUNK_SIZE,
};

#[test]
fn chunk_size_is_64() {
    assert_eq!(CHUNK_SIZE, 64);
}

#[test]
fn division_rounds_toward_zero() {
    assert_eq!(div_toward_zero(7, 2), 3);
    assert_eq!(div_toward_zero(-7, 2), -3);
    assert_eq!(div_toward_zero(7, -2), -3);
    assert_eq!(div_toward_zero(-7, -2), 3);
    assert_eq!(div_toward_zero(0, 5), 0);
    assert_eq!(div_toward_zero(i32::MIN, -1), 2147483648);
    assert_eq!(div_toward_zero(i32::MIN, 1), -2147483648);
    assert_eq!(div_toward_zero(i32::MAX, i32::MIN), 0);
}

#[test]
fn chunk_of_a_world_position() {
    // 130.2 rounds to 130 and is not negative; -0.3 rounds to 0 and is negative
    assert_eq!(get_chunk_pos(&[130, 0], &[false, true]), [2, -1]);
    assert_eq!(get_chunk_pos(&[63, 64], &[false, false]), [0, 1]);
    assert_eq!(get_chunk_pos(&[-1, -63], &[true, true]), [-1, -1]);
    assert_eq!(get_chunk_pos(&[-64, -65], &[true, true]), [-2, -2]);
    assert_eq!(chunk_coord(0, false), 0);
    assert_eq!(chunk_coord(i32::MAX, false), 33554431);
    assert_eq!(chunk_coord(i32::MIN, true), -33554433);
}

#[test]
fn relative_position_in_a_chunk() {
    assert_eq!(get_chunk_relative_pos(&[10, 63], 1), [10, 63]);
    assert_eq!(get_chunk_relative_pos(&[10, 63], 4), [2, 15]);
    assert_eq!(get_chunk_relative_pos(&[-10, 7], 4), [-2, 1]);
}

#[test]
fn world_position_of_a_cell() {
    assert_eq!(get_world_pos(&[0, 0], &[0, 0], 1), [0, 0]);
    assert_eq!(get_world_pos(&[2, -1], &[5, 7], 1), [133, -57]);
    assert_eq!(get_world_pos(&[2, -1], &[5, 7], 4), [148, -36]);
    assert_eq!(world_coord(1, 16, 4), world_coord(2, 0, 4));
    assert_eq!(
        world_coord(i32::MAX, i32::MAX, i32::MAX),
        2147483647i64 * 64 + 2147483647i64 * 2147483647i64
    );
    assert_eq!(
        world_coord(i32::MIN, i32::MIN, i32::MAX),
        -2147483648i64 * 64 - 2147483648i64 * 2147483647i64
    );
}
