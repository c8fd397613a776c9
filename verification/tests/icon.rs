use ktu_timetable::icon::flip_rows;
use ktu_timetable::icon::icon_from_bitmap;
use ktu_timetable::icon::swap_red_and_blue;

#[test]
fn red_and_blue_are_exchanged_in_each_pixel() {
    assert_eq!(swap_red_and_blue(&vec![1, 2, 3, 4]), vec![3, 2, 1, 4]);
    assert_eq!(
        swap_red_and_blue(&vec![1, 2, 3, 4, 5, 6, 7, 8]),
        vec![3, 2, 1, 4, 7, 6, 5, 8]
    );
    assert_eq!(swap_red_and_blue(&vec![]), Vec::<u8>::new());
}

#[test]
fn what_is_left_after_the_last_pixel_is_not_lost() {
    assert_eq!(swap_red_and_blue(&vec![1]), vec![1]);
    assert_eq!(swap_red_and_blue(&vec![1, 2]), vec![1, 2]);
    assert_eq!(swap_red_and_blue(&vec![1, 2, 3]), vec![3, 2, 1]);
    assert_eq!(swap_red_and_blue(&vec![1, 2, 3, 4, 5]), vec![3, 2, 1, 4, 5]);
    assert_eq!(swap_red_and_blue(&vec![1, 2, 3, 4, 5, 6]), vec![3, 2, 1, 4, 5, 6]);
    assert_eq!(swap_red_and_blue(&vec![1, 2, 3, 4, 5, 6, 7]), vec![3, 2, 1, 4, 7, 6, 5]);
}

#[test]
fn whole_pixels_are_exchanged_as_chunks_of_four_are() {
    let bytes: Vec<u8> = (0..64).collect();
    let mut chunks = bytes.clone();
    for pixel in chunks.as_mut_slice().chunks_mut(4) {
        pixel.swap(0, 2);
    }
    assert_eq!(swap_red_and_blue(&bytes), chunks);
}

#[test]
fn the_rows_are_put_in_the_opposite_order() {
    assert_eq!(flip_rows(&vec![1, 2, 3, 4, 5, 6], 2), vec![5, 6, 3, 4, 1, 2]);
    assert_eq!(flip_rows(&vec![1, 2, 3, 4, 5, 6], 3), vec![4, 5, 6, 1, 2, 3]);
    assert_eq!(flip_rows(&vec![1, 2, 3, 4, 5, 6], 1), vec![6, 5, 4, 3, 2, 1]);
    assert_eq!(flip_rows(&vec![1, 2, 3, 4, 5, 6], 6), vec![1, 2, 3, 4, 5, 6]);
    assert_eq!(flip_rows(&vec![], 4), Vec::<u8>::new());
}

#[test]
fn what_is_left_after_the_last_row_stays() {
    assert_eq!(flip_rows(&vec![1, 2, 3, 4, 5, 6, 7], 2), vec![5, 6, 3, 4, 1, 2, 7]);
    assert_eq!(flip_rows(&vec![1, 2, 3, 4, 5, 6, 7], 3), vec![4, 5, 6, 1, 2, 3, 7]);
    assert_eq!(flip_rows(&vec![1, 2, 3, 4, 5, 6, 7], 4), vec![1, 2, 3, 4, 5, 6, 7]);
    assert_eq!(flip_rows(&vec![1, 2, 3], 7), vec![1, 2, 3]);
    assert_eq!(flip_rows(&vec![1, 2, 3], 0), vec![1, 2, 3]);
    assert_eq!(flip_rows(&vec![1, 2, 3], usize::MAX), vec![1, 2, 3]);
}

#[test]
fn the_rows_are_flipped_as_swapping_them_in_place_does() {
    for width in 1..6usize {
        for height in 0..6usize {
            let row_size = width * 4;
            let bytes: Vec<u8> = (0..(row_size * height) as u8).collect();
            let mut buffer = bytes.clone();
            let row_count = buffer.len() / row_size;
            for row in 0..row_count / 2 {
                let start = row * row_size;
                let end = (row_count - row - 1) * row_size;
                for i in 0..row_size {
                    buffer.swap(start + i, end + i);
                }
            }
            assert_eq!(flip_rows(&bytes, row_size), buffer);
        }
    }
}

#[test]
fn a_bitmap_gives_the_picture_of_the_icon() {
    let bitmap = vec![
        1, 2, 3, 4, 5, 6, 7, 8, //
        9, 10, 11, 12, 13, 14, 15, 16, //
        17, 18, 19, 20, 21, 22, 23, 24,
    ];
    let icon = icon_from_bitmap(&bitmap, 2, 3);
    assert_eq!(icon.width, 2);
    assert_eq!(icon.height, 3);
    assert_eq!(
        icon.rgba,
        vec![
            19, 18, 17, 20, 23, 22, 21, 24, //
            11, 10, 9, 12, 15, 14, 13, 16, //
            3, 2, 1, 4, 7, 6, 5, 8,
        ]
    );
}

#[test]
fn a_bitmap_without_a_width_keeps_its_rows() {
    let icon = icon_from_bitmap(&vec![1, 2, 3, 4, 5, 6, 7, 8], 0, 2);
    assert_eq!(icon.rgba, vec![3, 2, 1, 4, 7, 6, 5, 8]);
    let wide = icon_from_bitmap(&vec![1, 2, 3, 4, 5, 6, 7, 8], u32::MAX, 1);
    assert_eq!(wide.rgba, vec![3, 2, 1, 4, 7, 6, 5, 8]);
    assert_eq!(wide.width, u32::MAX);
}
