use frame_engine::display_size::calculate_display_video_size;

fn by_floats(dar_x: i32, dar_y: i32, x: u32, y: u32) -> (u32, u32) {
    let area = (x as f64) * (y as f64);
    let width = (area * (dar_x as f64 / dar_y as f64)).sqrt();
    let height = area / width;
    (width.round() as u32, height.round() as u32)
}

#[test]
fn no_aspect_ratio_keeps_the_decoded_size() {
    assert_eq!(calculate_display_video_size(0, 1, 640, 480), (640, 480));
    assert_eq!(calculate_display_video_size(1, 0, 640, 480), (640, 480));
    assert_eq!(calculate_display_video_size(0, 0, 0, 7), (0, 7));
    assert_eq!(
        calculate_display_video_size(0, -3, u32::MAX, u32::MAX),
        (u32::MAX, u32::MAX)
    );
}

#[test]
fn matching_aspect_ratio_keeps_the_decoded_size() {
    assert_eq!(calculate_display_video_size(16, 9, 1920, 1080), (1920, 1080));
    assert_eq!(calculate_display_video_size(-16, -9, 1280, 720), (1280, 720));
}

#[test]
fn anamorphic_sizes_keep_the_area() {
    assert_eq!(calculate_display_video_size(4, 3, 1920, 1080), (1663, 1247));
    assert_eq!(calculate_display_video_size(64, 45, 720, 576), (768, 540));
    assert_eq!(calculate_display_video_size(16, 9, 1440, 1080), (1663, 935));
    assert_eq!(calculate_display_video_size(1, 1, 3, 5), (4, 4));
    assert_eq!(calculate_display_video_size(3, 2, 1, 1), (1, 1));
}

#[test]
fn a_half_rounds_up() {
    // The width is the root of 9 / 4, which is 1.5.
    assert_eq!(calculate_display_video_size(1, 4, 9, 1), (2, 6));
}

#[test]
fn negative_aspect_ratio_gives_nothing() {
    assert_eq!(calculate_display_video_size(-16, 9, 1920, 1080), (0, 0));
    assert_eq!(calculate_display_video_size(16, -9, 1920, 1080), (0, 0));
    assert_eq!(calculate_display_video_size(i32::MIN, 1, 2, 2), (0, 0));
}

#[test]
fn empty_picture_stays_empty() {
    assert_eq!(calculate_display_video_size(16, 9, 0, 1080), (0, 0));
    assert_eq!(calculate_display_video_size(16, 9, 1920, 0), (0, 0));
}

#[test]
fn sides_are_held_at_the_largest_number() {
    assert_eq!(
        calculate_display_video_size(i32::MAX, 1, u32::MAX, u32::MAX),
        (u32::MAX, 92682)
    );
    assert_eq!(
        calculate_display_video_size(i32::MIN, -1, u32::MAX, u32::MAX),
        (u32::MAX, 92682)
    );
    assert_eq!(
        calculate_display_video_size(1, i32::MAX, u32::MAX, u32::MAX),
        (92682, u32::MAX)
    );
}

#[test]
fn agrees_with_the_floating_point_formula() {
    let ratios = [(1, 1), (4, 3), (16, 9), (64, 45), (10, 11), (40, 33), (3, 2), (221, 100)];
    let sides = [1u32, 2, 16, 144, 360, 480, 576, 720, 1080, 1440, 1920, 3840];
    for (dar_x, dar_y) in ratios {
        for x in sides {
            for y in sides {
                assert_eq!(
                    calculate_display_video_size(dar_x, dar_y, x, y),
                    by_floats(dar_x, dar_y, x, y),
                    "{}:{} at {}x{}",
                    dar_x,
                    dar_y,
                    x,
                    y
                );
            }
        }
    }
}
