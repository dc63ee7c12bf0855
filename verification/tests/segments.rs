use walk_the_dog::engine::{Cell, ImageElement, Point, Rect, Sheet, SheetRect, SpriteSheet};
use walk_the_dog::game::obstacles::AnyObstacle;
use walk_the_dog::segments::{
    create_floating_platform, platform_and_stone, rightmost, segments_usable,
    stone_and_platform,
};

const TILES_IMAGE: ImageElement = ImageElement { id: 2, width: 1024, height: 1024 };

fn sheet_of_width(width: i16) -> Sheet {
    let mut sheet = Sheet::new();
    for name in ["13.png", "14.png", "15.png"] {
        sheet.insert(
            name.to_string(),
            Cell {
                frame: SheetRect { x: 0, y: 0, w: width, h: 93 },
                sprite_source_size: SheetRect { x: 0, y: 0, w: width, h: 93 },
            },
        );
    }
    sheet
}

fn tiles_of_width(width: i16) -> SpriteSheet {
    SpriteSheet::new(sheet_of_width(width), TILES_IMAGE)
}

fn stone(width: u32, height: u32) -> ImageElement {
    ImageElement { id: 3, width, height }
}

fn boxes(obstacle: &AnyObstacle) -> Vec<Rect> {
    match obstacle {
        AnyObstacle::Barrier(barrier) => vec![*barrier.image().bounding_box()],
        AnyObstacle::Platform(platform) => platform.bounding_boxes().clone(),
    }
}

/// The obstacles stand side by side: each ends before the next begins.
fn assert_in_a_row(segment: &Vec<AnyObstacle>) {
    for (i, first) in segment.iter().enumerate() {
        for second in segment.iter().skip(i + 1) {
            for a in boxes(first) {
                for b in boxes(second) {
                    assert!(
                        i32::from(a.x()) + i32::from(a.width) <= i32::from(b.x()),
                        "{:?} reaches past {:?}",
                        a,
                        b
                    );
                }
            }
        }
    }
}

fn assert_no_overlap(segment: &Vec<AnyObstacle>) {
    assert_in_a_row(segment);
    for (i, first) in segment.iter().enumerate() {
        for (j, second) in segment.iter().enumerate() {
            if i != j {
                for a in boxes(first) {
                    for b in boxes(second) {
                        assert!(!a.intersects(&b), "{:?} overlaps {:?}", a, b);
                    }
                }
            }
        }
    }
}

#[test]
fn floating_platform_has_two_caps_and_a_middle() {
    let platform = create_floating_platform(&tiles_of_width(128), Point { x: 370, y: 420 });
    assert_eq!(
        platform.bounding_boxes(),
        &vec![
            Rect::new_from_x_y(370, 420, 60, 54),
            Rect::new_from_x_y(430, 420, 264, 93),
            Rect::new_from_x_y(694, 420, 60, 54),
        ]
    );
    assert_eq!(platform.position(), Point { x: 370, y: 420 });
    assert_eq!(platform.sprites().len(), 3);
    assert_eq!(platform.right(), 754);
}

#[test]
fn stone_and_platform_is_laid_out_from_the_offset() {
    let segment = stone_and_platform(stone(50, 54), &tiles_of_width(128), 1000);
    assert_eq!(segment.len(), 2);
    assert_eq!(boxes(&segment[0]), vec![Rect::new_from_x_y(1150, 546, 50, 54)]);
    assert_eq!(
        boxes(&segment[1]),
        vec![
            Rect::new_from_x_y(1370, 420, 60, 54),
            Rect::new_from_x_y(1430, 420, 264, 93),
            Rect::new_from_x_y(1694, 420, 60, 54),
        ]
    );
    assert!(matches!(segment[0], AnyObstacle::Barrier(_)));
    assert!(matches!(segment[1], AnyObstacle::Platform(_)));
    assert_eq!(rightmost(&segment), 1754);
}

#[test]
fn platform_and_stone_is_laid_out_from_the_offset() {
    let segment = platform_and_stone(stone(50, 54), &tiles_of_width(128), -100);
    assert_eq!(segment.len(), 2);
    assert_eq!(
        boxes(&segment[0]),
        vec![
            Rect::new_from_x_y(100, 375, 60, 54),
            Rect::new_from_x_y(160, 375, 264, 93),
            Rect::new_from_x_y(424, 375, 60, 54),
        ]
    );
    assert_eq!(boxes(&segment[1]), vec![Rect::new_from_x_y(500, 546, 50, 54)]);
    assert_eq!(rightmost(&segment), 550);
}

#[test]
fn wide_stone_pushes_the_platform_along() {
    let segment = stone_and_platform(stone(220, 54), &tiles_of_width(128), 0);
    assert_eq!(boxes(&segment[1])[0].x(), 370);
    let segment = stone_and_platform(stone(221, 54), &tiles_of_width(128), 0);
    assert_eq!(boxes(&segment[0]), vec![Rect::new_from_x_y(150, 546, 221, 54)]);
    assert_eq!(boxes(&segment[1])[0].x(), 371);
    assert_eq!(rightmost(&segment), 371 + 384);
    let segment = stone_and_platform(stone(1000, 54), &tiles_of_width(128), 100);
    assert_eq!(boxes(&segment[1])[0], Rect::new_from_x_y(1250, 420, 60, 54));
    assert_in_a_row(&segment);
}

#[test]
fn segments_never_overlap() {
    let tiles = tiles_of_width(128);
    for offset in [-3000, -1, 0, 20, 774, 1019, 3000] {
        for (width, height) in [(0, 0), (50, 54), (300, 1), (4000, 4000), (1, 4000)] {
            let first = stone_and_platform(stone(width, height), &tiles, offset);
            assert_no_overlap(&first);
            let second = platform_and_stone(stone(width, height), &tiles, offset);
            assert_no_overlap(&second);
            for segment in [&first, &second] {
                assert!(rightmost(segment) >= offset);
                for obstacle in segment.iter() {
                    for rect in boxes(obstacle) {
                        assert!(rect.x() >= offset);
                        assert!(rect.right() <= rightmost(segment));
                    }
                }
            }
        }
    }
}

#[test]
fn segments_far_out_do_not_overlap() {
    let tiles = tiles_of_width(128);
    for (width, height) in [(0, 0), (50, 54)] {
        for offset in [-32768, -32000, 30000, 32073] {
            let first = stone_and_platform(stone(width, height), &tiles, offset);
            assert_no_overlap(&first);
            assert_eq!(boxes(&first[1])[2].x(), offset + 694);
        }
    }
    for offset in [-32768, -32000, -474] {
        let first = stone_and_platform(stone(32767, 32767), &tiles, offset);
        assert_no_overlap(&first);
        assert_eq!(boxes(&first[1])[2].x(), offset + 150 + 32767 + 324);
    }
    for (width, height) in [(0, 0), (50, 54), (32767, 32767)] {
        for offset in [-32768, 30000, 32167] {
            let second = platform_and_stone(stone(width, height), &tiles, offset);
            assert_no_overlap(&second);
            assert_eq!(boxes(&second[0])[2].x(), offset + 524);
            assert_eq!(boxes(&second[1])[0].x(), offset + 600);
        }
    }
}

#[test]
fn rightmost_is_the_largest_right_edge() {
    assert_eq!(rightmost(&Vec::new()), 0);
    // a stone that reaches beyond the platform
    let segment = stone_and_platform(stone(1000, 54), &tiles_of_width(128), 0);
    assert_eq!(rightmost(&segment), 1150 + 384);
    let segment = platform_and_stone(stone(1000, 54), &tiles_of_width(128), 0);
    assert_eq!(rightmost(&segment), 1600);
    // obstacles that have scrolled out of sight
    let mut segment = stone_and_platform(stone(50, 54), &tiles_of_width(128), -900);
    assert_eq!(rightmost(&segment), -146);
    segment.pop();
    assert_eq!(rightmost(&segment), -700);
}

#[test]
fn segments_fit_where_their_places_are_representable() {
    let tiles = sheet_of_width(128);
    assert!(segments_usable(&stone(50, 54), &tiles, 0));
    assert!(segments_usable(&stone(50, 54), &tiles, 1019));
    assert!(segments_usable(&stone(0, 0), &Sheet::new(), 1019));
    assert!(!segments_usable(&stone(50, 54), &tiles, -1));
    // the horizon is at 32763; a stone ends 600 + its width into a segment
    assert!(segments_usable(&stone(31144, 32767), &tiles, 1019));
    assert!(!segments_usable(&stone(31145, 54), &tiles, 1019));
    assert!(segments_usable(&stone(31145, 54), &tiles, 1018));
    assert!(!segments_usable(&stone(50, 32768), &tiles, 0));
    // a platform ends 370 + 384 into a segment
    assert!(segments_usable(&stone(50, 54), &tiles, 32763 - 754));
    assert!(!segments_usable(&stone(50, 54), &tiles, 32763 - 753));
    // the sprites of a platform are drawn side by side from 370 on
    assert!(segments_usable(&stone(50, 54), &sheet_of_width(10459), 1019));
    assert!(!segments_usable(&stone(50, 54), &sheet_of_width(10460), 1019));
    assert!(segments_usable(&stone(50, 54), &sheet_of_width(0), 1019));
    assert!(!segments_usable(&stone(50, 54), &sheet_of_width(-1), 1019));
    // a sprite that the sheet lacks takes no room
    let mut sheet = Sheet::new();
    sheet.insert(
        "15.png".to_string(),
        Cell {
            frame: SheetRect { x: 0, y: 0, w: 31378, h: 93 },
            sprite_source_size: SheetRect { x: 0, y: 0, w: 31378, h: 93 },
        },
    );
    assert!(segments_usable(&stone(50, 54), &sheet, 1019));
    assert!(!segments_usable(&stone(50, 54), &sheet, 1020));
    // a wide stone pushes the platform along
    assert!(!segments_usable(&stone(1000, 54), &sheet, 1019));
    assert!(segments_usable(&stone(1000, 54), &sheet, 1019 - 780));
}
