use frontier::assets::{
    animate, animate_frames, building_frame, flash_red, frame_indices, rotate, spin, Animated,
    AtlasRect, Color, Flashing, GameAssetsPlugin, Rotate, Sprite, SpriteDesc, BUILDING_CHICKENS,
    BUILDING_DOGS, BUILDING_EMPTY, BUILDING_LEANS_CHICKENS, BUILDING_LEANS_DOGS, FULL_TURN,
};
use frontier::geometry::Point;
use frontier::prelude::{Animation, DamageFlash};
use frontier::timer::Timer;

fn sprite(index: usize) -> Sprite {
    Sprite { index, color: Color::Green, flip_x: false, flip_y: false, custom_size: None }
}

fn walking() -> Animation {
    Animation {
        current_frame: 0,
        frames: vec![10, 11, 12],
        alt_frames: Some(vec![20, 21]),
        playing_alt: false,
        playing: true,
        flip_x: true,
        flip_y: false,
        timer: Timer::new(100_000, true),
    }
}

#[test]
fn spinning_things_turn_at_their_speed() {
    assert_eq!(spin(0, 1_000_000), 5_100_000);
    assert_eq!(spin(0, 16_667), 85_001);
    assert_eq!(spin(6_000_000, 1_000_000), 6_000_000 + 5_100_000 - 6_283_185);
    assert_eq!(spin(7, 0), 7);
    assert!(spin(u32::MAX, u32::MAX) < FULL_TURN);
    let mut things = vec![Rotate { angle: 0 }, Rotate { angle: 6_283_184 }];
    rotate(&mut things, 100_000);
    assert_eq!(things, vec![Rotate { angle: 510_000 }, Rotate { angle: 509_999 }]);
}

#[test]
fn animation_shows_the_next_picture_when_its_timer_runs_out() {
    let mut s = sprite(0);
    let mut a = walking();
    animate(&mut s, &mut a, 99_999);
    assert_eq!((a.current_frame, s.index), (0, 10));
    assert!(s.flip_x);
    animate(&mut s, &mut a, 1);
    assert_eq!((a.current_frame, s.index), (1, 11));
    animate(&mut s, &mut a, 100_000);
    assert_eq!((a.current_frame, s.index), (2, 12));
    animate(&mut s, &mut a, 100_000);
    assert_eq!((a.current_frame, s.index), (0, 10));
}

#[test]
fn second_strip_plays_once_and_hands_back() {
    let mut s = sprite(0);
    let mut a = walking();
    a.playing = false;
    a.playing_alt = true;
    animate(&mut s, &mut a, 1);
    assert_eq!((a.current_frame, s.index), (0, 20));
    animate(&mut s, &mut a, 100_000);
    assert_eq!((a.current_frame, s.index), (1, 21));
    animate(&mut s, &mut a, 100_000);
    assert_eq!((a.current_frame, s.index), (0, 10));
    assert!(!a.playing_alt);
    let timer = a.timer;
    animate(&mut s, &mut a, 100_000);
    assert_eq!(a.timer, timer);
}

#[test]
fn still_animation_only_turns_the_picture_over() {
    let mut s = sprite(99);
    let mut a = walking();
    a.playing = false;
    a.flip_y = true;
    a.flip_x = true;
    animate(&mut s, &mut a, 1_000_000);
    assert_eq!(s, Sprite { flip_y: true, ..sprite(99) });
    assert_eq!(a.current_frame, 0);
    assert_eq!(a.timer, Timer::new(100_000, true));
}

#[test]
fn all_animations_are_played() {
    let mut graphics = vec![
        Animated { sprite: sprite(0), animation: walking() },
        Animated { sprite: sprite(0), animation: Animation { current_frame: 2, ..walking() } },
    ];
    animate_frames(&mut graphics, 100_000);
    assert_eq!(graphics[0].sprite.index, 11);
    assert_eq!(graphics[1].sprite.index, 10);
    let mut spinning = vec![Rotate { angle: 1 }];
    GameAssetsPlugin.update(&mut spinning, &mut graphics, 100_000);
    assert_eq!(spinning[0].angle, 510_001);
    assert_eq!(graphics[0].sprite.index, 12);
    assert_eq!(graphics[1].sprite.index, 11);
}

#[test]
fn what_was_hit_is_red_until_its_flash_runs_out() {
    let hit = DamageFlash { timer: Timer::new(100_000, true) };
    let calm = DamageFlash { timer: Timer::new(0, false) };
    let mut sprites =
        vec![Flashing { sprite: sprite(1), flash: hit }, Flashing { sprite: sprite(2), flash: calm }];
    flash_red(&mut sprites, 0);
    assert_eq!(sprites[0].sprite.color, Color::Red);
    assert_eq!(sprites[1].sprite.color, Color::Red);
    assert!(sprites[1].flash.timer.finished());
    flash_red(&mut sprites, 60_000);
    assert_eq!(sprites[0].sprite.color, Color::Red);
    assert_eq!(sprites[1].sprite.color, Color::White);
    flash_red(&mut sprites, 40_000);
    assert_eq!(sprites[0].sprite.color, Color::Red);
    assert!(sprites[0].flash.timer.finished());
    GameAssetsPlugin.post_update(&mut sprites, 40_000);
    assert_eq!(sprites[0].sprite.color, Color::White);
    assert_eq!(sprites[0].flash.timer.remaining(), 100_000);
}

#[test]
fn building_shows_how_the_capture_stands() {
    assert_eq!(building_frame(-1_000_000, 7), BUILDING_DOGS);
    assert_eq!(building_frame(-900_000, 7), BUILDING_DOGS);
    assert_eq!(building_frame(-899_999, 7), 7);
    assert_eq!(building_frame(-500_001, 7), 7);
    assert_eq!(building_frame(-500_000, 7), BUILDING_LEANS_DOGS);
    assert_eq!(building_frame(-150_001, 7), BUILDING_LEANS_DOGS);
    assert_eq!(building_frame(-150_000, 7), BUILDING_EMPTY);
    assert_eq!(building_frame(0, 7), BUILDING_EMPTY);
    assert_eq!(building_frame(150_000, 7), BUILDING_EMPTY);
    assert_eq!(building_frame(150_001, 7), BUILDING_LEANS_CHICKENS);
    assert_eq!(building_frame(500_000, 7), BUILDING_LEANS_CHICKENS);
    assert_eq!(building_frame(500_001, 7), 7);
    assert_eq!(building_frame(899_999, 7), 7);
    assert_eq!(building_frame(900_000, 7), BUILDING_CHICKENS);
    assert_eq!(building_frame(1_000_000, 7), BUILDING_CHICKENS);
    assert_eq!(
        (BUILDING_DOGS, BUILDING_EMPTY, BUILDING_CHICKENS, BUILDING_LEANS_DOGS, BUILDING_LEANS_CHICKENS),
        (0, 1, 2, 3, 4)
    );
}

#[test]
fn pictures_are_cut_a_little_inside_their_place() {
    let desc = SpriteDesc { pos: (10_000_000, 20_000_000), size: (64_000_000, 32_000_000) };
    assert_eq!(
        desc.to_atlas_rect(),
        AtlasRect { min: (10_150_000, 20_150_000), max: (73_850_000, 51_850_000) }
    );
    assert_eq!(desc.custom_size(), Point::new(320_000, 160_000));
    let edge = SpriteDesc { pos: (i32::MAX, i32::MIN), size: (i32::MAX, -199) };
    assert_eq!(
        edge.to_atlas_rect(),
        AtlasRect {
            min: (i32::MAX as i64 + 150_000, i32::MIN as i64 + 150_000),
            max: (2 * (i32::MAX as i64) - 150_000, i32::MIN as i64 - 199 - 150_000),
        }
    );
    assert_eq!(edge.custom_size(), Point::new(i32::MAX / 200, 0));
}

#[test]
fn strips_list_the_places_of_their_pictures() {
    assert_eq!(frame_indices(&vec![sprite(5), sprite(3), sprite(5)]), vec![5, 3, 5]);
    assert_eq!(frame_indices(&Vec::new()), Vec::<usize>::new());
}
