use hypnagogic_core::icon::{Icon, IconState};
use hypnagogic_core::raster::{channel_count, Raster};
use hypnagogic_core::util::color::{colors_in_image, Color};
use hypnagogic_core::util::icon_ops::dedupe_frames;

fn solid(width: u32, height: u32, color: [u8; 4]) -> Raster {
    let mut data = Vec::new();
    for _ in 0..(width * height) {
        data.extend_from_slice(&color);
    }
    Raster::new(width, height, data).unwrap()
}

fn state(dirs: u8, frames: u32, images: Vec<Raster>, delay: Option<Vec<u32>>) -> IconState {
    IconState { name: "state".to_string(), dirs, frames, images, delay, rewind: false }
}

#[test]
fn raster_needs_four_channels_per_pixel() {
    assert!(Raster::new(2, 3, vec![0; 24]).is_some());
    assert!(Raster::new(2, 3, vec![0; 23]).is_none());
    assert!(Raster::new(2, 3, vec![0; 25]).is_none());
    assert!(Raster::new(0, 3, vec![]).is_some());
    assert!(Raster::new(0, 0, vec![1]).is_none());
    assert!(Raster::new(u32::MAX, u32::MAX, vec![]).is_none());
    let raster = Raster::new(2, 1, vec![1, 2, 3, 4, 5, 6, 7, 8]).unwrap();
    assert_eq!(raster.width(), 2);
    assert_eq!(raster.height(), 1);
    assert_eq!(raster.data(), &vec![1, 2, 3, 4, 5, 6, 7, 8]);
    assert_eq!(channel_count(3, 5), 60);
    assert_eq!(channel_count(u32::MAX, u32::MAX), 4 * (u32::MAX as u128) * (u32::MAX as u128));
}

#[test]
fn rasters_compare_by_size_and_pixels() {
    let a = solid(2, 2, [1, 2, 3, 4]);
    let b = solid(2, 2, [1, 2, 3, 4]);
    let c = solid(2, 2, [1, 2, 3, 5]);
    let d = solid(4, 1, [1, 2, 3, 4]);
    assert!(a.same_as(&b));
    assert!(!a.same_as(&c));
    assert!(!a.same_as(&d));
    assert!(a.same_as(&a.clone()));
    assert_eq!(a, b);
    assert_ne!(a, d);
}

#[test]
fn dedupe_collapses_static_animation() {
    let img = solid(2, 2, [9, 9, 9, 255]);
    let input = state(
        1,
        4,
        vec![img.clone(), img.clone(), img.clone(), img.clone()],
        Some(vec![1000, 1000, 1000, 1000]),
    );
    let output = dedupe_frames(input);
    assert_eq!(output.frames, 1);
    assert_eq!(output.images, vec![img]);
    assert_eq!(output.delay, Some(vec![4000]));
    assert_eq!(output.dirs, 1);
    assert_eq!(output.name, "state");
    assert!(!output.rewind);
}

#[test]
fn dedupe_folds_only_neighbouring_repeats() {
    let a = solid(1, 1, [1, 0, 0, 255]);
    let b = solid(1, 1, [2, 0, 0, 255]);
    let input = state(
        1,
        6,
        vec![a.clone(), a.clone(), b.clone(), a.clone(), a.clone(), a.clone()],
        Some(vec![1, 2, 3, 4, 5, 6]),
    );
    let output = dedupe_frames(input);
    assert_eq!(output.frames, 3);
    assert_eq!(output.images, vec![a.clone(), b, a]);
    assert_eq!(output.delay, Some(vec![3, 3, 15]));
}

#[test]
fn dedupe_compares_whole_frames_of_all_directions() {
    let a = solid(1, 1, [1, 0, 0, 255]);
    let b = solid(1, 1, [2, 0, 0, 255]);
    let input = state(
        2,
        3,
        vec![a.clone(), b.clone(), a.clone(), b.clone(), a.clone(), a.clone()],
        Some(vec![10, 20, 30]),
    );
    let output = dedupe_frames(input);
    assert_eq!(output.frames, 2);
    assert_eq!(output.images, vec![a.clone(), b, a.clone(), a]);
    assert_eq!(output.delay, Some(vec![30, 30]));
    assert_eq!(output.dirs, 2);
}

#[test]
fn dedupe_passes_still_states_through() {
    let a = solid(1, 1, [1, 0, 0, 255]);
    let one_frame = state(1, 1, vec![a.clone()], Some(vec![5]));
    assert_eq!(dedupe_frames(one_frame.clone()), one_frame);
    let no_delay = state(1, 2, vec![a.clone(), a.clone()], None);
    assert_eq!(dedupe_frames(no_delay.clone()), no_delay);
    let nothing = state(1, 0, vec![], Some(vec![]));
    assert_eq!(dedupe_frames(nothing.clone()), nothing);
}

#[test]
fn dedupe_stops_at_the_shorter_of_delays_and_frames() {
    let a = solid(1, 1, [1, 0, 0, 255]);
    let b = solid(1, 1, [2, 0, 0, 255]);
    let c = solid(1, 1, [3, 0, 0, 255]);
    let few_delays = state(1, 3, vec![a.clone(), b.clone(), c.clone()], Some(vec![1, 2]));
    let output = dedupe_frames(few_delays);
    assert_eq!(output.frames, 2);
    assert_eq!(output.images, vec![a.clone(), b.clone()]);
    assert_eq!(output.delay, Some(vec![1, 2]));
    let few_images = state(2, 3, vec![a.clone(), b.clone(), c.clone()], Some(vec![1, 2, 3]));
    let output = dedupe_frames(few_images);
    assert_eq!(output.frames, 1);
    assert_eq!(output.images, vec![a, b]);
    assert_eq!(output.delay, Some(vec![1]));
}

#[test]
fn dedupe_is_idempotent() {
    let a = solid(1, 1, [1, 0, 0, 255]);
    let b = solid(1, 1, [2, 0, 0, 255]);
    let input = state(
        1,
        7,
        vec![a.clone(), a.clone(), b.clone(), b.clone(), b.clone(), a.clone(), b.clone()],
        Some(vec![1, 1, 2, 2, 2, 3, 4]),
    );
    let once = dedupe_frames(input);
    let twice = dedupe_frames(once.clone());
    assert_eq!(once.delay, Some(vec![2, 6, 3, 4]));
    assert_eq!(once, twice);
}

#[test]
fn icons_know_whether_they_are_well_formed() {
    let a = solid(2, 2, [1, 0, 0, 255]);
    let good = Icon {
        width: 2,
        height: 2,
        states: vec![
            state(1, 2, vec![a.clone(), a.clone()], Some(vec![1, 2])),
            state(4, 1, vec![a.clone(), a.clone(), a.clone(), a.clone()], None),
        ],
    };
    assert!(good.is_well_formed());
    let wrong_size = Icon { width: 3, height: 2, states: vec![state(1, 1, vec![a.clone()], None)] };
    assert!(!wrong_size.is_well_formed());
    let two_dirs =
        Icon { width: 2, height: 2, states: vec![state(2, 1, vec![a.clone(), a.clone()], None)] };
    assert!(two_dirs.is_well_formed());
    let no_dirs = Icon { width: 2, height: 2, states: vec![state(0, 3, vec![], None)] };
    assert!(no_dirs.is_well_formed());
    let wrong_count =
        Icon { width: 2, height: 2, states: vec![state(1, 2, vec![a.clone()], None)] };
    assert!(!wrong_count.is_well_formed());
    let wrong_delays =
        Icon { width: 2, height: 2, states: vec![state(1, 1, vec![a.clone()], Some(vec![]))] };
    assert!(!wrong_delays.is_well_formed());
    assert!(Icon { width: 2, height: 2, states: vec![] }.is_well_formed());
    assert!(state(1, 1, vec![a.clone()], None).is_well_formed(2, 2));
    assert!(!state(1, 1, vec![a], None).is_well_formed(2, 3));
}

#[test]
fn colors_are_listed_once_in_order_of_appearance() {
    let image = Raster::new(
        3,
        2,
        vec![1, 2, 3, 4, 9, 9, 9, 9, 1, 2, 3, 4, 0, 0, 0, 0, 9, 9, 9, 9, 1, 2, 3, 5],
    )
    .unwrap();
    assert_eq!(
        colors_in_image(&image),
        vec![
            Color::new(1, 2, 3, 4),
            Color::new(9, 9, 9, 9),
            Color::new(0, 0, 0, 0),
            Color::new(1, 2, 3, 5)
        ]
    );
    assert_eq!(colors_in_image(&Raster::new(0, 5, vec![]).unwrap()), vec![]);
    assert_eq!(Color::new(1, 2, 3, 4), Color { red: 1, green: 2, blue: 3, alpha: 4 });
}
