use light_game::palette::{cycled_color, pick_color, random_color};

fn colors() -> Vec<[f32; 3]> {
    vec![
        [0.85, 0.33, 0.04],
        [0.23, 0.85, 0.09],
        [0.85, 0.06, 0.2],
        [0.09, 0.7, 0.7],
        [0.85, 0.06, 0.06],
    ]
}

#[test]
fn lights_take_the_palette_in_order() {
    let palette = colors();
    for i in 0..5 {
        assert_eq!(cycled_color(&palette, i), palette[i]);
    }
}

#[test]
fn palette_starts_again_when_it_runs_out() {
    let palette = colors();
    assert_eq!(cycled_color(&palette, 5), palette[0]);
    assert_eq!(cycled_color(&palette, 7), palette[2]);
    assert_eq!(cycled_color(&palette, 1004), palette[4]);
}

#[test]
fn random_color_comes_from_the_palette() {
    let palette = colors();
    for _ in 0..200 {
        let c = random_color(&palette);
        assert!(palette.contains(&c));
    }
}

#[test]
fn random_color_of_a_single_colour_palette() {
    assert_eq!(random_color(&vec![7u8]), 7);
}

#[test]
fn random_color_reaches_more_than_the_last_colour() {
    let palette: Vec<usize> = (0..4).collect();
    let mut seen = [false; 4];
    for _ in 0..400 {
        seen[random_color(&palette)] = true;
    }
    assert!(seen.iter().filter(|&&s| s).count() > 1);
}

#[test]
fn colours_repeat_a_palette_length_apart() {
    let palette = colors();
    for i in 0..20 {
        assert_eq!(cycled_color(&palette, i + palette.len()), cycled_color(&palette, i));
    }
}

#[test]
fn picking_an_index_gives_that_colour() {
    let palette = colors();
    for i in 0..palette.len() {
        assert_eq!(pick_color(&palette, i), palette[i]);
    }
}
