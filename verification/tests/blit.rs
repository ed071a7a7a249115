use std::rc::Rc;

use engine2d::animation::{Animation, AnimationData};
use engine2d::blit::blend_pixel;
use engine2d::objects::{Color, Rect, Vec2};
use engine2d::screen::Screen;
use engine2d::sprite::{DrawSpriteExt, Sprite};
use engine2d::texture::Texture;

/// A texture whose pixel `(x, y)` is `[x, y, x + y, alpha]`.
fn gradient(width: usize, height: usize, alpha: u8) -> Texture {
    let mut bytes = Vec::new();
    for y in 0..height {
        for x in 0..width {
            bytes.extend_from_slice(&[x as u8, y as u8, (x + y) as u8, alpha]);
        }
    }
    Texture::new(width, height, bytes).unwrap()
}

fn px(buf: &[u8], width: usize, x: usize, y: usize) -> Color {
    let at = (y * width + x) * 4;
    [buf[at], buf[at + 1], buf[at + 2], buf[at + 3]]
}

#[test]
fn texture_new_checks_the_length() {
    assert!(Texture::new(2, 3, vec![0; 24]).is_some());
    assert!(Texture::new(2, 3, vec![0; 23]).is_none());
    assert!(Texture::new(2, 3, vec![0; 25]).is_none());
    assert!(Texture::new(0, 0, vec![]).is_some());
    assert!(Texture::new(usize::MAX, 0, vec![]).is_none());
    assert!(Texture::new(usize::MAX, usize::MAX, vec![0; 4]).is_none());
}

#[test]
fn texture_accessors() {
    let t = gradient(3, 2, 255);
    assert_eq!(t.width(), 3);
    assert_eq!(t.height(), 2);
    assert_eq!(t.size(), (3, 2));
    assert_eq!(t.depth(), 4);
    assert_eq!(t.pitch(), 12);
    assert_eq!(t.buffer().len(), 24);
    assert_eq!(t.get_pixel(2, 1), [2, 1, 3, 255]);
    assert_eq!(&t.buffer()[20..24], &[2, 1, 3, 255]);
}

#[test]
fn texture_contains_boxes_inside_it() {
    let t = gradient(4, 3, 255);
    assert!(t.contains(&Rect::new(0, 0, 4, 3)));
    assert!(t.contains(&Rect::new(1, 1, 3, 2)));
    assert!(t.contains(&Rect::new(3, 2, 1, 1)));
    assert!(t.contains(&Rect::new(3, 2, 0, 0)));
    // A box that starts past the last column or row is no box of the
    // texture, though it is empty.
    assert!(!t.contains(&Rect::new(4, 0, 0, 0)));
    assert!(!t.contains(&Rect::new(0, 3, 0, 0)));
    assert!(!t.contains(&Rect::new(4, 3, 0, 0)));
    assert!(!Texture::new(0, 0, vec![]).unwrap().contains(&Rect::new(0, 0, 0, 0)));
    assert!(!t.contains(&Rect::new(1, 1, 4, 2)));
    assert!(!t.contains(&Rect::new(1, 1, 3, 3)));
    assert!(!t.contains(&Rect::new(-1, 0, 2, 2)));
    assert!(!t.contains(&Rect::new(0, -1, 2, 2)));
    assert!(!t.contains(&Rect::new(0, 0, -1, 2)));
    assert!(!t.contains(&Rect::new(i32::MAX, 0, i32::MAX, 1)));
}

#[test]
fn blend_opaque_source_replaces() {
    assert_eq!(blend_pixel([10, 20, 30, 255], [200, 100, 50, 7]), [10, 20, 30, 255]);
    assert_eq!(blend_pixel([0, 0, 0, 255], [255, 255, 255, 255]), [0, 0, 0, 255]);
}

#[test]
fn blend_transparent_source_keeps() {
    assert_eq!(blend_pixel([0, 0, 0, 0], [200, 100, 50, 7]), [200, 100, 50, 7]);
}

#[test]
fn blend_half_transparent_source() {
    // What is left of the destination is v * 127 / 255, rounded to nearest.
    assert_eq!(blend_pixel([10, 20, 30, 128], [100, 101, 102, 255]), [60, 70, 81, 255]);
    assert_eq!(blend_pixel([0, 0, 0, 128], [1, 2, 3, 0]), [0, 1, 1, 128]);
    assert_eq!(blend_pixel([5, 5, 5, 64], [255, 0, 128, 64]), [196, 5, 101, 112]);
}

#[test]
fn blend_saturates() {
    assert_eq!(blend_pixel([250, 255, 200, 0], [10, 255, 55, 255]), [255, 255, 255, 255]);
    assert_eq!(blend_pixel([200, 200, 200, 100], [200, 200, 200, 200]), [255, 255, 255, 222]);
}

#[test]
fn bitblt_opaque_overwrites_whatever_was_there() {
    let t = gradient(4, 4, 255);
    let mut a = vec![0u8; 6 * 6 * 4];
    let mut b = vec![0u8; 6 * 6 * 4];
    for (i, v) in b.iter_mut().enumerate() {
        *v = (i * 37 % 251) as u8;
    }
    Screen::wrap(&mut a, 6, 6, 4).bitblt(&t, Rect::new(1, 1, 2, 3), Vec2::new(2, 2));
    Screen::wrap(&mut b, 6, 6, 4).bitblt(&t, Rect::new(1, 1, 2, 3), Vec2::new(2, 2));
    for y in 2..5 {
        for x in 2..4 {
            let expected = [(x - 1) as u8, (y - 1) as u8, (x + y - 2) as u8, 255];
            assert_eq!(px(&a, 6, x, y), expected);
            assert_eq!(px(&b, 6, x, y), expected);
        }
    }
}

#[test]
fn bitblt_leaves_the_rest_alone() {
    let t = gradient(4, 4, 255);
    let mut buf = vec![9u8; 6 * 6 * 4];
    Screen::wrap(&mut buf, 6, 6, 4).bitblt(&t, Rect::new(0, 0, 2, 2), Vec2::new(3, 1));
    for y in 0..6 {
        for x in 0..6 {
            let inside = (3..5).contains(&x) && (1..3).contains(&y);
            if !inside {
                assert_eq!(px(&buf, 6, x, y), [9, 9, 9, 9]);
            }
        }
    }
    assert_eq!(px(&buf, 6, 4, 2), [1, 1, 2, 255]);
}

#[test]
fn bitblt_composites_translucent_pixels() {
    let t = Texture::new(1, 1, vec![10, 20, 30, 128]).unwrap();
    let mut buf = vec![0u8; 2 * 1 * 4];
    buf[4..8].copy_from_slice(&[100, 101, 102, 255]);
    Screen::wrap(&mut buf, 2, 1, 4).bitblt(&t, Rect::new(0, 0, 1, 1), Vec2::new(1, 0));
    assert_eq!(buf, vec![0, 0, 0, 0, 60, 70, 81, 255]);
}

#[test]
fn bitblt_is_clipped_at_every_border() {
    let t = gradient(4, 4, 255);
    let mut buf = vec![0u8; 3 * 3 * 4];
    Screen::wrap(&mut buf, 3, 3, 4).bitblt(&t, Rect::new(0, 0, 4, 4), Vec2::new(-2, -1));
    // Screen (x, y) shows texture (x + 2, y + 1).
    assert_eq!(px(&buf, 3, 0, 0), [2, 1, 3, 255]);
    assert_eq!(px(&buf, 3, 1, 2), [3, 3, 6, 255]);
    assert_eq!(px(&buf, 3, 2, 0), [0, 0, 0, 0]);
    let mut buf = vec![0u8; 3 * 3 * 4];
    Screen::wrap(&mut buf, 3, 3, 4).bitblt(&t, Rect::new(0, 0, 4, 4), Vec2::new(2, 1));
    assert_eq!(px(&buf, 3, 2, 1), [0, 0, 0, 255]);
    assert_eq!(px(&buf, 3, 2, 2), [0, 1, 1, 255]);
    assert_eq!(px(&buf, 3, 1, 1), [0, 0, 0, 0]);
}

#[test]
fn bitblt_outside_the_screen_changes_nothing() {
    let t = gradient(4, 4, 255);
    let mut buf = vec![0u8; 5 * 5 * 4];
    for (i, v) in buf.iter_mut().enumerate() {
        *v = (i % 256) as u8;
    }
    let before = buf.clone();
    let mut screen = Screen::wrap(&mut buf, 5, 5, 4);
    let from = Rect::new(0, 0, 4, 4);
    screen.bitblt(&t, from, Vec2::new(5, 0));
    screen.bitblt(&t, from, Vec2::new(0, 5));
    screen.bitblt(&t, from, Vec2::new(-4, 0));
    screen.bitblt(&t, from, Vec2::new(0, -4));
    screen.bitblt(&t, from, Vec2::new(-100, 100));
    screen.bitblt(&t, from, Vec2::new(i32::MAX, i32::MAX));
    screen.bitblt(&t, from, Vec2::new(i32::MIN, i32::MIN));
    screen.bitblt(&t, Rect::new(2, 2, 0, 2), Vec2::new(1, 1));
    assert_eq!(buf, before);
}

fn one_frame(r: Rect) -> Rc<AnimationData> {
    Rc::new(AnimationData { frames: vec![(r, 1)], looping: false })
}

#[test]
fn sprite_draws_its_current_frame_at_its_position() {
    let texture = Rc::new(gradient(4, 4, 255));
    let clip = Rc::new(AnimationData {
        frames: vec![(Rect::new(0, 0, 2, 2), 1), (Rect::new(2, 2, 2, 2), 1)],
        looping: true,
    });
    let mut sprite = Sprite::new(&texture, Animation::new(&clip), Vec2::new(1, 1));
    assert!(sprite.is_drawable());
    let mut buf = vec![0u8; 4 * 4 * 4];
    Screen::wrap(&mut buf, 4, 4, 4).draw_sprite(&sprite);
    assert_eq!(px(&buf, 4, 1, 1), [0, 0, 0, 255]);
    assert_eq!(px(&buf, 4, 2, 2), [1, 1, 2, 255]);
    assert_eq!(px(&buf, 4, 0, 0), [0, 0, 0, 0]);
    assert_eq!(px(&buf, 4, 3, 3), [0, 0, 0, 0]);

    sprite.animation.animate();
    sprite.position = Vec2::new(0, 2);
    let mut buf = vec![0u8; 4 * 4 * 4];
    Screen::wrap(&mut buf, 4, 4, 4).draw_sprite(&sprite);
    assert_eq!(px(&buf, 4, 0, 2), [2, 2, 4, 255]);
    assert_eq!(px(&buf, 4, 1, 3), [3, 3, 6, 255]);
    assert_eq!(px(&buf, 4, 1, 1), [0, 0, 0, 0]);
}

#[test]
fn sprite_shares_its_texture() {
    let texture = Rc::new(gradient(2, 2, 255));
    let clip = one_frame(Rect::new(0, 0, 2, 2));
    let a = Sprite::new(&texture, Animation::new(&clip), Vec2::new(0, 0));
    let b = Sprite::new(&texture, Animation::new(&clip), Vec2::new(5, 5));
    assert_eq!(Rc::strong_count(&texture), 3);
    assert!(Rc::ptr_eq(&a.image, &b.image));
    assert_eq!(Rc::strong_count(&clip), 3);
}

#[test]
fn sprite_with_a_frame_outside_its_texture_is_not_drawable() {
    let texture = Rc::new(gradient(2, 2, 255));
    let clip = one_frame(Rect::new(1, 1, 2, 2));
    let sprite = Sprite::new(&texture, Animation::new(&clip), Vec2::new(0, 0));
    assert!(!sprite.is_drawable());
}

#[test]
fn sprite_set_animation_switches_the_clip() {
    let texture = Rc::new(gradient(4, 4, 255));
    let walk = Rc::new(AnimationData {
        frames: vec![(Rect::new(0, 0, 1, 1), 2), (Rect::new(1, 0, 1, 1), 2)],
        looping: true,
    });
    let jump = one_frame(Rect::new(3, 3, 1, 1));
    let mut sprite = Sprite::new(&texture, Animation::new(&walk), Vec2::new(0, 0));
    sprite.animation.animate();
    sprite.animation.animate();
    assert_eq!(sprite.animation.get_current_frame(), Rect::new(1, 0, 1, 1));
    sprite.set_animation(&walk, false);
    assert_eq!(sprite.animation.get_current_frame(), Rect::new(1, 0, 1, 1));
    sprite.set_animation(&jump, false);
    assert_eq!(sprite.animation.get_current_frame(), Rect::new(3, 3, 1, 1));
    sprite.set_animation(&walk, true);
    assert_eq!(sprite.animation.get_current_frame(), Rect::new(0, 0, 1, 1));
    assert_eq!(sprite.position, Vec2::new(0, 0));
}
