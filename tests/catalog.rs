use sprite_anim::animation::Animation;
use sprite_anim::geometry::ivec2;
use sprite_anim::source::AnimationSource;
use sprite_anim::sprite::{catalog_is_valid, AnimatedSprite, AnimatedSpriteBuilder, BlendMode};

fn anim(name: &str, frames: i32, frame_time: u64) -> Animation {
    Animation {
        name: name.to_string(),
        source: AnimationSource::Files { prefix: name.to_string(), frames },
        looping: true,
        frame_time,
    }
}

fn walk_idle() -> AnimatedSprite {
    AnimatedSpriteBuilder::new()
        .with_animations(vec![anim("walk", 4, 100_000), anim("idle", 2, 500_000)])
        .build()
}

#[test]
fn builder_defaults() {
    let b = AnimatedSpriteBuilder::new();
    assert!(b.animations.is_empty());
    assert!(b.state.is_none());
    assert_eq!(b.z_index, 0);
    assert!(!b.flip_x && !b.flip_y);
    assert_eq!(b.blend_mode, BlendMode::Opaque);
    assert!(b.despawn_on_finish);
}

#[test]
fn builder_options() {
    let s = AnimatedSpriteBuilder::new()
        .z_index(7)
        .flip_x(true)
        .flip_y(true)
        .blend_mode(BlendMode::Additive)
        .despawn_on_finish(false)
        .add_anim(anim("walk", 4, 100_000))
        .build();
    assert_eq!(s.z_index, 7);
    assert!(s.flip_x && s.flip_y);
    assert_eq!(s.blend_mode, BlendMode::Additive);
    assert!(!s.despawn_on_finish);
    let s = s.with_blend_mode(BlendMode::Alpha);
    assert_eq!(s.blend_mode, BlendMode::Alpha);
}

#[test]
fn first_added_animation_plays_first() {
    let s = AnimatedSpriteBuilder::new()
        .add_anim(anim("walk", 4, 100_000))
        .add_animation("idle", 500_000, false, AnimationSource::Files {
            prefix: "idle".to_string(),
            frames: 2,
        })
        .build();
    assert_eq!(s.state.animation_name, "walk");
    assert_eq!(s.animations.len(), 2);
    assert_eq!(s.animations[1].name, "idle");
    assert_eq!(s.animations[1].frame_time, 500_000);
    assert!(!s.animations[1].looping);
}

#[test]
fn builder_timer_applies_to_first_animation() {
    let s = AnimatedSpriteBuilder::new()
        .add_animation("walk", 100_000, true, AnimationSource::Atlas {
            name: "atlas".to_string(),
            offset: ivec2(0, 0),
            step: ivec2(16, 0),
            size: ivec2(16, 16),
            frames: 4,
        })
        .with_timer(250_000)
        .build();
    assert_eq!(s.state.timer, 250_000);
    assert_eq!(s.state.animation_name, "walk");
}

#[test]
fn play_switches_and_restarts() {
    let mut s = walk_idle();
    s.state.update_and_finished(350_000);
    s.play("idle");
    assert_eq!(s.state.animation_name, "idle");
    assert_eq!(s.state.timer, 0);
    assert_eq!(s.state.current_frame, 0);
    assert_eq!(s.state.interval, 500_000);
}

#[test]
fn play_current_keeps_clock() {
    let mut s = walk_idle();
    s.state.update_and_finished(350_000);
    s.play("walk");
    assert_eq!(s.state.animation_name, "walk");
    assert_eq!(s.state.timer, 350_000);
    assert_eq!(s.state.current_frame, 3);
}

#[test]
fn play_unknown_changes_nothing() {
    let mut s = walk_idle();
    s.state.update_and_finished(120_000);
    let before = format!("{:?}", s);
    s.play("run");
    assert_eq!(format!("{:?}", s), before);
}

#[test]
fn later_animation_shadows_same_name() {
    let mut s = AnimatedSpriteBuilder::new()
        .add_anim(anim("walk", 4, 100_000))
        .add_anim(anim("jump", 2, 100_000))
        .add_anim(anim("jump", 6, 50_000))
        .build();
    assert_eq!(s.animations.len(), 2);
    assert!(s.is_valid());
    s.play("jump");
    assert_eq!(s.state.interval, 50_000);
    assert_eq!(s.state.source.frames(), 6);
}

#[test]
fn set_animations_resets_to_first() {
    let mut s = walk_idle();
    s.state.update_and_finished(350_000);
    s.set_animations(vec![anim("walk", 8, 40_000), anim("run", 3, 10_000)]);
    assert_eq!(s.state.animation_name, "walk");
    assert_eq!(s.state.timer, 0);
    assert_eq!(s.state.interval, 40_000);
    assert_eq!(s.animations.len(), 2);
    s.play("idle");
    assert_eq!(s.state.animation_name, "walk");
    s.play("run");
    assert_eq!(s.state.animation_name, "run");
}


#[test]
fn set_animations_keeps_last_of_each_name() {
    let mut s = walk_idle();
    s.set_animations(vec![anim("a", 2, 10_000), anim("b", 2, 20_000), anim("a", 3, 30_000)]);
    assert_eq!(s.animations.len(), 2);
    assert_eq!(s.state.animation_name, "a");
    assert_eq!(s.state.interval, 10_000);
    s.play("b");
    s.play("a");
    assert_eq!(s.state.interval, 30_000);
}

#[test]
fn with_animations_keeps_last_of_each_name() {
    let b = AnimatedSpriteBuilder::new()
        .with_animations(vec![anim("x", 2, 10_000), anim("x", 4, 20_000)]);
    assert_eq!(b.animations.len(), 1);
    assert_eq!(b.animations[0].frame_time, 20_000);
    assert_eq!(b.state.as_ref().unwrap().interval, 10_000);
    assert!(b.is_valid());
}

#[test]
fn catalog_validity() {
    assert!(catalog_is_valid(&vec![anim("a", 1, 1), anim("b", 1, 1)]));
    assert!(!catalog_is_valid(&vec![anim("a", 1, 1), anim("a", 1, 1)]));
    assert!(!catalog_is_valid(&vec![anim("a", 0, 1)]));
    assert!(!catalog_is_valid(&vec![anim("a", 1, 0)]));
    let mut s = walk_idle();
    assert!(s.is_valid());
    s.animations.push(anim("walk", 1, 1));
    assert!(!s.is_valid());
    assert!(!AnimatedSpriteBuilder::new().add_anim(anim("a", 1, 1)).with_timer(5).build().animations.is_empty());
}
