//! A sprite's catalog of named animations, the animation it is playing, and
//! a builder that assembles one.

use vstd::prelude::*;
use crate::animation::{Animation, AnimationState};
use crate::source::AnimationSource;

verus! {

/// How a sprite's pixels are combined with what is already drawn.
#[derive(Clone, Copy, Debug, PartialEq, Eq, Structural)]
pub enum BlendMode {
    /// Drawn over what is there, without blending.
    Opaque,
    Additive,
    Alpha,
}

/// The animation a catalog holds under `name`: of the animations listed with
/// that name, the last one.
pub open spec fn lookup(animations: Seq<Animation>, name: Seq<char>) -> Option<Animation>
    decreases animations.len(),
{
    if animations.len() == 0 {
        None
    } else if animations.last().name@ == name {
        Some(animations.last())
    } else {
        lookup(animations.drop_last(), name)
    }
}

/// Every animation of the list is well formed.
pub open spec fn all_wf(animations: Seq<Animation>) -> bool {
    forall|i: int| 0 <= i < animations.len() ==> #[trigger] animations[i].wf()
}

/// No two animations of the list share a name.
pub open spec fn unique_names(animations: Seq<Animation>) -> bool {
    forall|i: int, j: int|
        0 <= i < j < animations.len() ==> #[trigger] animations[i].name@ != #[trigger] animations[j].name@
}

/// A name the catalog does not find is the name of none of its animations.
proof fn lemma_lookup_none(s: Seq<Animation>, name: Seq<char>)
    requires
        lookup(s, name) is None,
    ensures
        forall|i: int| 0 <= i < s.len() ==> #[trigger] s[i].name@ != name,
    decreases s.len(),
{
    if s.len() > 0 {
        lemma_lookup_none(s.drop_last(), name);
        assert forall|i: int| 0 <= i < s.len() implies #[trigger] s[i].name@ != name by {
            if i < s.len() - 1 {
                assert(s[i] == s.drop_last()[i]);
            }
        }
    }
}

/// Adding an animation whose name is new puts it in the catalog under that
/// name and leaves every other name as it was.
proof fn lemma_lookup_push(s: Seq<Animation>, a: Animation, name: Seq<char>)
    ensures
        lookup(s.push(a), name) == if name == a.name@ {
            Some(a)
        } else {
            lookup(s, name)
        },
{
    assert(s.push(a).drop_last() =~= s);
}

/// Replacing the animation of a name by another of the same name, in a list
/// of unique names, changes the catalog under that name only.
proof fn lemma_lookup_update(s: Seq<Animation>, i: int, a: Animation, name: Seq<char>)
    requires
        0 <= i < s.len(),
        s[i].name@ == a.name@,
        unique_names(s),
    ensures
        lookup(s.update(i, a), name) == if name == a.name@ {
            Some(a)
        } else {
            lookup(s, name)
        },
    decreases s.len(),
{
    let t = s.update(i, a);
    if i == s.len() - 1 {
        assert(t.drop_last() =~= s.drop_last());
    } else {
        assert(t.drop_last() =~= s.drop_last().update(i, a));
        assert(s.last() == s[s.len() - 1]);
        assert(s[i].name@ != s[s.len() - 1].name@);
        assert(unique_names(s.drop_last())) by {
            assert forall|j: int, k: int| 0 <= j < k < s.drop_last().len() implies
                #[trigger] s.drop_last()[j].name@ != #[trigger] s.drop_last()[k].name@ by {
                assert(s[j].name@ != s[k].name@);
            }
        }
        lemma_lookup_update(s.drop_last(), i, a, name);
    }
}

/// Index of the animation that the catalog holds under `name`.
fn find_animation(animations: &Vec<Animation>, name: &String) -> (r: Option<usize>)
    ensures
        match r {
            None => lookup(animations@, name@) is None,
            Some(i) => {
                &&& i < animations.len()
                &&& animations@[i as int].name@ == name@
                &&& lookup(animations@, name@) == Some(animations@[i as int])
            },
        },
{
    let mut i: usize = animations.len();
    proof {
        assert(animations@.subrange(0, i as int) =~= animations@);
    }
    while i > 0
        invariant
            i <= animations.len(),
            lookup(animations@, name@) == lookup(animations@.subrange(0, i as int), name@),
        decreases i,
    {
        let ghost prefix = animations@.subrange(0, i as int);
        proof {
            assert(prefix.drop_last() =~= animations@.subrange(0, i - 1));
        }
        if animations[i - 1].name == *name {
            return Some(i - 1);
        }
        i = i - 1;
    }
    None
}

/// Adds `animation` to the catalog, replacing the one of the same name.
fn insert_animation(animations: &mut Vec<Animation>, animation: Animation)
    requires
        unique_names(old(animations)@),
    ensures
        unique_names(final(animations)@),
        all_wf(old(animations)@) && animation.wf() ==> all_wf(final(animations)@),
        forall|name: Seq<char>|
            #[trigger] lookup(final(animations)@, name) == if name == animation.name@ {
                Some(animation)
            } else {
                lookup(old(animations)@, name)
            },
{
    let ghost before = animations@;
    match find_animation(animations, &animation.name) {
        Some(i) => {
            proof {
                assert forall|name: Seq<char>| #[trigger] lookup(before.update(i as int, animation), name)
                    == if name == animation.name@ { Some(animation) } else { lookup(before, name) } by {
                    lemma_lookup_update(before, i as int, animation, name);
                }
            }
            animations.set(i, animation);
            proof {
                assert(animations@ == before.update(i as int, animation));
                assert forall|j: int, k: int| 0 <= j < k < animations@.len() implies
                    #[trigger] animations@[j].name@ != #[trigger] animations@[k].name@ by {
                    assert(before[j].name@ != before[k].name@);
                }
            }
        },
        None => {
            proof {
                lemma_lookup_none(before, animation.name@);
                assert forall|name: Seq<char>| #[trigger] lookup(before.push(animation), name)
                    == if name == animation.name@ { Some(animation) } else { lookup(before, name) } by {
                    lemma_lookup_push(before, animation, name);
                }
            }
            animations.push(animation);
            proof {
                assert(animations@ == before.push(animation));
                assert forall|j: int, k: int| 0 <= j < k < animations@.len() implies
                    #[trigger] animations@[j].name@ != #[trigger] animations@[k].name@ by {
                    if k < before.len() {
                        assert(before[j].name@ != before[k].name@);
                    } else {
                        assert(before[j].name@ != animation.name@);
                    }
                }
            }
        },
    }
}

/// Adds each of `items` in turn to the catalog: afterwards it holds under
/// each name what the list `old + items` holds.
fn insert_all(animations: &mut Vec<Animation>, items: &Vec<Animation>)
    requires
        unique_names(old(animations)@),
    ensures
        unique_names(final(animations)@),
        all_wf(old(animations)@) && all_wf(items@) ==> all_wf(final(animations)@),
        forall|name: Seq<char>|
            #[trigger] lookup(final(animations)@, name) == lookup(old(animations)@ + items@, name),
{
    let ghost before = animations@;
    let mut k: usize = 0;
    proof {
        assert(before + items@.subrange(0, 0) =~= before);
    }
    while k < items.len()
        invariant
            k <= items.len(),
            unique_names(animations@),
            all_wf(before) && all_wf(items@) ==> all_wf(animations@),
            forall|name: Seq<char>|
                #[trigger] lookup(animations@, name) == lookup(before + items@.subrange(0, k as int), name),
        decreases items.len() - k,
    {
        let ghost prev = animations@;
        let item = items[k].clone();
        proof {
            if all_wf(items@) {
                assert(items@[k as int].wf());
            }
        }
        insert_animation(animations, item);
        proof {
            let longer = before + items@.subrange(0, k + 1);
            assert(longer.drop_last() =~= before + items@.subrange(0, k as int));
            assert(longer.last() == items@[k as int]);
            assert forall|name: Seq<char>| #[trigger] lookup(animations@, name) == lookup(longer, name) by {
                assert(lookup(animations@, name) == if name == item.name@ { Some(item) } else { lookup(prev, name) });
            }
        }
        k = k + 1;
    }
    proof {
        assert(items@.subrange(0, k as int) =~= items@);
    }
}

/// Whether every animation of the list is well formed and no two share a
/// name.
pub fn catalog_is_valid(animations: &Vec<Animation>) -> (r: bool)
    ensures
        r == (all_wf(animations@) && unique_names(animations@)),
{
    let mut j: usize = 0;
    while j < animations.len()
        invariant
            j <= animations.len(),
            forall|i: int| 0 <= i < j ==> #[trigger] animations@[i].wf(),
            forall|a: int, b: int| 0 <= a < b < j ==>
                #[trigger] animations@[a].name@ != #[trigger] animations@[b].name@,
        decreases animations.len() - j,
    {
        if !animations[j].is_valid() {
            return false;
        }
        let mut i: usize = 0;
        while i < j
            invariant
                i <= j < animations.len(),
                forall|a: int| 0 <= a < i ==> #[trigger] animations@[a].name@ != animations@[j as int].name@,
            decreases j - i,
        {
            if animations[i].name == animations[j].name {
                return false;
            }
            i = i + 1;
        }
        j = j + 1;
    }
    true
}

/// A sprite that plays one of its named animations.
#[derive(Debug)]
pub struct AnimatedSprite {
    /// The catalog, one animation per name.
    pub animations: Vec<Animation>,
    pub state: AnimationState,
    pub z_index: i32,
    pub flip_x: bool,
    pub flip_y: bool,
    pub blend_mode: BlendMode,
    /// Whether the sprite goes away once a one-shot animation has finished.
    pub despawn_on_finish: bool,
}

impl AnimatedSprite {
    /// The playback state and every animation of the catalog are well
    /// formed, and no two animations share a name.
    pub open spec fn wf(&self) -> bool {
        self.state.wf() && all_wf(self.animations@) && unique_names(self.animations@)
    }

    /// Whether the sprite is well formed.
    pub fn is_valid(&self) -> (r: bool)
        ensures
            r == self.wf(),
    {
        self.state.is_valid() && catalog_is_valid(&self.animations)
    }

    /// The animation the catalog holds under `name`.
    pub open spec fn catalog(&self, name: Seq<char>) -> Option<Animation> {
        lookup(self.animations@, name)
    }

    /// Switches to the animation named `animation_name`. Nothing changes when
    /// the catalog has no such animation, or when it is the one already
    /// playing, whose clock keeps running; otherwise playback restarts from
    /// the first frame of the new animation.
    pub fn play(&mut self, animation_name: &str)
        requires
            old(self).wf(),
        ensures
            final(self).wf(),
            match old(self).catalog(animation_name@) {
                None => *final(self) == *old(self),
                Some(a) => if a.name@ == old(self).state.animation_name@ {
                    *final(self) == *old(self)
                } else {
                    *final(self) == (AnimatedSprite { state: a.initial_state(), ..*old(self) })
                },
            },
    {
        let key = String::from_str(animation_name);
        if let Some(i) = find_animation(&self.animations, &key) {
            if self.animations[i].name != self.state.animation_name {
                proof {
                    assert(self.animations@[i as int].wf());
                }
                self.state = self.animations[i].to_state();
            }
        }
    }

    /// Replaces the catalog with `animations`, the last of each name
    /// winning, and restarts playback from the first of them, whatever was
    /// playing before.
    pub fn set_animations(&mut self, animations: Vec<Animation>)
        requires
            old(self).wf(),
            animations.len() > 0,
            all_wf(animations@),
        ensures
            final(self).wf(),
            *final(self) == (AnimatedSprite {
                animations: final(self).animations,
                state: animations@[0].initial_state(),
                ..*old(self)
            }),
            forall|name: Seq<char>| #[trigger] final(self).catalog(name) == lookup(animations@, name),
    {
        proof {
            assert(animations@[0].wf());
        }
        self.state = animations[0].to_state();
        let mut catalog: Vec<Animation> = Vec::new();
        proof {
            assert(catalog@ + animations@ =~= animations@);
        }
        insert_all(&mut catalog, &animations);
        self.animations = catalog;
    }

    /// The same sprite with another blend mode.
    pub fn with_blend_mode(self, blend_mode: BlendMode) -> (r: Self)
        ensures
            r == (AnimatedSprite { blend_mode, ..self }),
    {
        AnimatedSprite { blend_mode, ..self }
    }
}

/// Assembles an [`AnimatedSprite`]. The first animation added becomes the
/// one that plays first.
#[derive(Debug)]
pub struct AnimatedSpriteBuilder {
    pub animations: Vec<Animation>,
    pub state: Option<AnimationState>,
    pub z_index: i32,
    pub flip_x: bool,
    pub flip_y: bool,
    pub blend_mode: BlendMode,
    pub despawn_on_finish: bool,
}

impl AnimatedSpriteBuilder {
    /// The playback state, once there is one, and every animation are well
    /// formed, and no two animations share a name.
    pub open spec fn wf(&self) -> bool {
        &&& (self.state matches Some(s) ==> s.wf())
        &&& all_wf(self.animations@)
        &&& unique_names(self.animations@)
    }

    /// Whether the builder is well formed.
    pub fn is_valid(&self) -> (r: bool)
        ensures
            r == self.wf(),
    {
        let state_ok = match &self.state {
            Some(s) => s.is_valid(),
            None => true,
        };
        state_ok && catalog_is_valid(&self.animations)
    }

    /// No animations, default drawing options, and removal once a one-shot
    /// animation has finished.
    pub fn new() -> (r: Self)
        ensures
            r.wf(),
            r.animations@.len() == 0,
            r.state is None,
            r.z_index == 0,
            !r.flip_x,
            !r.flip_y,
            r.blend_mode == BlendMode::Opaque,
            r.despawn_on_finish,
    {
        AnimatedSpriteBuilder {
            animations: Vec::new(),
            state: None,
            z_index: 0,
            flip_x: false,
            flip_y: false,
            blend_mode: BlendMode::Opaque,
            despawn_on_finish: true,
        }
    }

    pub fn z_index(self, z_index: i32) -> (r: Self)
        ensures
            r == (AnimatedSpriteBuilder { z_index, ..self }),
    {
        AnimatedSpriteBuilder { z_index, ..self }
    }

    pub fn flip_x(self, flip_x: bool) -> (r: Self)
        ensures
            r == (AnimatedSpriteBuilder { flip_x, ..self }),
    {
        AnimatedSpriteBuilder { flip_x, ..self }
    }

    pub fn flip_y(self, flip_y: bool) -> (r: Self)
        ensures
            r == (AnimatedSpriteBuilder { flip_y, ..self }),
    {
        AnimatedSpriteBuilder { flip_y, ..self }
    }

    pub fn blend_mode(self, blend_mode: BlendMode) -> (r: Self)
        ensures
            r == (AnimatedSpriteBuilder { blend_mode, ..self }),
    {
        AnimatedSpriteBuilder { blend_mode, ..self }
    }

    pub fn despawn_on_finish(self, despawn_on_finish: bool) -> (r: Self)
        ensures
            r == (AnimatedSpriteBuilder { despawn_on_finish, ..self }),
    {
        AnimatedSpriteBuilder { despawn_on_finish, ..self }
    }

    /// Adds `animations` to a builder that has no playing animation yet; the
    /// first of them plays first, and of animations of one name the last one
    /// stays.
    pub fn with_animations(self, animations: Vec<Animation>) -> (r: Self)
        requires
            self.wf(),
            self.state is None,
            animations.len() > 0,
            all_wf(animations@),
        ensures
            r.wf(),
            r == (AnimatedSpriteBuilder {
                animations: r.animations,
                state: Some(animations@[0].initial_state()),
                ..self
            }),
            forall|name: Seq<char>|
                #[trigger] lookup(r.animations@, name) == lookup(self.animations@ + animations@, name),
    {
        let mut b = self;
        proof {
            assert(animations@[0].wf());
        }
        b.state = Some(animations[0].to_state());
        insert_all(&mut b.animations, &animations);
        b
    }

    /// Adds `animation` to the catalog, replacing the one of the same name;
    /// it plays first if it is the first.
    pub fn add_anim(self, animation: Animation) -> (r: Self)
        requires
            self.wf(),
            animation.wf(),
        ensures
            r.wf(),
            r == (AnimatedSpriteBuilder {
                animations: r.animations,
                state: match self.state {
                    None => Some(animation.initial_state()),
                    Some(s) => Some(s),
                },
                ..self
            }),
            forall|name: Seq<char>|
                #[trigger] lookup(r.animations@, name) == if name == animation.name@ {
                    Some(animation)
                } else {
                    lookup(self.animations@, name)
                },
    {
        let mut b = self;
        if b.state.is_none() {
            b.state = Some(animation.to_state());
        }
        insert_animation(&mut b.animations, animation);
        b
    }

    /// Adds an animation named `name` whose frames last `frame_time`
    /// microseconds each, replacing the one of the same name.
    pub fn add_animation(
        self,
        name: &str,
        frame_time: u64,
        looping: bool,
        source: AnimationSource,
    ) -> (r: AnimatedSpriteBuilder)
        requires
            self.wf(),
            source.wf(),
            frame_time > 0,
        ensures
            r.wf(),
            lookup(r.animations@, name@) is Some,
            lookup(r.animations@, name@)->0.name@ == name@,
            lookup(r.animations@, name@)->0.source == source,
            lookup(r.animations@, name@)->0.looping == looping,
            lookup(r.animations@, name@)->0.frame_time == frame_time,
            forall|other: Seq<char>|
                other != name@ ==> #[trigger] lookup(r.animations@, other) == lookup(
                    self.animations@,
                    other,
                ),
            r == (AnimatedSpriteBuilder {
                animations: r.animations,
                state: match self.state {
                    None => Some(lookup(r.animations@, name@)->0.initial_state()),
                    Some(s) => Some(s),
                },
                ..self
            }),
    {
        let animation = Animation { name: String::from_str(name), frame_time, looping, source };
        self.add_anim(animation)
    }

    /// Sets the clock of the animation that plays first to `timer`
    /// microseconds.
    pub fn with_timer(self, timer: u64) -> (r: Self)
        requires
            self.wf(),
            self.state is Some,
        ensures
            r.wf(),
            r == (AnimatedSpriteBuilder {
                state: Some(AnimationState { timer, ..self.state->0 }),
                ..self
            }),
    {
        let mut b = self;
        let state = b.state.take().unwrap();
        b.state = Some(state.with_timer(timer));
        b
    }

    /// The sprite, playing the first animation that was added.
    pub fn build(self) -> (r: AnimatedSprite)
        requires
            self.wf(),
            self.state is Some,
        ensures
            r.wf(),
            r.animations == self.animations,
            r.state == self.state->0,
            r.z_index == self.z_index,
            r.flip_x == self.flip_x,
            r.flip_y == self.flip_y,
            r.blend_mode == self.blend_mode,
            r.despawn_on_finish == self.despawn_on_finish,
    {
        let state = self.state.unwrap();
        AnimatedSprite {
            animations: self.animations,
            state,
            z_index: self.z_index,
            flip_x: self.flip_x,
            flip_y: self.flip_y,
            blend_mode: self.blend_mode,
            despawn_on_finish: self.despawn_on_finish,
        }
    }
}

} // verus!
