//! Motion reduction for vestibular disorders.
use vstd::prelude::*;
use crate::text::concat2;

verus! {

/// Animation level.
#[derive(Debug, Clone, Copy, PartialEq, Eq, Structural)]
pub enum AnimationLevel {
    /// All animations enabled
    Full,
    /// Reduced animations
    Reduced,
    /// No animations
    Off,
    /// Essential animations only
    Essential,
}

/// Transition speed.
#[derive(Debug, Clone, Copy, PartialEq, Eq, Structural)]
pub enum TransitionSpeed {
    Normal,
    Slow,
    Fast,
    Instant,
}

/// Parallax effect.
#[derive(Debug, Clone, Copy, PartialEq, Eq, Structural)]
pub enum ParallaxEffect {
    /// Full parallax
    Full,
    /// Reduced parallax
    Reduced,
    /// No parallax
    Off,
}

/// Auto-play media.
#[derive(Debug, Clone, Copy, PartialEq, Eq, Structural)]
pub enum AutoPlayMedia {
    /// Auto-play all
    All,
    /// Auto-play only videos without audio
    VideosWithoutAudio,
    /// No auto-play
    Off,
}

/// Motion reduction settings.
pub struct MotionReduction {
    pub enabled: bool,
    pub animation_level: AnimationLevel,
    pub transition_speed: TransitionSpeed,
    pub parallax: ParallaxEffect,
    pub auto_play: AutoPlayMedia,
    pub reduce_blur: bool,
    pub reduce_transparency: bool,
}

/// The settings that enabling motion reduction applies.
pub open spec fn reduced_settings(m: MotionReduction) -> bool {
    &&& m.animation_level == AnimationLevel::Reduced
    &&& m.transition_speed == TransitionSpeed::Slow
    &&& m.parallax == ParallaxEffect::Reduced
    &&& m.auto_play == AutoPlayMedia::Off
    &&& m.reduce_blur
    &&& m.reduce_transparency
}

/// The settings that disabling motion reduction restores.
pub open spec fn normal_settings(m: MotionReduction) -> bool {
    &&& m.animation_level == AnimationLevel::Full
    &&& m.transition_speed == TransitionSpeed::Normal
    &&& m.parallax == ParallaxEffect::Full
    &&& m.auto_play == AutoPlayMedia::All
    &&& !m.reduce_blur
    &&& !m.reduce_transparency
}

pub open spec fn css_blur(m: MotionReduction) -> Seq<char> {
    if m.reduce_blur { "* { backdrop-filter: none !important; filter: none !important; }\n"@ } else { Seq::empty() }
}

pub open spec fn css_transparency(m: MotionReduction) -> Seq<char> {
    if m.reduce_transparency { "* { opacity: 1 !important; background: rgba(0,0,0,0.9) !important; }\n"@ } else { Seq::empty() }
}

pub open spec fn css_animation(m: MotionReduction) -> Seq<char> {
    match m.animation_level {
        AnimationLevel::Full => Seq::empty(),
        AnimationLevel::Reduced => "* { animation-duration: 0.001ms !important; animation-iteration-count: 1 !important; transition-duration: 0.001ms !important; }\n"@,
        _ => "* { animation: none !important; transition: none !important; }\n"@,
    }
}

pub open spec fn css_transition(m: MotionReduction) -> Seq<char> {
    match m.transition_speed {
        TransitionSpeed::Normal => Seq::empty(),
        TransitionSpeed::Slow => "* { transition-duration: 0.5s !important; }\n"@,
        TransitionSpeed::Fast => "* { transition-duration: 0.1s !important; }\n"@,
        TransitionSpeed::Instant => "* { transition-duration: 0s !important; }\n"@,
    }
}

pub open spec fn css_parallax(m: MotionReduction) -> Seq<char> {
    match m.parallax {
        ParallaxEffect::Full => Seq::empty(),
        ParallaxEffect::Reduced => ".parallax { transform: none !important; }\n"@,
        ParallaxEffect::Off => "* { transform: none !important; perspective: none !important; }\n"@,
    }
}

pub open spec fn css_auto_play(m: MotionReduction) -> Seq<char> {
    match m.auto_play {
        AutoPlayMedia::All => Seq::empty(),
        AutoPlayMedia::VideosWithoutAudio => "video[autoplay][muted] { autoplay: true; } video[autoplay]:not([muted]) { autoplay: false; }\n"@,
        AutoPlayMedia::Off => "video, audio { autoplay: false; }\n"@,
    }
}

/// The CSS of the settings: one rule per setting that departs from normal, in a
/// fixed order.
pub open spec fn motion_css(m: MotionReduction) -> Seq<char> {
    css_blur(m) + css_transparency(m) + css_animation(m) + css_transition(m) + css_parallax(m) + css_auto_play(m)
}

/// Animation duration under a transition speed.
pub open spec fn scaled_duration(speed: TransitionSpeed, normal_ms: u64) -> int {
    match speed {
        TransitionSpeed::Normal => normal_ms as int,
        TransitionSpeed::Slow => normal_ms * 2,
        TransitionSpeed::Fast => (normal_ms / 2) as int,
        TransitionSpeed::Instant => 0int,
    }
}

impl MotionReduction {
    /// Create new motion reduction: disabled, with normal settings.
    pub fn new() -> (m: Self)
        ensures
            !m.enabled,
            normal_settings(m),
    {
        MotionReduction {
            enabled: false,
            animation_level: AnimationLevel::Full,
            transition_speed: TransitionSpeed::Normal,
            parallax: ParallaxEffect::Full,
            auto_play: AutoPlayMedia::All,
            reduce_blur: false,
            reduce_transparency: false,
        }
    }

    /// Enable motion reduction and apply the reduced settings.
    pub fn enable(&mut self)
        ensures
            final(self).enabled,
            reduced_settings(*final(self)),
    {
        self.enabled = true;
        self.apply_reduced_settings();
    }

    /// Disable motion reduction and restore the normal settings.
    pub fn disable(&mut self)
        ensures
            !final(self).enabled,
            normal_settings(*final(self)),
    {
        self.enabled = false;
        self.apply_normal_settings();
    }

    fn apply_reduced_settings(&mut self)
        ensures
            final(self).enabled == old(self).enabled,
            reduced_settings(*final(self)),
    {
        self.animation_level = AnimationLevel::Reduced;
        self.transition_speed = TransitionSpeed::Slow;
        self.parallax = ParallaxEffect::Reduced;
        self.auto_play = AutoPlayMedia::Off;
        self.reduce_blur = true;
        self.reduce_transparency = true;
    }

    fn apply_normal_settings(&mut self)
        ensures
            final(self).enabled == old(self).enabled,
            normal_settings(*final(self)),
    {
        self.animation_level = AnimationLevel::Full;
        self.transition_speed = TransitionSpeed::Normal;
        self.parallax = ParallaxEffect::Full;
        self.auto_play = AutoPlayMedia::All;
        self.reduce_blur = false;
        self.reduce_transparency = false;
    }

    /// Set the animation level; nothing else changes.
    pub fn set_animation_level(&mut self, level: AnimationLevel)
        ensures
            *final(self) == (MotionReduction { animation_level: level, ..*old(self) }),
    {
        self.animation_level = level;
    }

    /// The animation level.
    pub fn animation_level(&self) -> (r: AnimationLevel)
        ensures r == self.animation_level,
    {
        self.animation_level
    }

    /// Set the transition speed; nothing else changes.
    pub fn set_transition_speed(&mut self, speed: TransitionSpeed)
        ensures
            *final(self) == (MotionReduction { transition_speed: speed, ..*old(self) }),
    {
        self.transition_speed = speed;
    }

    /// The transition speed.
    pub fn transition_speed(&self) -> (r: TransitionSpeed)
        ensures r == self.transition_speed,
    {
        self.transition_speed
    }

    /// Set the parallax effect; nothing else changes.
    pub fn set_parallax(&mut self, effect: ParallaxEffect)
        ensures
            *final(self) == (MotionReduction { parallax: effect, ..*old(self) }),
    {
        self.parallax = effect;
    }

    /// The parallax effect.
    pub fn parallax(&self) -> (r: ParallaxEffect)
        ensures r == self.parallax,
    {
        self.parallax
    }

    /// Set what media plays by itself; nothing else changes.
    pub fn set_auto_play(&mut self, auto_play: AutoPlayMedia)
        ensures
            *final(self) == (MotionReduction { auto_play: auto_play, ..*old(self) }),
    {
        self.auto_play = auto_play;
    }

    /// What media plays by itself.
    pub fn auto_play(&self) -> (r: AutoPlayMedia)
        ensures r == self.auto_play,
    {
        self.auto_play
    }

    /// Set whether blur is reduced; nothing else changes.
    pub fn set_reduce_blur(&mut self, reduce: bool)
        ensures
            *final(self) == (MotionReduction { reduce_blur: reduce, ..*old(self) }),
    {
        self.reduce_blur = reduce;
    }

    /// Whether blur is reduced.
    pub fn reduce_blur(&self) -> (r: bool)
        ensures r == self.reduce_blur,
    {
        self.reduce_blur
    }

    /// Set whether transparency is reduced; nothing else changes.
    pub fn set_reduce_transparency(&mut self, reduce: bool)
        ensures
            *final(self) == (MotionReduction { reduce_transparency: reduce, ..*old(self) }),
    {
        self.reduce_transparency = reduce;
    }

    /// Whether transparency is reduced.
    pub fn reduce_transparency(&self) -> (r: bool)
        ensures r == self.reduce_transparency,
    {
        self.reduce_transparency
    }

    /// Check if enabled.
    pub fn is_enabled(&self) -> (b: bool)
        ensures b == self.enabled,
    {
        self.enabled
    }

    /// Generate CSS for motion reduction.
    pub fn to_css(&self) -> (css: String)
        ensures
            css@ == motion_css(*self),
    {
        let mut css = String::new();
        if self.reduce_blur {
            css.append("* { backdrop-filter: none !important; filter: none !important; }\n");
        }
        if self.reduce_transparency {
            css.append("* { opacity: 1 !important; background: rgba(0,0,0,0.9) !important; }\n");
        }
        match self.animation_level {
            AnimationLevel::Full => {},
            AnimationLevel::Reduced => {
                css.append("* { animation-duration: 0.001ms !important; animation-iteration-count: 1 !important; transition-duration: 0.001ms !important; }\n");
            },
            AnimationLevel::Off | AnimationLevel::Essential => {
                css.append("* { animation: none !important; transition: none !important; }\n");
            },
        }
        match self.transition_speed {
            TransitionSpeed::Normal => {},
            TransitionSpeed::Slow => {
                css.append("* { transition-duration: 0.5s !important; }\n");
            },
            TransitionSpeed::Fast => {
                css.append("* { transition-duration: 0.1s !important; }\n");
            },
            TransitionSpeed::Instant => {
                css.append("* { transition-duration: 0s !important; }\n");
            },
        }
        match self.parallax {
            ParallaxEffect::Full => {},
            ParallaxEffect::Reduced => {
                css.append(".parallax { transform: none !important; }\n");
            },
            ParallaxEffect::Off => {
                css.append("* { transform: none !important; perspective: none !important; }\n");
            },
        }
        match self.auto_play {
            AutoPlayMedia::All => {},
            AutoPlayMedia::VideosWithoutAudio => {
                css.append("video[autoplay][muted] { autoplay: true; } video[autoplay]:not([muted]) { autoplay: false; }\n");
            },
            AutoPlayMedia::Off => {
                css.append("video, audio { autoplay: false; }\n");
            },
        }
        assert(css@ =~= motion_css(*self));
        css
    }

    /// Check if should reduce motion.
    pub fn should_reduce(&self) -> (b: bool)
        ensures b == self.enabled,
    {
        self.enabled
    }

    /// Preferred animation duration: doubled when slow, halved when fast, zero when
    /// instant.
    pub fn animation_duration(&self, normal_ms: u64) -> (d: u64)
        requires
            self.transition_speed == TransitionSpeed::Slow ==> normal_ms * 2 <= u64::MAX,
        ensures
            d == scaled_duration(self.transition_speed, normal_ms),
    {
        match self.transition_speed {
            TransitionSpeed::Normal => normal_ms,
            TransitionSpeed::Slow => normal_ms * 2,
            TransitionSpeed::Fast => normal_ms / 2,
            TransitionSpeed::Instant => 0,
        }
    }
}

/// With the normal settings the generated CSS overrides nothing; with the
/// reduced settings it overrides something.
pub proof fn law_css_empty_exactly_when_normal(normal: MotionReduction, reduced: MotionReduction)
    requires
        normal_settings(normal),
        reduced_settings(reduced),
    ensures
        motion_css(normal) == Seq::<char>::empty(),
        motion_css(reduced) != Seq::<char>::empty(),
{
    reveal_strlit("* { backdrop-filter: none !important; filter: none !important; }\n");
    assert(motion_css(normal) =~= Seq::<char>::empty());
    assert(motion_css(reduced).len() > 0);
}

} // verus!
