//! Tier definitions. A tier is policy only: one pipeline executes all of them.

use vstd::prelude::*;

verus! {

#[derive(Debug, Clone, Copy, PartialEq, Eq, Structural)]
pub enum Tier {
    /// Byte-exact reversible. Lepton, oxipng, zstd, whole-file dedup.
    Move,
    /// Irreversible, quality-gated to visually lossless.
    DeepMove,
    /// Irreversible, visible on close inspection. Opt-in.
    DeepMovePlus,
}

/// How photos are treated. Perceptual floors are in whole SSIMULACRA2
/// points.
#[derive(Debug, Clone, Copy, PartialEq, Eq, Structural)]
pub enum PhotoPolicy {
    /// Bit-exact recode; original bytes reconstructable.
    Lossless,
    /// Re-encode, verified against a perceptual floor.
    Perceptual { min_ssimulacra2: u32 },
}

/// How videos are treated. Quality floors are in whole VMAF points.
#[derive(Debug, Clone, Copy, PartialEq, Eq, Structural)]
pub enum VideoPolicy {
    /// Store as-is. The only correct action for HEVC/AV1 sources in Move.
    Passthrough,
    Transcode {
        min_vmaf: u32,
        max_height: Option<u32>,
        /// Re-encode audio to Opus at this bitrate.
        opus_audio_kbps: Option<u32>,
    },
}

#[derive(Debug, Clone, Copy, PartialEq, Eq, Structural)]
pub struct Policy {
    pub tier: Tier,
    pub photo: PhotoPolicy,
    pub video: VideoPolicy,
    pub dedup: bool,
    pub retain_originals_days: u32,
}

/// The policy each tier stands for.
pub open spec fn tier_policy(t: Tier) -> Policy {
    match t {
        Tier::Move => Policy {
            tier: t,
            photo: PhotoPolicy::Lossless,
            video: VideoPolicy::Passthrough,
            dedup: true,
            retain_originals_days: 0,
        },
        Tier::DeepMove => Policy {
            tier: t,
            photo: PhotoPolicy::Perceptual { min_ssimulacra2: 90 },
            video: VideoPolicy::Transcode {
                min_vmaf: 95,
                max_height: None,
                opus_audio_kbps: Some(64),
            },
            dedup: true,
            retain_originals_days: 14,
        },
        Tier::DeepMovePlus => Policy {
            tier: t,
            photo: PhotoPolicy::Perceptual { min_ssimulacra2: 82 },
            video: VideoPolicy::Transcode {
                min_vmaf: 90,
                max_height: Some(1080),
                opus_audio_kbps: Some(48),
            },
            dedup: true,
            retain_originals_days: 14,
        },
    }
}

/// The photo floor a policy sets; zero when nothing is re-encoded lossily.
pub open spec fn photo_floor(p: PhotoPolicy) -> u32 {
    match p {
        PhotoPolicy::Lossless => 0,
        PhotoPolicy::Perceptual { min_ssimulacra2 } => min_ssimulacra2,
    }
}

/// The video floor a policy sets; zero when nothing is transcoded.
pub open spec fn video_floor(v: VideoPolicy) -> u32 {
    match v {
        VideoPolicy::Passthrough => 0,
        VideoPolicy::Transcode { min_vmaf, .. } => min_vmaf,
    }
}

/// A tier is policy only: one pipeline executes all of them. A tier that
/// can be undone byte for byte touches nothing lossily and needs no kept
/// originals; the others keep originals for a fortnight, and the opt-in
/// tier accepts lower quality floors than Deep Move.
pub proof fn law_tier_policy(t: Tier)
    ensures
        tier_policy(t).tier == t,
        tier_policy(t).dedup,
        (t == Tier::Move) <==> (tier_policy(t).photo == PhotoPolicy::Lossless && tier_policy(
            t,
        ).video == VideoPolicy::Passthrough),
        (t == Tier::Move) <==> tier_policy(t).retain_originals_days == 0,
        photo_floor(tier_policy(Tier::DeepMovePlus).photo) < photo_floor(
            tier_policy(Tier::DeepMove).photo,
        ),
        video_floor(tier_policy(Tier::DeepMovePlus).video) < video_floor(
            tier_policy(Tier::DeepMove).video,
        ),
{
}

/// The tallest video a policy keeps; `None` when it caps nothing.
pub open spec fn height_cap(v: VideoPolicy) -> Option<u32> {
    match v {
        VideoPolicy::Passthrough => None,
        VideoPolicy::Transcode { max_height, .. } => max_height,
    }
}

/// The Opus bitrate a policy re-encodes audio at; `None` when it keeps it.
pub open spec fn audio_rate(v: VideoPolicy) -> Option<u32> {
    match v {
        VideoPolicy::Passthrough => None,
        VideoPolicy::Transcode { opus_audio_kbps, .. } => opus_audio_kbps,
    }
}

/// Only the opt-in tier shrinks a video's frame: Move and Deep Move, the
/// visually lossless tier, keep every video at its own resolution, and
/// Deep Move+ caps it at 1080 lines. Both lossy tiers re-encode audio to
/// Opus, the opt-in one at a lower bitrate.
pub proof fn law_only_the_opt_in_tier_downscales(t: Tier)
    ensures
        (height_cap(tier_policy(t).video) is Some) <==> t == Tier::DeepMovePlus,
        height_cap(tier_policy(t).video) matches Some(h) ==> h == 1080,
        (audio_rate(tier_policy(t).video) is Some) <==> t != Tier::Move,
        audio_rate(tier_policy(Tier::DeepMovePlus).video)->Some_0 < audio_rate(
            tier_policy(Tier::DeepMove).video,
        )->Some_0,
{
}

pub open spec fn tier_label(t: Tier) -> Seq<char> {
    match t {
        Tier::Move => "Move"@,
        Tier::DeepMove => "Deep Move"@,
        Tier::DeepMovePlus => "Deep Move+"@,
    }
}

impl Tier {
    /// What this tier does to photos and videos, and what it keeps.
    pub fn policy(self) -> (p: Policy)
        ensures
            p == tier_policy(self),
    {
        match self {
            Tier::Move => Policy {
                tier: self,
                photo: PhotoPolicy::Lossless,
                video: VideoPolicy::Passthrough,
                dedup: true,
                retain_originals_days: 0,
            },
            Tier::DeepMove => Policy {
                tier: self,
                photo: PhotoPolicy::Perceptual { min_ssimulacra2: 90 },
                video: VideoPolicy::Transcode {
                    min_vmaf: 95,
                    max_height: None,
                    opus_audio_kbps: Some(64),
                },
                dedup: true,
                retain_originals_days: 14,
            },
            Tier::DeepMovePlus => Policy {
                tier: self,
                photo: PhotoPolicy::Perceptual { min_ssimulacra2: 82 },
                video: VideoPolicy::Transcode {
                    min_vmaf: 90,
                    max_height: Some(1080),
                    opus_audio_kbps: Some(48),
                },
                dedup: true,
                retain_originals_days: 14,
            },
        }
    }

    pub fn label(self) -> (r: &'static str)
        ensures
            r@ == tier_label(self),
    {
        match self {
            Tier::Move => "Move",
            Tier::DeepMove => "Deep Move",
            Tier::DeepMovePlus => "Deep Move+",
        }
    }

    /// Only `Move` is byte-exact reversible.
    pub fn reversible(self) -> (r: bool)
        ensures
            r == (self == Tier::Move),
    {
        match self {
            Tier::Move => true,
            _ => false,
        }
    }

    /// Every tier, in order of how much each gives up.
    pub fn all() -> (r: [Tier; 3])
        ensures
            r@ == seq![Tier::Move, Tier::DeepMove, Tier::DeepMovePlus],
    {
        [Tier::Move, Tier::DeepMove, Tier::DeepMovePlus]
    }
}

} // verus!
