//! Behaviour switches ("quirks") that differ between CHIP-8 interpreters,
//! and the profiles of the interpreters that the device can imitate.

use vstd::prelude::*;

verus! {

/// Quirks for the Chip-8 device
#[derive(Debug, Clone, Copy, PartialEq, Eq, Structural)]
pub struct Quirks {
    /// Quirk: Some programs expect VF to be 0 (Octo: compat-logic)
    pub vf_zero: bool,
    /// Quirk: Some programs expect I to be incremented when performing
    /// certain operations (Octo: compat-load)
    pub i_incremented: bool,
    /// Quirk: Some programs expect VX to be shifted directly without
    /// assigning VY (Octo: compat-shift)
    pub vx_shifted_directly: bool,
    /// Quirk: Wait for the display to finish drawing before continuing,
    /// caps drawing at 60 sprites per second. Not implemented
    /// (Octo: compat-vblank)
    pub v_blank: bool,
    /// Quirk: Clip sprites vertically to the display, instead of wrapping
    /// around the edges (Octo: compat-clip)
    pub clip_sprites: bool,
    /// Quirk: The 4 high bits of target address determines the offset
    /// register instead of V0 (Octo: compat-jump0)
    pub jump_bits: bool,
}

/// The quirks of the Octo default: every switch off.
pub open spec fn no_quirks() -> Quirks {
    Quirks {
        vf_zero: false,
        i_incremented: false,
        vx_shifted_directly: false,
        v_blank: false,
        clip_sprites: false,
        jump_bits: false,
    }
}

impl Quirks {
    /// The quirks of the Octo default: every switch off.
    pub open spec fn default_spec() -> Quirks {
        no_quirks()
    }
}

impl Default for Quirks {
    fn default() -> (quirks: Self)
        ensures
            quirks == no_quirks(),
    {
        Quirks {
            vf_zero: false,
            i_incremented: false,
            vx_shifted_directly: false,
            v_blank: false,
            clip_sprites: false,
            jump_bits: false,
        }
    }
}

/// The interpreters whose behaviour the device can imitate.
#[derive(Debug, Clone, Copy, PartialEq, Eq, Structural)]
pub enum CompatibilityDevice {
    /// Also the Octo default
    Default,
    Chip8,
    SuperChip,
}

impl Default for CompatibilityDevice {
    fn default() -> (device: Self)
        ensures
            device == CompatibilityDevice::Default,
    {
        CompatibilityDevice::Default
    }
}

/// An interpreter and the quirks it has.
#[derive(Debug, Clone, Copy, PartialEq, Eq, Structural)]
pub struct CompatibilityProfile {
    pub device: CompatibilityDevice,
    pub quirks: Quirks,
}

impl Default for CompatibilityProfile {
    fn default() -> (profile: Self)
        ensures
            profile.device == CompatibilityDevice::Default,
            profile.quirks == no_quirks(),
    {
        CompatibilityProfile { device: CompatibilityDevice::default(), quirks: Quirks::default() }
    }
}

/// The locale key of an interpreter.
pub open spec fn device_name_key(device: CompatibilityDevice) -> Seq<char> {
    match device {
        CompatibilityDevice::Default => "default"@,
        CompatibilityDevice::Chip8 => "chip8"@,
        CompatibilityDevice::SuperChip => "super_chip"@,
    }
}

/// The profiles, in the order in which they are matched.
pub open spec fn profiles() -> Seq<CompatibilityProfile> {
    seq![
        CompatibilityProfile { device: CompatibilityDevice::Default, quirks: no_quirks() },
        CompatibilityProfile {
            device: CompatibilityDevice::Chip8,
            quirks: Quirks {
                vf_zero: true,
                i_incremented: false,
                vx_shifted_directly: false,
                v_blank: true,
                clip_sprites: true,
                jump_bits: false,
            },
        },
        CompatibilityProfile {
            device: CompatibilityDevice::SuperChip,
            quirks: Quirks {
                vf_zero: false,
                i_incremented: true,
                vx_shifted_directly: false,
                v_blank: false,
                clip_sprites: true,
                jump_bits: true,
            },
        },
    ]
}

/// The locale key of the first profile, from position `from` on, whose
/// quirks are `quirks`; "custom" when there is none.
pub open spec fn profile_key_from(quirks: Quirks, from: nat) -> Seq<char>
    decreases profiles().len() - from,
{
    if from >= profiles().len() {
        "custom"@
    } else if profiles()[from as int].quirks == quirks {
        device_name_key(profiles()[from as int].device)
    } else {
        profile_key_from(quirks, from + 1)
    }
}

/// Compatibility profiles for different devices
pub fn compatibility_profiles() -> (all: [CompatibilityProfile; 3])
    ensures
        all@ == profiles(),
{
    let all = [
        CompatibilityProfile { device: CompatibilityDevice::Default, quirks: Quirks::default() },
        CompatibilityProfile {
            device: CompatibilityDevice::Chip8,
            quirks: Quirks {
                vf_zero: true,
                i_incremented: false,
                vx_shifted_directly: false,
                v_blank: true,
                clip_sprites: true,
                jump_bits: false,
            },
        },
        CompatibilityProfile {
            device: CompatibilityDevice::SuperChip,
            quirks: Quirks {
                vf_zero: false,
                i_incremented: true,
                vx_shifted_directly: false,
                v_blank: false,
                clip_sprites: true,
                jump_bits: true,
            },
        },
    ];
    assert(all@ =~= profiles());
    all
}

impl CompatibilityProfile {
    /// Get the locale string key of the compatibility profile
    pub fn get_name_key(&self) -> (key: &'static str)
        ensures
            key@ == device_name_key(self.device),
    {
        match self.device {
            CompatibilityDevice::Default => "default",
            CompatibilityDevice::Chip8 => "chip8",
            CompatibilityDevice::SuperChip => "super_chip",
        }
    }

    /// Find the profile name based on the quirks: the key of the first
    /// profile with exactly these quirks, or "custom".
    pub fn find_profile_name_key(quirks: Quirks) -> (key: &'static str)
        ensures
            key@ == profile_key_from(quirks, 0),
    {
        let all = compatibility_profiles();
        let mut i: usize = 0;
        while i < 3
            invariant
                all@ == profiles(),
                i <= 3,
                profile_key_from(quirks, i as nat) == profile_key_from(quirks, 0),
            decreases 3 - i,
        {
            if all[i].quirks == quirks {
                return all[i].get_name_key();
            }
            i += 1;
        }
        "custom"
    }
}

} // verus!
