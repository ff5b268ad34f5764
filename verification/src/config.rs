use vstd::prelude::*;

use crate::hand::Hand;
use crate::text::{parse_i16, parse_trimmed_i16, trim};

verus! {

/// The settings that drive tracking.
#[derive(Debug, Clone)]
pub struct CoreConfig {
    /// Smallest movement, in camera pixels, that counts as a swipe.
    pub move_threshold: i16,
    /// The hand whose movements are followed.
    pub dominant_hand: Hand,
    /// Path of the camera device.
    pub camera: String,
}

/// The whole configuration file.
#[derive(Debug, Clone)]
pub struct Config {
    pub core: CoreConfig,
}

/// The threshold used when none is configured.
pub const DEFAULT_MOVE_THRESHOLD: i16 = 150;

impl Config {
    /// The configuration written when none exists yet: threshold 150, right
    /// hand, camera `/dev/video0`.
    pub fn default() -> (cfg: Config)
        ensures
            cfg.core.move_threshold == 150,
            cfg.core.dominant_hand == Hand::Right,
            cfg.core.camera@ == "/dev/video0"@,
    {
        Config {
            core: CoreConfig {
                move_threshold: DEFAULT_MOVE_THRESHOLD,
                dominant_hand: Hand::Right,
                camera: String::from_str("/dev/video0"),
            },
        }
    }
}

/// The configuration a settings form describes: the threshold typed in (kept
/// from `cfg` unless the text, trimmed, is an `i16`), the hand at selector
/// position `side_selected` (0 is left, anything else right), and the chosen
/// camera (kept from `cfg` when none is chosen).
pub fn read_config(
    move_threshold_text: &str,
    side_selected: u32,
    camera_selected: Option<String>,
    cfg: &Config,
) -> (r: Config)
    ensures
        r.core.move_threshold == (match parse_i16(trim(move_threshold_text@)) {
            Some(t) => t,
            None => cfg.core.move_threshold,
        }),
        r.core.dominant_hand == (if side_selected == 0 { Hand::Left } else { Hand::Right }),
        r.core.camera@ == (match camera_selected {
            Some(c) => c@,
            None => cfg.core.camera@,
        }),
{
    let move_threshold = match parse_trimmed_i16(move_threshold_text) {
        Some(t) => t,
        None => cfg.core.move_threshold,
    };
    let dominant_hand = Hand::from_index(side_selected);
    let camera = match camera_selected {
        Some(c) => c,
        None => cfg.core.camera.clone(),
    };
    Config { core: CoreConfig { move_threshold, dominant_hand, camera } }
}

} // verus!
