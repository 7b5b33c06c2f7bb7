//! Sprite-sheet animation playback: frame and tag data, direction-resolved
//! clip templates, stateful playback heads, and a registry that instantiates
//! playback heads by tag name.

pub mod sprites;
