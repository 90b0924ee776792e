//! Network size classes that tune the gossip mesh.

use vstd::prelude::*;

verus! {

/// Adaptive network size classification based on average peer count.
#[derive(Debug, Clone, Copy, PartialEq, Eq, Structural)]
pub enum NetworkSize {
    /// 0-3 peers: Use flood_publish, aggressive heartbeat
    Small,
    /// 4-15 peers: Balanced mesh topology
    Medium,
    /// 16+ peers: Larger mesh, lazy gossip
    Large,
}

/// The class of a whole average peer count: 0 to 3 is small, 4 to 15 is
/// medium, anything else (negative counts included) is large.
pub open spec fn spec_size_class(avg: int) -> NetworkSize {
    if 0 <= avg <= 3 {
        NetworkSize::Small
    } else if 4 <= avg <= 15 {
        NetworkSize::Medium
    } else {
        NetworkSize::Large
    }
}

/// The name of a class as shown to users.
pub open spec fn spec_size_label(size: NetworkSize) -> Seq<char> {
    match size {
        NetworkSize::Small => seq!['S', 'm', 'a', 'l', 'l'],
        NetworkSize::Medium => seq!['M', 'e', 'd', 'i', 'u', 'm'],
        NetworkSize::Large => seq!['L', 'a', 'r', 'g', 'e'],
    }
}

impl NetworkSize {
    /// Classify an average peer count already truncated to a whole number.
    pub fn from_whole_peer_count(avg: i32) -> (r: Self)
        ensures
            r == spec_size_class(avg as int),
    {
        if 0 <= avg && avg <= 3 {
            NetworkSize::Small
        } else if 4 <= avg && avg <= 15 {
            NetworkSize::Medium
        } else {
            NetworkSize::Large
        }
    }

    /// "Small", "Medium" or "Large".
    pub fn label(&self) -> (r: String)
        ensures
            r@ == spec_size_label(*self),
    {
        proof {
            reveal_strlit("Small");
            reveal_strlit("Medium");
            reveal_strlit("Large");
        }
        match self {
            NetworkSize::Small => "Small".to_string(),
            NetworkSize::Medium => "Medium".to_string(),
            NetworkSize::Large => "Large".to_string(),
        }
    }
}

} // verus!
