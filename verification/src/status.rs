//! Status of a tree in the inventory.

use vstd::prelude::*;

use crate::error::ForestError;
use vstd::string::StringSliceAdditionalSpecFns;

verus! {

/// Status of a tree in the inventory.
#[derive(Debug, Clone, Copy, PartialEq, Eq, Structural)]
pub enum TreeStatus {
    Live,
    Dead,
    Cut,
    Missing,
}

/// ASCII lower-casing of one byte.
pub open spec fn lower_byte(b: u8) -> u8 {
    if 'A' as u8 <= b <= 'Z' as u8 {
        (b + 32) as u8
    } else {
        b
    }
}

/// ASCII lower-casing of a byte string.
pub open spec fn lower_bytes(s: Seq<u8>) -> Seq<u8> {
    s.map_values(|b: u8| lower_byte(b))
}

/// The status named by an already lower-cased byte string: the full word
/// or its one-letter abbreviation.
pub open spec fn status_of_lower(s: Seq<u8>) -> Option<TreeStatus> {
    if s =~= seq!['l' as u8, 'i' as u8, 'v' as u8, 'e' as u8] || s =~= seq!['l' as u8] {
        Some(TreeStatus::Live)
    } else if s =~= seq!['d' as u8, 'e' as u8, 'a' as u8, 'd' as u8] || s =~= seq!['d' as u8] {
        Some(TreeStatus::Dead)
    } else if s =~= seq!['c' as u8, 'u' as u8, 't' as u8] || s =~= seq!['c' as u8] {
        Some(TreeStatus::Cut)
    } else if s =~= seq![
        'm' as u8,
        'i' as u8,
        's' as u8,
        's' as u8,
        'i' as u8,
        'n' as u8,
        'g' as u8,
    ] || s =~= seq!['m' as u8] {
        Some(TreeStatus::Missing)
    } else {
        None
    }
}

/// ASCII lower-casing of one byte.
fn to_lower_byte(b: u8) -> (r: u8)
    ensures
        r == lower_byte(b),
{
    if 'A' as u8 <= b && b <= 'Z' as u8 {
        b + 32
    } else {
        b
    }
}

/// Parse a tree status, accepting the full word or its one-letter
/// abbreviation in any letter case, exactly as `status_of_lower` says.
pub fn parse_tree_status(s: &str) -> (r: Result<TreeStatus, ForestError>)
    ensures
        match r {
            Ok(st) => status_of_lower(lower_bytes(s.spec_bytes())) == Some(st),
            Err(e) => status_of_lower(lower_bytes(s.spec_bytes())) is None && e is ParseError,
        },
{
    let bytes = s.as_bytes();
    let n = bytes.len();
    let mut low: Vec<u8> = Vec::new();
    let mut i: usize = 0;
    while i < n
        invariant
            i <= n,
            n == bytes@.len(),
            low@ =~= lower_bytes(bytes@.take(i as int)),
        decreases n - i,
    {
        low.push(to_lower_byte(bytes[i]));
        proof {
            assert(bytes@.take(i + 1 as int) =~= bytes@.take(i as int).push(bytes@[i as int]));
            assert(low@ =~= lower_bytes(bytes@.take(i + 1 as int)));
        }
        i += 1;
    }
    proof {
        assert(bytes@.take(n as int) =~= bytes@);
    }
    let parsed: Option<TreeStatus> = if n == 4 && low[0] == 'l' as u8 && low[1] == 'i' as u8
        && low[2] == 'v' as u8 && low[3] == 'e' as u8 {
        Some(TreeStatus::Live)
    } else if n == 1 && low[0] == 'l' as u8 {
        Some(TreeStatus::Live)
    } else if n == 4 && low[0] == 'd' as u8 && low[1] == 'e' as u8 && low[2] == 'a' as u8 && low[3]
        == 'd' as u8 {
        Some(TreeStatus::Dead)
    } else if n == 1 && low[0] == 'd' as u8 {
        Some(TreeStatus::Dead)
    } else if n == 3 && low[0] == 'c' as u8 && low[1] == 'u' as u8 && low[2] == 't' as u8 {
        Some(TreeStatus::Cut)
    } else if n == 1 && low[0] == 'c' as u8 {
        Some(TreeStatus::Cut)
    } else if n == 7 && low[0] == 'm' as u8 && low[1] == 'i' as u8 && low[2] == 's' as u8 && low[3]
        == 's' as u8 && low[4] == 'i' as u8 && low[5] == 'n' as u8 && low[6] == 'g' as u8 {
        Some(TreeStatus::Missing)
    } else if n == 1 && low[0] == 'm' as u8 {
        Some(TreeStatus::Missing)
    } else {
        None
    };
    match parsed {
        Some(st) => Ok(st),
        None => Err(ForestError::ParseError(String::from_str("Unknown tree status"))),
    }
}

impl TreeStatus {
    /// The display name of this status.
    pub fn label(&self) -> (r: &'static str)
        ensures
            r@ == match self {
                TreeStatus::Live => "Live"@,
                TreeStatus::Dead => "Dead"@,
                TreeStatus::Cut => "Cut"@,
                TreeStatus::Missing => "Missing"@,
            },
    {
        match self {
            TreeStatus::Live => "Live",
            TreeStatus::Dead => "Dead",
            TreeStatus::Cut => "Cut",
            TreeStatus::Missing => "Missing",
        }
    }
}

} // verus!
