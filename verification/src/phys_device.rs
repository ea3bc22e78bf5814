//! Choosing a physical device among the eligible ones. The platform layer
//! enumerates the devices and checks eligibility (queues, surface,
//! extensions); the choice itself is made here: by fuzzy-matching a wanted
//! name when one was given, by device class otherwise.

use fuzzy_matcher::FuzzyMatcher;

use vstd::prelude::*;

verus! {

/// Names what fuzzy-matcher's default skim matcher returns for a choice
/// string and a pattern: `None` when the pattern does not match the choice,
/// the match score otherwise. The score depends on the two strings alone.
pub uninterp spec fn fuzzy_score(choice: Seq<char>, pattern: Seq<char>) -> Option<i64>;

/// Relies on fuzzy_matcher's `SkimMatcherV2::fuzzy_match` under the default
/// configuration: a deterministic score of the two strings, `None` exactly
/// when the pattern does not fuzzy-match the choice.
#[verifier::external_body]
fn fuzzy_match_score(choice: &String, pattern: &str) -> (r: Option<i64>)
    ensures
        r == fuzzy_score(choice@, pattern@),
{
    let matcher = fuzzy_matcher::skim::SkimMatcherV2::default();
    matcher.fuzzy_match(choice.as_str(), pattern)
}

/// The broad class of a physical device, as the platform reports it.
#[derive(Clone, Copy, Debug, PartialEq, Eq, Structural)]
pub enum PhysicalDeviceKind {
    /// A discrete graphics card.
    Discrete,
    /// A GPU integrated with the processor.
    Integrated,
    /// Anything else: virtual, software, unknown.
    Other,
}

impl PhysicalDeviceKind {
    /// Preference rank of the class: discrete before integrated before
    /// anything else.
    pub open spec fn spec_rank(self) -> u32 {
        match self {
            PhysicalDeviceKind::Discrete => 2,
            PhysicalDeviceKind::Integrated => 1,
            PhysicalDeviceKind::Other => 0,
        }
    }

    /// How strongly this class is preferred when no name was asked for.
    pub fn rank(&self) -> (n: u32)
        ensures
            n == self.spec_rank(),
    {
        match self {
            PhysicalDeviceKind::Discrete => 2,
            PhysicalDeviceKind::Integrated => 1,
            PhysicalDeviceKind::Other => 0,
        }
    }
}

/// `r` picks the device whose name fuzzy-matches `pattern` best: a maximal
/// score, the last such index on a tie; `None` exactly when no name matches.
pub open spec fn picked_by_score(names: Seq<String>, pattern: Seq<char>, r: Option<usize>) -> bool {
    match r {
        Some(i) => {
            &&& 0 <= i < names.len()
            &&& fuzzy_score(names[i as int]@, pattern) is Some
            &&& forall|k: int|
                0 <= k < names.len() ==> (#[trigger] fuzzy_score(names[k]@, pattern) matches Some(s)
                    ==> s <= fuzzy_score(names[i as int]@, pattern)->Some_0)
            &&& forall|k: int|
                i < k < names.len() ==> (#[trigger] fuzzy_score(names[k]@, pattern) matches Some(s)
                    ==> s < fuzzy_score(names[i as int]@, pattern)->Some_0)
        },
        None => forall|k: int| 0 <= k < names.len() ==> #[trigger] fuzzy_score(names[k]@, pattern) is None,
    }
}

/// `r` picks the device of the most preferred class: a maximal rank, the
/// last such index on a tie; `None` exactly when there is no device at all.
pub open spec fn picked_by_rank(kinds: Seq<PhysicalDeviceKind>, r: Option<usize>) -> bool {
    match r {
        Some(i) => {
            &&& 0 <= i < kinds.len()
            &&& forall|k: int|
                0 <= k < kinds.len() ==> (#[trigger] kinds[k]).spec_rank() <= kinds[i as int].spec_rank()
            &&& forall|k: int|
                i < k < kinds.len() ==> (#[trigger] kinds[k]).spec_rank() < kinds[i as int].spec_rank()
        },
        None => kinds.len() == 0,
    }
}

/// Pick one of the eligible physical devices, given each device's name and
/// class at the same index. With a wanted name, the best fuzzy match for it
/// wins and `None` means no name matched; without one, the most preferred
/// class wins and `None` means the list was empty.
pub fn pick_physical_device(
    names: &Vec<String>,
    kinds: &Vec<PhysicalDeviceKind>,
    device_name: Option<&str>,
) -> (r: Option<usize>)
    requires
        names@.len() == kinds@.len(),
    ensures
        match device_name {
            Some(pattern) => picked_by_score(names@, pattern@, r),
            None => picked_by_rank(kinds@, r),
        },
{
    match device_name {
        Some(pattern) => {
            let n = names.len();
            let mut best: Option<usize> = None;
            let mut best_score: i64 = 0;
            let mut j: usize = 0;
            while j < n
                invariant
                    n == names@.len(),
                    j <= n,
                    match best {
                        Some(i) => {
                            &&& i < j
                            &&& fuzzy_score(names@[i as int]@, pattern@) == Some(best_score)
                            &&& forall|k: int|
                                0 <= k < j ==> (#[trigger] fuzzy_score(names@[k]@, pattern@) matches
                                    Some(s) ==> s <= best_score)
                            &&& forall|k: int|
                                i < k < j ==> (#[trigger] fuzzy_score(names@[k]@, pattern@) matches
                                    Some(s) ==> s < best_score)
                        },
                        None => forall|k: int|
                            0 <= k < j ==> #[trigger] fuzzy_score(names@[k]@, pattern@) is None,
                    },
                decreases n - j,
            {
                if let Some(score) = fuzzy_match_score(&names[j], pattern) {
                    let take = match best {
                        None => true,
                        Some(_) => score >= best_score,
                    };
                    if take {
                        best = Some(j);
                        best_score = score;
                    }
                }
                j += 1;
            }
            best
        },
        None => {
            let n = kinds.len();
            let mut best: Option<usize> = None;
            let mut best_rank: u32 = 0;
            let mut j: usize = 0;
            while j < n
                invariant
                    n == kinds@.len(),
                    j <= n,
                    match best {
                        Some(i) => {
                            &&& i < j
                            &&& kinds@[i as int].spec_rank() == best_rank
                            &&& forall|k: int|
                                0 <= k < j ==> (#[trigger] kinds@[k]).spec_rank() <= best_rank
                            &&& forall|k: int| i < k < j ==> (#[trigger] kinds@[k]).spec_rank() < best_rank
                        },
                        None => j == 0,
                    },
                decreases n - j,
            {
                let rank = kinds[j].rank();
                let take = match best {
                    None => true,
                    Some(_) => rank >= best_rank,
                };
                if take {
                    best = Some(j);
                    best_rank = rank;
                }
                j += 1;
            }
            best
        },
    }
}

} // verus!
