//! PENet SRM selector: which of the thirty high-pass filters of the PENet bank to apply.
use vstd::prelude::*;
use crate::arith::clamp;

verus! {

/// One filter of the PENet SRM bank: the group it belongs to and its position in the group.
#[derive(Clone, Copy, Debug, PartialEq, Eq, Structural)]
pub enum SrmFilter {
    /// The eight first-order 3 by 3 filters.
    Class1(usize),
    /// The four second-order 3 by 3 filters (normalized by 2).
    Class2(usize),
    /// The eight third-order 5 by 5 filters (normalized by 3).
    Class3(usize),
    /// The four 3 by 3 edge filters (normalized by 4).
    Edge3x3(usize),
    /// The four 5 by 5 edge filters (normalized by 12).
    Edge5x5(usize),
    /// The 3 by 3 square filter (normalized by 4).
    Square3x3,
    /// The 5 by 5 square filter (normalized by 12).
    Square5x5,
}

/// The filter at position `idx` of the bank, once `idx` is clamped to `0..=29`: 0-7 first
/// order, 8-11 second order, 12-19 third order, 20-23 3 by 3 edges, 24-27 5 by 5 edges, 28 and 29
/// the squares.
pub open spec fn srm_filter_at(idx: int) -> SrmFilter {
    let i = clamp(idx, 0, 29);
    if i <= 7 {
        SrmFilter::Class1(i as usize)
    } else if i <= 11 {
        SrmFilter::Class2((i - 8) as usize)
    } else if i <= 19 {
        SrmFilter::Class3((i - 12) as usize)
    } else if i <= 23 {
        SrmFilter::Edge3x3((i - 20) as usize)
    } else if i <= 27 {
        SrmFilter::Edge5x5((i - 24) as usize)
    } else if i == 28 {
        SrmFilter::Square3x3
    } else {
        SrmFilter::Square5x5
    }
}

/// The position within its group is in range: eight first-order, four second-order, eight
/// third-order, four 3 by 3 and four 5 by 5 edge filters.
pub open spec fn in_bank(f: SrmFilter) -> bool {
    match f {
        SrmFilter::Class1(i) => i < 8,
        SrmFilter::Class2(i) => i < 4,
        SrmFilter::Class3(i) => i < 8,
        SrmFilter::Edge3x3(i) => i < 4,
        SrmFilter::Edge5x5(i) => i < 4,
        _ => true,
    }
}

/// The thirty positions of the bank name thirty different filters of the bank, and every
/// index, clamped, names one of them.
pub proof fn lemma_bank_positions_distinct(i: int, j: int)
    requires
        0 <= i < j <= 29,
    ensures
        srm_filter_at(i) != srm_filter_at(j),
        in_bank(srm_filter_at(i)),
        in_bank(srm_filter_at(j)),
{
}

/// The filter at position `idx` of the bank (see `srm_filter_at`).
pub fn srm_filter(idx: i32) -> (f: SrmFilter)
    ensures
        f == srm_filter_at(idx as int),
        in_bank(f),
{
    let i: i32 = if idx < 0 { 0 } else if idx > 29 { 29 } else { idx };
    if i <= 7 {
        SrmFilter::Class1(i as usize)
    } else if i <= 11 {
        SrmFilter::Class2((i - 8) as usize)
    } else if i <= 19 {
        SrmFilter::Class3((i - 12) as usize)
    } else if i <= 23 {
        SrmFilter::Edge3x3((i - 20) as usize)
    } else if i <= 27 {
        SrmFilter::Edge5x5((i - 24) as usize)
    } else if i == 28 {
        SrmFilter::Square3x3
    } else {
        SrmFilter::Square5x5
    }
}

/// Whether the filter is 5 by 5 (otherwise 3 by 3).
pub fn is_five_by_five(f: SrmFilter) -> (r: bool)
    ensures
        r == (f is Class3 || f is Edge5x5 || f is Square5x5),
{
    match f {
        SrmFilter::Class3(_) | SrmFilter::Edge5x5(_) | SrmFilter::Square5x5 => true,
        _ => false,
    }
}

/// Applies one SRM high-pass filter of the PENet steganalysis bank.
pub struct PENetSrmSelectorPlugin {
    filter_index: i32,
}

impl PENetSrmSelectorPlugin {
    /// The stored filter index.
    pub closed spec fn filter_index_spec(&self) -> i32 {
        self.filter_index
    }

    /// Filter 0.
    pub fn new() -> (p: Self)
        ensures
            p.filter_index_spec() == 0,
    {
        PENetSrmSelectorPlugin { filter_index: 0 }
    }

    /// The stored filter index.
    pub fn filter_index(&self) -> (i: i32)
        ensures
            i == self.filter_index_spec(),
    {
        self.filter_index
    }

    /// Stores the filter index.
    pub fn set_filter_index(&mut self, i: i32)
        ensures
            final(self).filter_index_spec() == i,
    {
        self.filter_index = i;
    }

    /// The filter applied: the one at the stored index, clamped to the bank.
    pub fn selected_filter(&self) -> (f: SrmFilter)
        ensures
            f == srm_filter_at(self.filter_index_spec() as int),
            in_bank(f),
    {
        srm_filter(self.filter_index)
    }

    /// The analysis name shown to users.
    pub fn name(&self) -> (s: &'static str)
        ensures
            s@ == "PENet SRM Selector"@,
    {
        "PENet SRM Selector"
    }

    /// What the analysis shows.
    pub fn description(&self) -> (s: &'static str)
        ensures
            s@ == "Applies a single SRM (Spatial Rich Model) high-pass filter from the PENet steganalysis filter bank, selectable via the Filter Index parameter (0-29). Each of the 30 filters from the PENet architecture captures different directional high-frequency residual patterns in the image luminance channel. Steganographic embedding alters local noise statistics, and different filters reveal different embedding artifacts — some are best at detecting horizontal patterns, others vertical or diagonal. Use the Filter Index slider to browse individual filter responses and identify which filter best highlights potential hidden data in your image. The output maps the absolute truncated filter response to grayscale (black=no response, white=strong response). Reference: github.com/revere7/PENet_Steganalysis."@,
    {
        "Applies a single SRM (Spatial Rich Model) high-pass filter from the PENet steganalysis filter bank, selectable via the Filter Index parameter (0-29). Each of the 30 filters from the PENet architecture captures different directional high-frequency residual patterns in the image luminance channel. Steganographic embedding alters local noise statistics, and different filters reveal different embedding artifacts — some are best at detecting horizontal patterns, others vertical or diagonal. Use the Filter Index slider to browse individual filter responses and identify which filter best highlights potential hidden data in your image. The output maps the absolute truncated filter response to grayscale (black=no response, white=strong response). Reference: github.com/revere7/PENet_Steganalysis."
    }

    /// Where the filter bank comes from.
    pub fn reference(&self) -> (s: &'static str)
        ensures
            s@ == "https://github.com/revere7/PENet_Steganalysis"@,
    {
        "https://github.com/revere7/PENet_Steganalysis"
    }
}

/// The constructor that the plugin host calls.
pub fn create_penet_srm_selector_plugin() -> (p: PENetSrmSelectorPlugin)
    ensures
        p.filter_index_spec() == 0,
{
    PENetSrmSelectorPlugin::new()
}

} // verus!
