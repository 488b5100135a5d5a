//! The size of a farm and the layouts in which its plots can be planted.

use crate::error::PlanError;
use crate::plant::same_text;
use vstd::prelude::*;

verus! {

/// The size of a farm, counted in plots.
#[derive(Clone, Copy, Debug, PartialEq, Eq, Structural)]
pub struct FarmSize {
    pub width: u16,
    pub height: u16,
}

impl FarmSize {
    /// A farm has at least one plot in each direction.
    pub open spec fn valid(self) -> bool {
        self.width > 0 && self.height > 0
    }

    /// The number of plots of the farm.
    pub open spec fn area(self) -> nat {
        (self.width as nat) * (self.height as nat)
    }

    /// A farm of the given width and height; `InvalidInput` when either is
    /// zero.
    pub fn new(width: u16, height: u16) -> (r: Result<FarmSize, PlanError>)
        ensures
            r == (if width > 0 && height > 0 {
                Ok::<FarmSize, PlanError>(FarmSize { width, height })
            } else {
                Err::<FarmSize, PlanError>(PlanError::InvalidInput)
            }),
    {
        if width == 0 || height == 0 {
            Err(PlanError::InvalidInput)
        } else {
            Ok(FarmSize { width, height })
        }
    }
}

/// A layout: the pattern in which the crops of one combination share the
/// cells of one planting.
#[derive(Clone, Copy, Debug, PartialEq, Eq, Structural)]
pub enum CropRatios {
    /// Two crops in equal shares, on one plot.
    OneOne,
    /// Three crops in equal shares, on two by two plots.
    OneOneOne,
    /// Three bindings of equal share, side by side on two plots; a crop bound
    /// twice takes two shares.
    TwoOne,
    /// Four bindings of equal share, on two by two plots; a crop bound twice
    /// takes two shares.
    TwoOneOne,
}

impl CropRatios {
    /// The layouts in the order in which they are offered for choice.
    pub open spec fn choices() -> Seq<CropRatios> {
        seq![CropRatios::OneOne, CropRatios::TwoOne, CropRatios::OneOneOne, CropRatios::TwoOneOne]
    }

    /// The label of a layout, in the model.
    pub open spec fn label_text(self) -> Seq<char> {
        match self {
            CropRatios::OneOne => "1:1"@,
            CropRatios::OneOneOne => "1:1:1"@,
            CropRatios::TwoOne => "2:1"@,
            CropRatios::TwoOneOne => "2:1:1"@,
        }
    }

    /// The number of crops that a combination binds under this layout.
    pub open spec fn roles(self) -> nat {
        match self {
            CropRatios::OneOne => 2,
            CropRatios::OneOneOne => 3,
            CropRatios::TwoOne => 3,
            CropRatios::TwoOneOne => 4,
        }
    }

    /// The number of plots that one planting takes from left to right.
    pub open spec fn plots_wide(self) -> nat {
        match self {
            CropRatios::OneOne => 1,
            CropRatios::OneOneOne => 2,
            CropRatios::TwoOne => 2,
            CropRatios::TwoOneOne => 2,
        }
    }

    /// The number of plots that one planting takes from top to bottom.
    pub open spec fn plots_high(self) -> nat {
        match self {
            CropRatios::OneOne => 1,
            CropRatios::OneOneOne => 2,
            CropRatios::TwoOne => 1,
            CropRatios::TwoOneOne => 2,
        }
    }

    /// The number of plots that one planting takes: its width times its
    /// height.
    pub open spec fn plots_taken(self) -> nat {
        match self {
            CropRatios::OneOne => 1,
            CropRatios::OneOneOne => 4,
            CropRatios::TwoOne => 2,
            CropRatios::TwoOneOne => 4,
        }
    }

    /// The number of seeds that one planting takes for each crop it binds.
    pub open spec fn seeds_per_role(self) -> nat {
        match self {
            CropRatios::OneOne => 4,
            CropRatios::OneOneOne => 12,
            CropRatios::TwoOne => 6,
            CropRatios::TwoOneOne => 8,
        }
    }

    /// The number of plantings that a farm holds: its area divided by the
    /// area of one planting, rounded down.
    pub open spec fn capacity(self, size: FarmSize) -> nat {
        size.area() / self.plots_taken()
    }

    /// The number of plantings that stand side by side across the farm.
    pub open spec fn row_width(self, size: FarmSize) -> nat {
        (size.width as nat) / self.plots_wide()
    }

    /// The layouts, in the order of `choices`.
    pub fn all() -> (v: Vec<CropRatios>)
        ensures
            v@ == CropRatios::choices(),
    {
        vec![CropRatios::OneOne, CropRatios::TwoOne, CropRatios::OneOneOne, CropRatios::TwoOneOne]
    }

    /// The label under which the layout is shown.
    pub fn label(&self) -> (s: &'static str)
        ensures
            s@ == self.label_text(),
    {
        match self {
            CropRatios::OneOne => "1:1",
            CropRatios::OneOneOne => "1:1:1",
            CropRatios::TwoOne => "2:1",
            CropRatios::TwoOneOne => "2:1:1",
        }
    }

    /// The layout that goes by `label`; `InvalidInput` when none does.
    pub fn from_label(label: &str) -> (r: Result<CropRatios, PlanError>)
        ensures
            match r {
                Ok(ratio) => ratio.label_text() == label@,
                Err(e) => e == PlanError::InvalidInput && forall|c: CropRatios|
                    c.label_text() != label@,
            },
    {
        if same_text(label, "1:1") {
            Ok(CropRatios::OneOne)
        } else if same_text(label, "1:1:1") {
            Ok(CropRatios::OneOneOne)
        } else if same_text(label, "2:1") {
            Ok(CropRatios::TwoOne)
        } else if same_text(label, "2:1:1") {
            Ok(CropRatios::TwoOneOne)
        } else {
            Err(PlanError::InvalidInput)
        }
    }

    /// The number of crops that a combination binds under this layout.
    pub fn role_count(&self) -> (n: usize)
        ensures
            n == self.roles(),
    {
        match self {
            CropRatios::OneOne => 2,
            CropRatios::OneOneOne => 3,
            CropRatios::TwoOne => 3,
            CropRatios::TwoOneOne => 4,
        }
    }

    /// The number of seeds that one planting takes for each crop it binds.
    pub fn get_min_seeds_per_crop(&self) -> (n: u32)
        ensures
            n == self.seeds_per_role(),
    {
        match self {
            CropRatios::OneOne => 4,
            CropRatios::OneOneOne => 12,
            CropRatios::TwoOne => 6,
            CropRatios::TwoOneOne => 8,
        }
    }

    /// The number of plantings that a farm of `size` holds.
    pub fn get_filled_size(&self, size: &FarmSize) -> (n: u32)
        ensures
            n == self.capacity(*size),
    {
        let width: u32 = size.width as u32;
        let height: u32 = size.height as u32;
        assert(width * height <= 65535 * 65535) by (nonlinear_arith)
            requires
                width <= 65535,
                height <= 65535,
        ;
        let area: u32 = width * height;
        assert(area == size.area());
        match self {
            CropRatios::OneOne => area,
            CropRatios::TwoOne => area / 2,
            CropRatios::OneOneOne => area / 4,
            CropRatios::TwoOneOne => area / 4,
        }
    }

    /// The number of plantings that stand side by side across a farm of
    /// `size`.
    pub fn get_filled_size_horizontal(&self, size: &FarmSize) -> (n: u16)
        ensures
            n == self.row_width(*size),
    {
        match self {
            CropRatios::OneOne => size.width,
            _ => size.width / 2,
        }
    }
}

/// A planting takes as many plots as it is wide times as it is high.
pub proof fn lemma_plots_taken(ratio: CropRatios)
    ensures
        ratio.plots_taken() == ratio.plots_wide() * ratio.plots_high(),
{
}

/// No two layouts share a label, so a label names at most one layout.
pub proof fn lemma_layout_labels_distinct(a: CropRatios, b: CropRatios)
    requires
        a.label_text() == b.label_text(),
    ensures
        a == b,
{
    lemma_layout_label_mark(a);
    lemma_layout_label_mark(b);
}

/// The length and first character of each layout's label.
proof fn lemma_layout_label_mark(c: CropRatios)
    ensures
        (c.label_text().len(), c.label_text()[0]) == match c {
            CropRatios::OneOne => (3nat, '1'),
            CropRatios::OneOneOne => (5nat, '1'),
            CropRatios::TwoOne => (3nat, '2'),
            CropRatios::TwoOneOne => (5nat, '2'),
        },
{
    reveal_strlit("1:1");
    reveal_strlit("1:1:1");
    reveal_strlit("2:1");
    reveal_strlit("2:1:1");
}

} // verus!
