//! Specify distribution and maximum number of characters/blocks can be
//! placed in a line.

use vstd::prelude::*;

verus! {

/// Layout policy splitting the available line width between the tree column
/// and the proportion-bar column.
#[derive(Clone, Copy, Debug, PartialEq, Eq, Structural)]
pub enum ColumnWidthDistribution {
    /// Specify maximum number of characters/blocks can be placed in a line;
    /// the renderer splits it between the columns itself.
    Total {
        /// Maximum number of characters/blocks can be placed in a line.
        max_width: usize,
    },
    /// Specify maximum number of characters/blocks can be placed in a line
    /// for each individual component of the visualization.
    Components {
        /// Number of characters/blocks can be placed in a line
        /// for the filesystem tree visualization.
        tree_column_max_width: usize,
        /// Number of characters/blocks can be placed in a line
        /// for the proportion bar.
        bar_column_width: usize,
    },
}

impl ColumnWidthDistribution {
    /// Specify maximum number of characters/blocks can be placed in a line.
    #[inline]
    pub fn total(max_width: usize) -> (r: Self)
        ensures
            r == (ColumnWidthDistribution::Total { max_width }),
    {
        ColumnWidthDistribution::Total { max_width }
    }

    /// Specify maximum number of characters/blocks can be placed in a line
    /// for each individual component of the visualization.
    #[inline]
    pub fn components(tree_column_max_width: usize, bar_column_width: usize) -> (r: Self)
        ensures
            r == (ColumnWidthDistribution::Components { tree_column_max_width, bar_column_width }),
    {
        ColumnWidthDistribution::Components { tree_column_max_width, bar_column_width }
    }

    /// Replace this distribution with an explicit per-component one.
    pub(crate) fn set_components(&mut self, tree_column_max_width: usize, bar_column_width: usize)
        ensures
            *final(self) == (ColumnWidthDistribution::Components {
                tree_column_max_width,
                bar_column_width,
            }),
    {
        *self = Self::components(tree_column_max_width, bar_column_width);
    }
}

} // verus!
