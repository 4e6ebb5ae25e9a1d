//! Cells: one glyph with its styling, the unit a plane's grid is made of.
//!
//! A cell holds a glyph cluster, a style mask and a channel pair. The
//! cluster is either a single character, which owns no heap memory, or an
//! owned string for a multi-character cluster. Bit 63 of the channel pair
//! marks the cell as the continuation column of a wide glyph; such a cell
//! carries styling but no glyph cluster of its own.

use vstd::prelude::*;
use crate::channel::CHANNELS_WIDE_MASK;

verus! {

/// A bitmask of text styles (bold, underline and the like). The mask is
/// carried through unchanged by every operation of this crate.
pub type NcStyleMask = u32;

/// A glyph cluster: a single character on the fast path, or an owned
/// string for a multi-character cluster.
#[derive(Debug, PartialEq, Eq)]
pub enum NcEgc {
    /// A single character; owns no heap memory.
    Char(char),
    /// An owned multi-character cluster; must not be empty.
    Cluster(String),
}

impl NcEgc {
    /// A cluster in its owned form must hold at least one character.
    pub open spec fn wf(&self) -> bool {
        match *self {
            NcEgc::Char(_) => true,
            NcEgc::Cluster(s) => s@.len() >= 1,
        }
    }
}

impl Clone for NcEgc {
    /// Cloning a glyph cluster copies it exactly.
    fn clone(&self) -> (other: Self)
        ensures
            other == *self,
    {
        match self {
            NcEgc::Char(c) => NcEgc::Char(*c),
            NcEgc::Cluster(s) => NcEgc::Cluster(s.clone()),
        }
    }
}

/// One cell of a plane: a glyph cluster, a style mask and a channel pair.
#[derive(Debug, PartialEq, Eq)]
pub struct NcCell {
    /// The glyph cluster the cell shows.
    pub gcluster: NcEgc,
    /// The cell's style bits.
    pub stylemask: NcStyleMask,
    /// The cell's foreground/background channel pair.
    pub channels: u64,
}

/// The blank cell: the null character with no styling and no colour, the
/// state every cell of a fresh or cleared plane is in.
pub open spec fn blank_cell() -> NcCell {
    NcCell { gcluster: NcEgc::Char('\0'), stylemask: 0, channels: 0 }
}

impl NcCell {
    /// A cell is well formed when its glyph cluster is.
    pub open spec fn wf(&self) -> bool {
        self.gcluster.wf()
    }

    /// Whether the cell is marked as the continuation column of a wide
    /// glyph; such a cell has no glyph cluster that a read could resolve.
    pub open spec fn is_wide_continuation(&self) -> bool {
        self.channels & CHANNELS_WIDE_MASK != 0
    }

    /// Builds the blank cell.
    pub fn new() -> (cell: Self)
        ensures
            cell == blank_cell(),
            cell.wf(),
    {
        NcCell { gcluster: NcEgc::Char('\0'), stylemask: 0, channels: 0 }
    }

    /// Builds a cell from a single 7-bit character, with no styling.
    pub fn with_7bitchar(c: char) -> (cell: Self)
        requires
            c as u32 <= 0x7f,
        ensures
            cell == (NcCell { gcluster: NcEgc::Char(c), stylemask: 0, channels: 0 }),
            cell.wf(),
    {
        NcCell { gcluster: NcEgc::Char(c), stylemask: 0, channels: 0 }
    }

    /// Builds a cell from a character, a style mask and a channel pair.
    pub fn with_all(c: char, stylemask: NcStyleMask, channels: u64) -> (cell: Self)
        ensures
            cell == (NcCell { gcluster: NcEgc::Char(c), stylemask, channels }),
            cell.wf(),
    {
        NcCell { gcluster: NcEgc::Char(c), stylemask, channels }
    }

    /// Builds a cell from an owned glyph cluster, a style mask and a
    /// channel pair.
    pub fn with_cluster(cluster: String, stylemask: NcStyleMask, channels: u64) -> (cell: Self)
        requires
            cluster@.len() >= 1,
        ensures
            cell == (NcCell { gcluster: NcEgc::Cluster(cluster), stylemask, channels }),
            cell.wf(),
    {
        NcCell { gcluster: NcEgc::Cluster(cluster), stylemask, channels }
    }
}

impl Clone for NcCell {
    /// Cloning a cell copies the glyph cluster, style and channels exactly.
    fn clone(&self) -> (other: Self)
        ensures
            other == *self,
    {
        NcCell {
            gcluster: self.gcluster.clone(),
            stylemask: self.stylemask,
            channels: self.channels,
        }
    }
}

} // verus!
