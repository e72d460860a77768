//! The settings of a simulation, and what tells the usable ones from the
//! rest before anything is allocated.

use crate::grid::Grid;
use crate::probability::Probability;
use crate::raster::{buffer_fits, picture_fits};
use vstd::prelude::*;

verus! {

/// What a simulation is run with.
#[derive(Clone, Copy, Debug)]
pub struct Config {
    /// The number of columns of the grid.
    pub width: usize,
    /// The number of rows of the grid.
    pub height: usize,
    /// The edge of the square of pixels that shows one cell.
    pub cell_size: u32,
    /// The number of generations after which the grid is filled anew.
    pub max_iter: usize,
    /// The chance with which a fill makes a cell alive.
    pub fill: Probability,
    /// The time to wait between two generations, in milliseconds.
    pub delay: u64,
}

/// Why a configuration cannot be used.
#[derive(Clone, Copy, Debug, PartialEq, Eq, Structural)]
pub enum ConfigError {
    /// The grid has no column or no row, or its picture is too large for a
    /// pixel buffer.
    Dimensions,
    /// A cell would be shown by no pixel at all.
    CellSize,
    /// The chance of a live cell is not one between never and always.
    Probability,
    /// There is no time between two generations.
    Delay,
}

impl Config {
    /// The grid has a cell, and its picture can be held in a pixel buffer.
    pub open spec fn dimensions_ok(self) -> bool {
        &&& self.width >= 1
        &&& self.height >= 1
        &&& buffer_fits(self.width as nat, self.height as nat, self.cell_size as nat)
    }

    /// The first thing that is wrong with the configuration, taken in the
    /// order dimensions, cell size, chance, delay; or nothing.
    pub open spec fn validity(self) -> Result<(), ConfigError> {
        if !self.dimensions_ok() {
            Err(ConfigError::Dimensions)
        } else if self.cell_size == 0 {
            Err(ConfigError::CellSize)
        } else if !self.fill.valid() {
            Err(ConfigError::Probability)
        } else if self.delay == 0 {
            Err(ConfigError::Delay)
        } else {
            Ok(())
        }
    }

    /// The configuration can be used.
    pub open spec fn valid(self) -> bool {
        self.validity() is Ok
    }

    /// Goes through the configuration: `Ok` when it can be used, else the
    /// first thing that is wrong with it.
    pub fn validate(&self) -> (outcome: Result<(), ConfigError>)
        ensures
            outcome == self.validity(),
    {
        if self.width == 0 || self.height == 0 {
            return Err(ConfigError::Dimensions);
        }
        if !picture_fits(self.width, self.height, self.cell_size) {
            return Err(ConfigError::Dimensions);
        }
        if self.cell_size == 0 {
            return Err(ConfigError::CellSize);
        }
        if !self.fill.is_valid() {
            return Err(ConfigError::Probability);
        }
        if self.delay == 0 {
            return Err(ConfigError::Delay);
        }
        Ok(())
    }
}

/// The grid of a configuration that can be used can be allocated.
pub proof fn lemma_valid_config_fits(config: Config)
    requires
        config.valid(),
    ensures
        Grid::size_fits(config.width, config.height),
{
    let w = config.width as int;
    let h = config.height as int;
    let s = config.cell_size as int;
    assert(h * w <= (w * s) * (h * s)) by (nonlinear_arith)
        requires
            w >= 1,
            h >= 1,
            s >= 1,
    ;
}

} // verus!
