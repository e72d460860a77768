//! A running simulation: the grid that is shown, the grid that the next
//! generation is written to, and the count that says when to fill anew.
//!
//! One turn of the simulation is `fill_if_due`, `render`, `advance`, in this
//! order. Whatever is done with the picture in between is the caller's.

use crate::board::Board;
use crate::config::{lemma_valid_config_fits, Config};
use crate::grid::Grid;
use crate::life::next_generation;
use crate::raster::{rasterize, render, PixelBuffer};
use rand_xoshiro::Xoshiro256PlusPlus;
use vstd::prelude::*;

verus! {

/// The state of a simulation between two turns.
pub struct Simulation {
    config: Config,
    current: Grid,
    next: Grid,
    age: usize,
}

impl Simulation {
    /// The two grids have the size that the configuration names, and the
    /// configuration is one that can be used.
    pub closed spec fn wf(&self) -> bool {
        &&& self.config.valid()
        &&& self.current@.width == self.config.width
        &&& self.current@.height == self.config.height
        &&& self.next@.width == self.config.width
        &&& self.next@.height == self.config.height
    }

    /// The configuration that the simulation was made with.
    pub closed spec fn config(&self) -> Config {
        self.config
    }

    /// The generation that is current.
    pub closed spec fn board(&self) -> Board {
        self.current@
    }

    /// How many generations have passed since the grid was last filled.
    pub closed spec fn age(&self) -> nat {
        self.age as nat
    }

    /// What well-formedness means to a caller: the configuration can be
    /// used, and the current generation has the size that it names.
    pub proof fn lemma_wf(&self)
        requires
            self.wf(),
        ensures
            self.config().valid(),
            self.board().wf(),
            self.board().width == self.config().width,
            self.board().height == self.config().height,
    {
        self.current.lemma_view_wf();
    }

    /// The grid is to be filled anew before it is next shown.
    pub open spec fn fill_due(&self) -> bool {
        self.age() == self.config().max_iter
    }

    /// A simulation that has yet to be filled: no cell is alive, and the
    /// first turn starts with a fill.
    pub fn new(config: Config) -> (sim: Simulation)
        requires
            config.valid(),
        ensures
            sim.wf(),
            sim.config() == config,
            sim.board() == Board::uniform(config.width as nat, config.height as nat, false),
            sim.fill_due(),
    {
        proof {
            lemma_valid_config_fits(config);
        }
        Simulation {
            config,
            current: Grid::new(config.width, config.height, false),
            next: Grid::new(config.width, config.height, false),
            age: config.max_iter,
        }
    }

    /// The grid of the current generation.
    pub fn grid(&self) -> (grid: &Grid)
        ensures
            grid@ == self.board(),
    {
        &self.current
    }

    /// The number of generations since the grid was last filled.
    pub fn generations_since_fill(&self) -> (age: usize)
        ensures
            age == self.age(),
    {
        self.age
    }

    /// Fills the grid at random when a fill is due, which it is when as many
    /// generations have passed since the last one as the configuration
    /// allows, and tells whether it did. A grid that is not due stays as it
    /// is.
    pub fn fill_if_due(&mut self, rng: &mut Xoshiro256PlusPlus) -> (filled: bool)
        requires
            old(self).wf(),
        ensures
            final(self).wf(),
            final(self).config() == old(self).config(),
            filled == old(self).fill_due(),
            !filled ==> final(self).board() == old(self).board(),
            !filled ==> final(self).age() == old(self).age(),
            filled ==> final(self).age() == 0,
            final(self).board().width == old(self).board().width,
            final(self).board().height == old(self).board().height,
            filled && old(self).config().fill.never() ==> final(self).board() == Board::uniform(
                old(self).board().width,
                old(self).board().height,
                false,
            ),
            filled && old(self).config().fill.always() ==> final(self).board() == Board::uniform(
                old(self).board().width,
                old(self).board().height,
                true,
            ),
    {
        if self.age == self.config.max_iter {
            self.current.randomize(rng, self.config.fill);
            self.age = 0;
            true
        } else {
            false
        }
    }

    /// The picture of the current generation.
    pub fn render(&self) -> (picture: PixelBuffer)
        requires
            self.wf(),
        ensures
            picture@ == render(self.board(), self.config().cell_size as nat),
    {
        rasterize(&self.current, self.config.cell_size)
    }

    /// Goes on by one generation: the next generation is computed into the
    /// spare grid, which then changes places with the current one.
    pub fn advance(&mut self)
        requires
            old(self).wf(),
            old(self).age() < usize::MAX,
        ensures
            final(self).wf(),
            final(self).config() == old(self).config(),
            final(self).board() == old(self).board().step(),
            final(self).age() == old(self).age() + 1,
    {
        next_generation(&self.current, &mut self.next);
        core::mem::swap(&mut self.current, &mut self.next);
        self.age = self.age + 1;
    }
}

} // verus!
