use vstd::prelude::*;

verus! {

/// A material that a cell of the grid holds. `Void` means that the cell is empty.
#[derive(Clone, Copy, PartialEq, Eq, Debug, Structural)]
pub enum Particle {
    Sand,
    Stone,
    Water,
    Oil,
    Void,
}

/// Density of a material: a denser material sinks below a lighter one.
pub open spec fn density_of(p: Particle) -> u8 {
    match p {
        Particle::Sand => 50,
        Particle::Stone => 255,
        Particle::Water => 10,
        Particle::Oil => 9,
        Particle::Void => 0,
    }
}

/// Display color of a material, as red, green and blue.
pub open spec fn color_of(p: Particle) -> (u8, u8, u8) {
    match p {
        Particle::Sand => (255, 255, 0),
        Particle::Stone => (161, 161, 161),
        Particle::Water => (0, 150, 255),
        Particle::Oil => (189, 199, 86),
        Particle::Void => (0, 0, 0),
    }
}

/// The material listed at a given rank of the palette; every rank outside `1..=4` is `Void`.
pub open spec fn particle_of_rank(rank: int) -> Particle {
    if rank == 1 {
        Particle::Sand
    } else if rank == 2 {
        Particle::Stone
    } else if rank == 3 {
        Particle::Water
    } else if rank == 4 {
        Particle::Oil
    } else {
        Particle::Void
    }
}

/// A material that moves: it falls, slides or flows.
pub open spec fn is_movable(p: Particle) -> bool {
    p == Particle::Sand || p == Particle::Water || p == Particle::Oil
}

impl Particle {
    /// The display color of this material.
    pub fn color(&self) -> (r: (u8, u8, u8))
        ensures
            r == color_of(*self),
    {
        match *self {
            Particle::Sand => (255, 255, 0),
            Particle::Stone => (161, 161, 161),
            Particle::Water => (0, 150, 255),
            Particle::Oil => (189, 199, 86),
            Particle::Void => (0, 0, 0),
        }
    }

    /// The density of this material.
    pub fn density(&self) -> (r: u8)
        ensures
            r == density_of(*self),
    {
        match *self {
            Particle::Sand => 50,
            Particle::Stone => 255,
            Particle::Water => 10,
            Particle::Oil => 9,
            Particle::Void => 0,
        }
    }

    /// The material at a rank of the palette.
    pub fn from_rank(rank: usize) -> (r: Particle)
        ensures
            r == particle_of_rank(rank as int),
    {
        match rank {
            1 => Particle::Sand,
            2 => Particle::Stone,
            3 => Particle::Water,
            4 => Particle::Oil,
            _ => Particle::Void,
        }
    }
}

} // verus!
