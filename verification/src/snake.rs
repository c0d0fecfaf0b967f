//! The parts of a snake and how they crawl.

use vstd::prelude::*;

verus! {

/// The way a part of the snake is heading.
#[derive(Clone, Copy, Debug, PartialEq, Eq, Structural)]
pub enum Direction {
    Up,
    Down,
    Left,
    Right,
}

/// A part of the snake's body: where it is and which way it is heading.
#[derive(Clone, Copy, Debug, PartialEq, Eq, Structural)]
pub struct BodyPart {
    pub x: u16,
    pub y: u16,
    pub direction: Direction,
}

impl BodyPart {
    /// Whether the part has a cell in front of it, within the numbers that
    /// a coordinate can take.
    pub open spec fn can_crawl(self) -> bool {
        match self.direction {
            Direction::Up => self.y < u16::MAX,
            Direction::Down => self.y > 0,
            Direction::Left => self.x > 0,
            Direction::Right => self.x < u16::MAX,
        }
    }

    /// The part one cell further along its direction.
    pub open spec fn crawled(self) -> BodyPart {
        match self.direction {
            Direction::Up => BodyPart { y: (self.y + 1) as u16, ..self },
            Direction::Down => BodyPart { y: (self.y - 1) as u16, ..self },
            Direction::Left => BodyPart { x: (self.x - 1) as u16, ..self },
            Direction::Right => BodyPart { x: (self.x + 1) as u16, ..self },
        }
    }

    /// Moves the part one cell along its direction.
    pub fn crawl(&self) -> (part: BodyPart)
        requires
            self.can_crawl(),
        ensures
            part == self.crawled(),
    {
        let mut x = self.x;
        let mut y = self.y;
        match self.direction {
            Direction::Up => y += 1,
            Direction::Down => y -= 1,
            Direction::Left => x -= 1,
            Direction::Right => x += 1,
        }
        BodyPart { x, y, direction: self.direction }
    }
}

} // verus!
