//! The queens problem: a candidate places one queen in each line of the
//! board, in the column that its permutation names, and its objective
//! counts the lines whose queen strikes a queen of a later line along a
//! diagonal.
use vstd::pervasive::unreached;
use vstd::prelude::*;

use crate::loader_config::Config;
use crate::population::Individual;

verus! {

/// A queen in column `queen` strikes, along a diagonal, the queen that
/// stands `offset` lines further on in column `other`.
pub open spec fn strikes(board_size: int, queen: int, other: int, offset: int) -> bool {
    ||| queen >= offset && other == queen - offset
    ||| queen + offset < board_size && other == queen + offset
}

/// The queen of line `line` strikes the queen of some later line.
pub open spec fn collides(board_size: int, queens: Seq<usize>, line: int) -> bool {
    exists|offset: int|
        1 <= offset && line + offset < queens.len() && #[trigger] strikes(
            board_size,
            queens[line] as int,
            queens[line + offset] as int,
            offset,
        )
}

/// The number of lines among the first `upto` whose queen strikes the queen
/// of a later line.
pub open spec fn collisions(board_size: int, queens: Seq<usize>, upto: nat) -> nat
    decreases upto,
{
    if upto == 0 {
        0
    } else {
        collisions(board_size, queens, (upto - 1) as nat) + if collides(
            board_size,
            queens,
            upto - 1,
        ) {
            1nat
        } else {
            0nat
        }
    }
}

/// Tells whether the queen of line `line` strikes the queen of a later
/// line. The search ends early once both diagonals have left the board.
pub fn line_collides(board_size: usize, queens: &Vec<usize>, line: usize) -> (hit: bool)
    requires
        line < queens.len(),
    ensures
        hit == collides(board_size as int, queens@, line as int),
{
    let queen_col = queens[line];
    let mut offset: usize = 1;
    while offset < queens.len() - line
        invariant
            line < queens.len(),
            1 <= offset <= queens.len() - line,
            queen_col == queens[line as int],
            forall|o: int|
                1 <= o < offset ==> !#[trigger] strikes(
                    board_size as int,
                    queen_col as int,
                    queens[line + o] as int,
                    o,
                ),
        decreases queens.len() - line - offset,
    {
        let up_is_off = queen_col < offset;
        let down_is_off = queen_col >= board_size || offset >= board_size - queen_col;
        if up_is_off && down_is_off {
            assert forall|o: int| 1 <= o && line + o < queens.len() implies !#[trigger] strikes(
                board_size as int,
                queen_col as int,
                queens[line + o] as int,
                o,
            ) by {
                if o >= offset {
                    assert(queen_col < o);
                    assert(queen_col + o >= board_size);
                }
            }
            return false;
        }
        let next_queen_col = queens[line + offset];
        if (!up_is_off && next_queen_col == queen_col - offset) || (!down_is_off && next_queen_col
            == queen_col + offset) {
            assert(strikes(
                board_size as int,
                queen_col as int,
                queens[line + offset] as int,
                offset as int,
            ));
            return true;
        }
        offset = offset + 1;
    }
    false
}

/// The number of lines whose queen strikes the queen of a later line.
pub fn count_collisions(board_size: usize, queens: &Vec<usize>) -> (count: usize)
    ensures
        count == collisions(board_size as int, queens@, queens.len() as nat),
        count <= queens.len(),
{
    let mut count: usize = 0;
    let mut line: usize = 0;
    while line < queens.len()
        invariant
            line <= queens.len(),
            count == collisions(board_size as int, queens@, line as nat),
            count <= line,
        decreases queens.len() - line,
    {
        if line_collides(board_size, queens, line) {
            count = count + 1;
        }
        line = line + 1;
    }
    count
}

/// An instance of the queens problem.
pub struct ProblemNQueens {
    pub board_size: usize,
}

/// The queens problem on a board.
pub struct NQueens {
    config: Config,
    problem: ProblemNQueens,
}

impl NQueens {
    /// The problem that the instance poses.
    pub closed spec fn instance(&self) -> ProblemNQueens {
        self.problem
    }

    /// The configuration that the problem was made with.
    pub closed spec fn configuration(&self) -> Config {
        self.config
    }

    pub fn new(problem: ProblemNQueens, config: Config) -> (queens: Self)
        ensures
            queens.instance() == problem,
            queens.configuration() == config,
    {
        NQueens { problem, config }
    }

    /// The columns that an individual places its queens in, line by line:
    /// its order.
    pub fn decode(&self, individual: &Individual) -> (columns: Vec<usize>)
        requires
            individual@ is Permuted,
        ensures
            columns@ == individual@.order(),
    {
        match individual {
            Individual::Binary(_) => unreached(),
            Individual::Permuted(value) => {
                let columns = value.clone();
                assert(columns@ =~= value@);
                columns
            },
        }
    }

    /// The number of lines whose queen strikes the queen of a later line.
    pub fn objective(&self, individual: &Vec<usize>) -> (count: usize)
        ensures
            count == collisions(
                self.instance().board_size as int,
                individual@,
                individual.len() as nat,
            ),
            count <= individual.len(),
    {
        count_collisions(self.problem.board_size, individual)
    }

    /// The size of the board.
    pub fn board_size(&self) -> (size: usize)
        ensures
            size == self.instance().board_size,
    {
        self.problem.board_size
    }

    /// The configuration that the problem was made with.
    pub fn get_config(&self) -> (config: &Config)
        ensures
            *config == self.configuration(),
    {
        &self.config
    }
}

} // verus!
