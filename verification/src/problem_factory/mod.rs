//! The problems that the engine is run on, as far as they are counted in
//! whole numbers.
pub mod decoding;
pub mod instance_text;
pub mod names;
pub mod nqueens;
pub mod sat_3;

use vstd::prelude::*;

verus! {

/// The problems that can be run.
#[derive(Debug, Copy, Clone, PartialEq, Eq, Structural)]
pub enum Problems {
    SAT3,
    Radio,
    AlgebraicFunction,
    NQueens,
}

/// The name under which a problem is asked for.
pub open spec fn name_of(problem: Problems) -> Seq<char> {
    match problem {
        Problems::SAT3 => "SAT-3"@,
        Problems::Radio => "RADIO"@,
        Problems::AlgebraicFunction => "ALGEBRAIC-FUNCTION"@,
        Problems::NQueens => "NQUEENS"@,
    }
}

/// The problem that goes by `name`, spelled in capitals.
pub open spec fn named(name: Seq<char>) -> Option<Problems> {
    if name == "SAT-3"@ {
        Some(Problems::SAT3)
    } else if name == "RADIO"@ {
        Some(Problems::Radio)
    } else if name == "ALGEBRAIC-FUNCTION"@ {
        Some(Problems::AlgebraicFunction)
    } else if name == "NQUEENS"@ {
        Some(Problems::NQueens)
    } else {
        None
    }
}

impl Problems {
    /// The name under which the problem is asked for.
    pub fn name(&self) -> (name: String)
        ensures
            name@ == name_of(*self),
    {
        match self {
            Problems::SAT3 => "SAT-3".to_owned(),
            Problems::Radio => "RADIO".to_owned(),
            Problems::AlgebraicFunction => "ALGEBRAIC-FUNCTION".to_owned(),
            Problems::NQueens => "NQUEENS".to_owned(),
        }
    }

    /// The problem that goes by `name`, spelled in capitals, if there is
    /// one.
    pub fn from_name(name: &String) -> (problem: Option<Problems>)
        ensures
            problem == named(name@),
    {
        if *name == "SAT-3".to_owned() {
            Some(Problems::SAT3)
        } else if *name == "RADIO".to_owned() {
            Some(Problems::Radio)
        } else if *name == "ALGEBRAIC-FUNCTION".to_owned() {
            Some(Problems::AlgebraicFunction)
        } else if *name == "NQUEENS".to_owned() {
            Some(Problems::NQueens)
        } else {
            None
        }
    }
}

/// Whether the arguments of a run fit together: an instance or a
/// configuration can be named only together with a problem.
pub open spec fn arguments_fit(problem_given: bool, instance_given: bool, config_given: bool) -> bool {
    problem_given || (!instance_given && !config_given)
}

/// Tells whether the arguments of a run fit together.
pub fn validate_args(problem_given: bool, instance_given: bool, config_given: bool) -> (ok: bool)
    ensures
        ok == arguments_fit(problem_given, instance_given, config_given),
{
    if !problem_given {
        if instance_given || config_given {
            return false;
        }
        return true;
    }
    true
}

} // verus!
