//! The algorithms that pools can be made with, by name.
use vstd::prelude::*;
use vstd::string::StringExecFns;

use crate::text::decimal;

verus! {

/// Algorithm to use if none is given.
pub const DEFAULT_ALGORITHM: &'static str = "most_liquid";

/// A built-in algorithm.
#[derive(Debug, Clone, Copy, PartialEq, Eq, Structural)]
pub enum BuiltIn {
    MostLiquid,
    BellmanFord,
    PathFrankWolfe,
}

impl BuiltIn {
    /// The name of the algorithm.
    pub open spec fn spec_name(self) -> Seq<char> {
        match self {
            BuiltIn::MostLiquid => "most_liquid"@,
            BuiltIn::BellmanFord => "bellman_ford"@,
            BuiltIn::PathFrankWolfe => "path_frank_wolfe"@,
        }
    }

    /// The name of the algorithm.
    pub fn name(&self) -> (r: &'static str)
        ensures
            r@ == self.spec_name(),
    {
        match self {
            BuiltIn::MostLiquid => "most_liquid",
            BuiltIn::BellmanFord => "bellman_ford",
            BuiltIn::PathFrankWolfe => "path_frank_wolfe",
        }
    }
}

/// No two built-in algorithms share a name.
pub proof fn names_are_distinct(a: BuiltIn, b: BuiltIn)
    ensures
        a.spec_name() == b.spec_name() ==> a == b,
{
    reveal_strlit("most_liquid");
    reveal_strlit("bellman_ford");
    reveal_strlit("path_frank_wolfe");
    assert("most_liquid"@.len() == 11);
    assert("bellman_ford"@.len() == 12);
    assert("path_frank_wolfe"@.len() == 16);
}

/// The built-in algorithm with a name.
pub fn built_in(name: &String) -> (r: Option<BuiltIn>)
    ensures
        match r {
            Some(algorithm) => algorithm.spec_name() == name@,
            None => forall|algorithm: BuiltIn| #[trigger] algorithm.spec_name() != name@,
        },
{
    if *name == "most_liquid".to_string() {
        Some(BuiltIn::MostLiquid)
    } else if *name == "bellman_ford".to_string() {
        Some(BuiltIn::BellmanFord)
    } else if *name == "path_frank_wolfe".to_string() {
        Some(BuiltIn::PathFrankWolfe)
    } else {
        None
    }
}

/// The error for a name that no built-in algorithm has.
#[derive(Debug)]
pub struct UnknownAlgorithmError {
    /// The algorithm name that was not found.
    pub name: String,
}

impl UnknownAlgorithmError {
    /// The algorithm name that was not found.
    pub fn name(&self) -> (r: &str)
        ensures
            r@ == self.name@,
    {
        self.name.as_str()
    }

    /// The error in words, with the names that there are.
    pub fn message(&self) -> (r: String)
        ensures
            r@ == "unknown algorithm '"@ + self.name@
                + "'. Available: most_liquid, bellman_ford, path_frank_wolfe"@,
    {
        "unknown algorithm '".to_string().concat(self.name.as_str()).concat(
            "'. Available: most_liquid, bellman_ford, path_frank_wolfe",
        )
    }
}

/// How a pool makes its workers' algorithms.
#[derive(Debug)]
pub enum AlgorithmSpawner<S> {
    /// A built-in algorithm, looked up by name.
    Registry { algorithm: String },
    /// A caller's own algorithm, made by its factory whatever its name.
    Custom { algorithm: String, spawner: S },
}

/// What makes the algorithms of a pool's workers.
#[derive(Debug)]
pub enum Factory<S> {
    BuiltIn(BuiltIn),
    Custom(S),
}

impl<S> AlgorithmSpawner<S> {
    /// The name of the algorithm.
    pub open spec fn spec_name(self) -> Seq<char> {
        match self {
            AlgorithmSpawner::Registry { algorithm } => algorithm@,
            AlgorithmSpawner::Custom { algorithm, .. } => algorithm@,
        }
    }

    /// The name of the algorithm.
    pub fn algorithm_name(&self) -> (r: &str)
        ensures
            r@ == self.spec_name(),
    {
        match self {
            AlgorithmSpawner::Registry { algorithm } => algorithm.as_str(),
            AlgorithmSpawner::Custom { algorithm, .. } => algorithm.as_str(),
        }
    }

    /// What makes the algorithms: the built-in algorithm with the name, or the caller's factory.
    pub fn spawn(self) -> (r: Result<Factory<S>, UnknownAlgorithmError>)
        ensures
            match self {
                AlgorithmSpawner::Registry { algorithm } => match r {
                    Ok(factory) => factory matches Factory::BuiltIn(b) && b.spec_name()
                        == algorithm@,
                    Err(error) => error.name == algorithm && forall|b: BuiltIn| #[trigger]
                        b.spec_name() != algorithm@,
                },
                AlgorithmSpawner::Custom { spawner, .. } => r == Ok::<_, UnknownAlgorithmError>(
                    Factory::Custom(spawner),
                ),
            },
    {
        match self {
            AlgorithmSpawner::Registry { algorithm } => match built_in(&algorithm) {
                Some(b) => Ok(Factory::BuiltIn(b)),
                None => Err(UnknownAlgorithmError { name: algorithm }),
            },
            AlgorithmSpawner::Custom { spawner, .. } => Ok(Factory::Custom(spawner)),
        }
    }
}

/// The name of a worker's thread.
pub open spec fn thread_name(algorithm: Seq<char>, worker_id: nat) -> Seq<char> {
    algorithm + "-worker-"@ + crate::text::decimal_text(worker_id)
}

/// The names of the threads of a pool's workers, one for each, numbered from zero.
pub fn thread_names(algorithm: &str, num_workers: usize) -> (r: Vec<String>)
    ensures
        r@.len() == num_workers,
        forall|i: int|
            0 <= i < num_workers ==> (#[trigger] r@[i])@ == thread_name(algorithm@, i as nat),
{
    let mut names: Vec<String> = Vec::new();
    let mut i: usize = 0;
    while i < num_workers
        invariant
            i <= num_workers,
            names@.len() == i,
            forall|j: int|
                0 <= j < i ==> (#[trigger] names@[j])@ == thread_name(algorithm@, j as nat),
        decreases num_workers - i,
    {
        let name: String = algorithm.to_string().concat("-worker-").concat(
            decimal(i as u64).as_str(),
        );
        names.push(name);
        i += 1;
    }
    names
}

/// The built-in algorithms are known by these names.
pub proof fn names_of_built_in_algorithms()
    ensures
        forall|algorithm: BuiltIn| #[trigger]
            algorithm.spec_name() == "most_liquid"@ || algorithm.spec_name() == "bellman_ford"@
                || algorithm.spec_name() == "path_frank_wolfe"@,
        BuiltIn::MostLiquid.spec_name() == "most_liquid"@,
        BuiltIn::BellmanFord.spec_name() == "bellman_ford"@,
        BuiltIn::PathFrankWolfe.spec_name() == "path_frank_wolfe"@,
{
}

/// A worker's thread is named by its algorithm and its number, and no two workers of a pool share a name.
pub proof fn threads_are_told_apart(algorithm: Seq<char>, a: nat, b: nat)
    ensures
        thread_name(algorithm, a).take(algorithm.len() as int) == algorithm,
        thread_name(algorithm, a) == thread_name(algorithm, b) ==> a == b,
{
    let head = algorithm + "-worker-"@;
    let x = thread_name(algorithm, a);
    let y = thread_name(algorithm, b);
    assert(x.take(algorithm.len() as int) =~= algorithm);
    if x == y {
        assert(x.skip(head.len() as int) =~= crate::text::decimal_text(a));
        assert(y.skip(head.len() as int) =~= crate::text::decimal_text(b));
        crate::text::decimal_text_stands_for_its_number(a);
        crate::text::decimal_text_stands_for_its_number(b);
    }
}

} // verus!
