//! Reading the description of an energy minimization.

use vstd::prelude::*;
use vstd::string::*;
use toml::value::Table;
use crate::input::error::{Error, fails_with, or_error};
use crate::input::extract::{str, str_spec, table, table_spec, typ, typ_spec};
use crate::input::values::{as_table, as_table_of, get, table_entries};
use crate::names::same_name;

verus! {

/// The steepest descent minimizer. It has no parameters.
#[derive(Clone, Copy, Debug, PartialEq, Eq, Structural)]
pub struct SteepestDescent {}

impl SteepestDescent {
    /// The steepest descent minimizer, whatever `config` holds.
    pub fn from_toml(config: &Table) -> (result: Result<SteepestDescent, Error>)
        ensures
            result is Ok,
    {
        let _ = config;
        Ok(SteepestDescent {  })
    }
}

/// The algorithm that minimizes the energy.
#[derive(Clone, Copy, Debug, PartialEq, Eq, Structural)]
pub enum Minimizer {
    SteepestDescent(SteepestDescent),
}

/// When a minimization has converged: the largest change of energy and the
/// largest squared force that count as none, each as the text of a
/// quantity with its unit.
pub struct Tolerance<'a> {
    pub energy: &'a str,
    pub force2: &'a str,
}

/// What a `Tolerance` says, with its texts by their characters.
pub struct ToleranceView {
    pub energy: Seq<char>,
    pub force2: Seq<char>,
}

impl<'a> View for Tolerance<'a> {
    type V = ToleranceView;

    open spec fn view(&self) -> ToleranceView {
        ToleranceView { energy: self.energy@, force2: self.force2@ }
    }
}

/// A minimization: its minimizer and, unless it is left to the default,
/// its tolerance.
pub struct Minimization<'a> {
    pub minimizer: Minimizer,
    pub tolerance: Option<Tolerance<'a>>,
}

/// What a `Minimization` says, with its texts by their characters.
pub struct MinimizationView {
    pub minimizer: Minimizer,
    pub tolerance: Option<ToleranceView>,
}

impl<'a> View for Minimization<'a> {
    type V = MinimizationView;

    open spec fn view(&self) -> MinimizationView {
        MinimizationView {
            minimizer: self.minimizer,
            tolerance: match self.tolerance {
                Some(tolerance) => Some(tolerance@),
                None => None,
            },
        }
    }
}

/// The tolerance that the table `config` gives, or what is wrong: first
/// with the energy, then with the force.
pub open spec fn tolerance_spec(config: Table) -> Result<ToleranceView, Seq<char>> {
    match str_spec("energy"@, config, "minimization tolerance"@) {
        Err(text) => Err(text),
        Ok(energy) => match str_spec("force2"@, config, "minimization tolerance"@) {
            Err(text) => Err(text),
            Ok(force2) => Ok(ToleranceView { energy, force2 }),
        },
    }
}

/// The minimizer that the table `config` names, or what is wrong.
pub open spec fn minimizer_spec(config: Table) -> Result<Minimizer, Seq<char>> {
    match table_spec("minimizer"@, config, "minimization propagator"@) {
        Err(text) => Err(text),
        Ok(minimizer) => match typ_spec(minimizer, "minimizer"@) {
            Err(text) => Err(text),
            Ok(name) => if name == "SteepestDescent"@ {
                Ok(Minimizer::SteepestDescent(SteepestDescent {  }))
            } else {
                Err("Unknown minimizer '"@ + name + "'"@)
            },
        },
    }
}

/// The tolerance that the table `config` asks for, if it has the key
/// `tolerance`, or what is wrong.
pub open spec fn optional_tolerance_spec(config: Table) -> Result<Option<ToleranceView>, Seq<char>> {
    if table_entries(config).contains_key("tolerance"@) {
        match as_table_of(table_entries(config)["tolerance"@]) {
            None => Err("'tolerance' must be a table in minimization propagator"@),
            Some(tolerance) => match tolerance_spec(tolerance) {
                Ok(tolerance) => Ok(Some(tolerance)),
                Err(text) => Err(text),
            },
        }
    } else {
        Ok(None)
    }
}

/// The minimization that the table `config` describes, or what is wrong:
/// first with the minimizer, then with the tolerance.
pub open spec fn minimization_spec(config: Table) -> Result<MinimizationView, Seq<char>> {
    match minimizer_spec(config) {
        Err(text) => Err(text),
        Ok(minimizer) => match optional_tolerance_spec(config) {
            Err(text) => Err(text),
            Ok(tolerance) => Ok(MinimizationView { minimizer, tolerance }),
        },
    }
}

impl<'a> Tolerance<'a> {
    /// The tolerance that the table `config` gives under `energy` and
    /// `force2`.
    pub fn from_toml(config: &'a Table) -> (result: Result<Tolerance<'a>, Error>)
        ensures
            match result {
                Ok(tolerance) => tolerance_spec(*config) == Ok::<ToleranceView, Seq<char>>(tolerance@),
                Err(error) => tolerance_spec(*config) == Err::<ToleranceView, Seq<char>>(
                    error.text(),
                ),
            },
    {
        let energy = match str("energy", config, "minimization tolerance") {
            Ok(energy) => energy,
            Err(error) => {
                return Err(error);
            },
        };
        let force2 = match str("force2", config, "minimization tolerance") {
            Ok(force2) => force2,
            Err(error) => {
                return Err(error);
            },
        };
        Ok(Tolerance { energy, force2 })
    }
}

/// The minimizer called `name`, or the error that none is called so.
pub fn minimizer_named(name: &str) -> (result: Result<Minimizer, Error>)
    ensures
        if name@ == "SteepestDescent"@ {
            result == Ok::<Minimizer, Error>(Minimizer::SteepestDescent(SteepestDescent {  }))
        } else {
            fails_with(result, "Unknown minimizer '"@ + name@ + "'"@)
        },
{
    if same_name(name, "SteepestDescent") {
        Ok(Minimizer::SteepestDescent(SteepestDescent {  }))
    } else {
        let error = Error::from_parts("Unknown minimizer '", name, "'", "");
        proof {
            reveal_strlit("");
            assert(error.text() =~= "Unknown minimizer '"@ + name@ + "'"@);
        }
        Err(error)
    }
}

impl<'a> Minimization<'a> {
    /// The minimization that the table `config` describes: the minimizer
    /// named under `minimizer`, and the tolerance under `tolerance` if that
    /// key is there.
    pub fn from_toml(config: &'a Table) -> (result: Result<Minimization<'a>, Error>)
        ensures
            match result {
                Ok(minimization) => minimization_spec(*config) == Ok::<MinimizationView, Seq<char>>(
                    minimization@,
                ),
                Err(error) => minimization_spec(*config) == Err::<MinimizationView, Seq<char>>(
                    error.text(),
                ),
            },
    {
        let minimizer = match table("minimizer", config, "minimization propagator") {
            Ok(minimizer) => minimizer,
            Err(error) => {
                return Err(error);
            },
        };
        let name = match typ(minimizer, "minimizer") {
            Ok(name) => name,
            Err(error) => {
                return Err(error);
            },
        };
        let minimizer = match minimizer_named(name) {
            Ok(minimizer) => minimizer,
            Err(error) => {
                return Err(error);
            },
        };
        let tolerance = match get(config, "tolerance") {
            Some(tolerance) => {
                let tolerance = match or_error(
                    as_table(tolerance),
                    "'tolerance' must be a table in minimization propagator",
                ) {
                    Ok(tolerance) => tolerance,
                    Err(error) => {
                        return Err(error);
                    },
                };
                match Tolerance::from_toml(tolerance) {
                    Ok(tolerance) => Some(tolerance),
                    Err(error) => {
                        return Err(error);
                    },
                }
            },
            None => None,
        };
        Ok(Minimization { minimizer, tolerance })
    }
}

} // verus!
