//! Reading the description of the simulated system: where its particles
//! come from, its cell, its potentials and its initial velocities.
//!
//! The readers only say what the configuration asks for. Opening files,
//! building the cell and drawing velocities is the caller's work.

use vstd::prelude::*;
use vstd::string::*;
use toml::value::{Table, Value};
use crate::input::error::{Error, fails_with, or_error};
use crate::input::extract::{Number, as_number, number_of, slice, slice_spec, str, str_spec};
use crate::input::values::{
    as_array,
    as_array_of,
    as_bool,
    as_bool_of,
    as_str,
    as_str_of,
    as_table,
    as_table_of,
    get,
    table_entries,
};

verus! {

/// The cell that a configuration asks for.
#[derive(Clone, Copy, Debug, PartialEq, Eq, Structural)]
pub enum CellInput {
    /// An empty array: a cell without boundaries.
    Infinite,
    /// One number: a cube of that edge.
    Cubic(Number),
    /// Three numbers: the edges of a cell with right angles.
    Orthorhombic(Number, Number, Number),
    /// Six numbers: three edges, then three angles.
    Triclinic(Number, Number, Number, Number, Number, Number),
}

/// What a configuration says of the initial velocities.
pub enum VelocitiesInput<'a> {
    /// Nothing.
    Absent,
    /// There is a `velocities` table, but it asks for nothing.
    Ignored,
    /// Velocities drawn from the Boltzmann distribution at the temperature
    /// that the text gives.
    Boltzmann(&'a str),
}

/// What a `VelocitiesInput` says, with the text by its characters.
pub enum VelocitiesView {
    Absent,
    Ignored,
    Boltzmann(Seq<char>),
}

impl<'a> View for VelocitiesInput<'a> {
    type V = VelocitiesView;

    open spec fn view(&self) -> VelocitiesView {
        match self {
            VelocitiesInput::Absent => VelocitiesView::Absent,
            VelocitiesInput::Ignored => VelocitiesView::Ignored,
            VelocitiesInput::Boltzmann(text) => VelocitiesView::Boltzmann(text@),
        }
    }
}

/// Where a configuration takes its potentials from.
pub enum PotentialsInput<'a> {
    /// It names none.
    Absent,
    /// From the file at this path.
    File(&'a str),
    /// From this table.
    Inline(&'a Table),
}

/// What a `PotentialsInput` says, with the path by its characters.
pub enum PotentialsView {
    Absent,
    File(Seq<char>),
    Inline(Table),
}

impl<'a> View for PotentialsInput<'a> {
    type V = PotentialsView;

    open spec fn view(&self) -> PotentialsView {
        match self {
            PotentialsInput::Absent => PotentialsView::Absent,
            PotentialsInput::File(path) => PotentialsView::File(path@),
            PotentialsInput::Inline(table) => PotentialsView::Inline(**table),
        }
    }
}

/// Where the particles of the system come from, and how they are read.
pub struct SystemInput<'a> {
    /// The path of the file that holds the particles.
    pub file: &'a str,
    /// The cell that replaces the one of the file, if any.
    pub cell: Option<CellInput>,
    /// The path of a file that holds the topology, if any.
    pub topology: Option<&'a str>,
    /// Whether bonds are guessed from the distances between particles.
    pub guess_bonds: bool,
}

/// What a `SystemInput` says, with the paths by their characters.
pub struct SystemView {
    pub file: Seq<char>,
    pub cell: Option<CellInput>,
    pub topology: Option<Seq<char>>,
    pub guess_bonds: bool,
}

impl<'a> View for SystemInput<'a> {
    type V = SystemView;

    open spec fn view(&self) -> SystemView {
        SystemView {
            file: self.file@,
            cell: self.cell,
            topology: match self.topology {
                Some(path) => Some(path@),
                None => None,
            },
            guess_bonds: self.guess_bonds,
        }
    }
}

/// The table of the one system that `config` describes, or what is wrong.
pub open spec fn system_table_spec(config: Table) -> Result<Table, Seq<char>> {
    match slice_spec("systems"@, config, "input file"@) {
        Err(text) => Err(text),
        Ok(systems) => if systems.len() == 0 {
            Err("'systems' array should contain a system"@)
        } else if systems.len() > 1 {
            Err("Only one system is supported in input file"@)
        } else {
            match as_table_of(systems[0]) {
                Some(system) => Ok(system),
                None => Err("'systems' should be an array of tables in input file"@),
            }
        },
    }
}

/// The number that `value` is, or the error of the `cell` array.
pub open spec fn cell_number_spec(value: Value) -> Result<Number, Seq<char>> {
    match number_of(value) {
        Some(number) => Ok(number),
        None => Err("Values must be numbers in 'cell' array"@),
    }
}

/// Whether the first `count` of `numbers` are numbers indeed.
pub open spec fn all_numbers(numbers: Seq<Option<Number>>, count: int) -> bool {
    forall|k: int| 0 <= k < count ==> (#[trigger] numbers[k]) is Some
}

/// The cell that an array describes, from what each of its items is as a
/// number: none for a cell without boundaries, three edges, or three edges
/// and three angles.
pub open spec fn cell_of(numbers: Seq<Option<Number>>) -> Result<CellInput, Seq<char>> {
    if numbers.len() == 0 {
        Ok(CellInput::Infinite)
    } else if numbers.len() == 3 {
        if all_numbers(numbers, 3) {
            Ok(CellInput::Orthorhombic(numbers[0]->0, numbers[1]->0, numbers[2]->0))
        } else {
            Err("Values must be numbers in 'cell' array"@)
        }
    } else if numbers.len() == 6 {
        if all_numbers(numbers, 6) {
            Ok(
                CellInput::Triclinic(
                    numbers[0]->0,
                    numbers[1]->0,
                    numbers[2]->0,
                    numbers[3]->0,
                    numbers[4]->0,
                    numbers[5]->0,
                ),
            )
        } else {
            Err("Values must be numbers in 'cell' array"@)
        }
    } else {
        Err("'cell' array must have a size of 3 or 6"@)
    }
}

/// What each of `items` is as a number.
pub open spec fn numbers_of(items: Seq<Value>) -> Seq<Option<Number>> {
    Seq::new(items.len(), |k: int| number_of(items[k]))
}

/// The cell that the table `system` asks for, or what is wrong.
pub open spec fn cell_spec(system: Table) -> Result<Option<CellInput>, Seq<char>> {
    if !table_entries(system).contains_key("cell"@) {
        Ok(None)
    } else {
        let cell = table_entries(system)["cell"@];
        match as_array_of(cell) {
            Some(items) => match cell_of(numbers_of(items)) {
                Ok(cell) => Ok(Some(cell)),
                Err(text) => Err(text),
            },
            None => match number_of(cell) {
                Some(length) => Ok(Some(CellInput::Cubic(length))),
                None => Err("'cell' must be a number or an array in system"@),
            },
        }
    }
}

/// What the table `system` says of the initial velocities, or what is
/// wrong.
pub open spec fn velocities_spec(system: Table) -> Result<VelocitiesView, Seq<char>> {
    if !table_entries(system).contains_key("velocities"@) {
        Ok(VelocitiesView::Absent)
    } else {
        match as_table_of(table_entries(system)["velocities"@]) {
            None => Err("'velocities' must be a table in system"@),
            Some(velocities) => if table_entries(velocities).contains_key("init"@) {
                match str_spec("init"@, velocities, "velocities initializer"@) {
                    Ok(temperature) => Ok(VelocitiesView::Boltzmann(temperature)),
                    Err(text) => Err(text),
                }
            } else {
                Ok(VelocitiesView::Ignored)
            },
        }
    }
}

/// Where the table `system` takes its potentials from, or what is wrong.
pub open spec fn potentials_spec(system: Table) -> Result<PotentialsView, Seq<char>> {
    if !table_entries(system).contains_key("potentials"@) {
        Ok(PotentialsView::Absent)
    } else {
        let potentials = table_entries(system)["potentials"@];
        match as_str_of(potentials) {
            Some(path) => Ok(PotentialsView::File(path)),
            None => match as_table_of(potentials) {
                Some(table) => Ok(PotentialsView::Inline(table)),
                None => Err("'potentials' must be a string or a table in system"@),
            },
        }
    }
}

/// The path under `topology` in the table `system`, if there is that key.
pub open spec fn topology_spec(system: Table) -> Result<Option<Seq<char>>, Seq<char>> {
    if table_entries(system).contains_key("topology"@) {
        match str_spec("topology"@, system, "system"@) {
            Ok(path) => Ok(Some(path)),
            Err(text) => Err(text),
        }
    } else {
        Ok(None)
    }
}

/// Whether the table `system` asks for guessed bonds: it does not unless
/// it says so.
pub open spec fn guess_bonds_spec(system: Table) -> Result<bool, Seq<char>> {
    if table_entries(system).contains_key("guess_bonds"@) {
        match as_bool_of(table_entries(system)["guess_bonds"@]) {
            Some(guess) => Ok(guess),
            None => Err("'guess_bonds' should be a boolean value in system"@),
        }
    } else {
        Ok(false)
    }
}

/// How the table `system` wants its particles read, or the first thing
/// that is wrong: with the file, then the cell, the topology, the bonds.
pub open spec fn source_spec(system: Table) -> Result<SystemView, Seq<char>> {
    match str_spec("file"@, system, "system"@) {
        Err(text) => Err(text),
        Ok(file) => match cell_spec(system) {
            Err(text) => Err(text),
            Ok(cell) => match topology_spec(system) {
                Err(text) => Err(text),
                Ok(topology) => match guess_bonds_spec(system) {
                    Err(text) => Err(text),
                    Ok(guess_bonds) => Ok(SystemView { file, cell, topology, guess_bonds }),
                },
            },
        },
    }
}

/// How the one system of `config` wants its particles read, or what is
/// wrong.
pub open spec fn read_system_spec(config: Table) -> Result<SystemView, Seq<char>> {
    match system_table_spec(config) {
        Err(text) => Err(text),
        Ok(system) => source_spec(system),
    }
}

/// The cell that the one system of `config` asks for, or what is wrong.
pub open spec fn read_cell_spec(config: Table) -> Result<Option<CellInput>, Seq<char>> {
    match system_table_spec(config) {
        Err(text) => Err(text),
        Ok(system) => cell_spec(system),
    }
}

/// What the one system of `config` says of the initial velocities, or
/// what is wrong.
pub open spec fn init_velocities_spec(config: Table) -> Result<VelocitiesView, Seq<char>> {
    match system_table_spec(config) {
        Err(text) => Err(text),
        Ok(system) => velocities_spec(system),
    }
}

/// Where the one system of `config` takes its potentials from, or what is
/// wrong.
pub open spec fn read_potentials_spec(config: Table) -> Result<PotentialsView, Seq<char>> {
    match system_table_spec(config) {
        Err(text) => Err(text),
        Ok(system) => potentials_spec(system),
    }
}

/// The only system among `items`, or the error that there is none, or
/// more than one.
pub fn only_system<T>(items: &[T]) -> (result: Result<&T, Error>)
    ensures
        match result {
            Ok(item) => items@.len() == 1 && *item == items@[0],
            Err(error) => if items@.len() == 0 {
                error.text() == "'systems' array should contain a system"@
            } else {
                items@.len() > 1 && error.text() == "Only one system is supported in input file"@
            },
        },
{
    if items.len() == 0 {
        return Err(Error::from("'systems' array should contain a system"));
    }
    if items.len() > 1 {
        return Err(Error::from("Only one system is supported in input file"));
    }
    Ok(&items[0])
}

/// The number that an item of the `cell` array is, or the error that it
/// is none.
pub fn cell_number(number: Option<Number>) -> (result: Result<Number, Error>)
    ensures
        match number {
            Some(held) => result == Ok::<Number, Error>(held),
            None => fails_with(result, "Values must be numbers in 'cell' array"@),
        },
{
    or_error(number, "Values must be numbers in 'cell' array")
}

/// The number that `value` is, or the error of the `cell` array.
pub fn get_cell_number(value: &Value) -> (result: Result<Number, Error>)
    ensures
        match result {
            Ok(number) => cell_number_spec(*value) == Ok::<Number, Seq<char>>(number),
            Err(error) => cell_number_spec(*value) == Err::<Number, Seq<char>>(error.text()),
        },
{
    cell_number(as_number(value))
}

/// The cell that an array describes, from what each of its items is as a
/// number.
pub fn cell_from_numbers(numbers: &Vec<Option<Number>>) -> (result: Result<CellInput, Error>)
    ensures
        match result {
            Ok(cell) => cell_of(numbers@) == Ok::<CellInput, Seq<char>>(cell),
            Err(error) => cell_of(numbers@) == Err::<CellInput, Seq<char>>(error.text()),
        },
{
    if numbers.len() == 0 {
        Ok(CellInput::Infinite)
    } else if numbers.len() == 3 {
        let a = match cell_number(numbers[0]) {
            Ok(number) => number,
            Err(error) => {
                return Err(error);
            },
        };
        let b = match cell_number(numbers[1]) {
            Ok(number) => number,
            Err(error) => {
                return Err(error);
            },
        };
        let c = match cell_number(numbers[2]) {
            Ok(number) => number,
            Err(error) => {
                return Err(error);
            },
        };
        Ok(CellInput::Orthorhombic(a, b, c))
    } else if numbers.len() == 6 {
        let a = match cell_number(numbers[0]) {
            Ok(number) => number,
            Err(error) => {
                return Err(error);
            },
        };
        let b = match cell_number(numbers[1]) {
            Ok(number) => number,
            Err(error) => {
                return Err(error);
            },
        };
        let c = match cell_number(numbers[2]) {
            Ok(number) => number,
            Err(error) => {
                return Err(error);
            },
        };
        let alpha = match cell_number(numbers[3]) {
            Ok(number) => number,
            Err(error) => {
                return Err(error);
            },
        };
        let beta = match cell_number(numbers[4]) {
            Ok(number) => number,
            Err(error) => {
                return Err(error);
            },
        };
        let gamma = match cell_number(numbers[5]) {
            Ok(number) => number,
            Err(error) => {
                return Err(error);
            },
        };
        Ok(CellInput::Triclinic(a, b, c, alpha, beta, gamma))
    } else {
        Err(Error::from("'cell' array must have a size of 3 or 6"))
    }
}

/// The cell of one number, or the error that `cell` is neither a number
/// nor an array.
pub fn cubic_cell(length: Option<Number>) -> (result: Result<CellInput, Error>)
    ensures
        match length {
            Some(edge) => result == Ok::<CellInput, Error>(CellInput::Cubic(edge)),
            None => fails_with(result, "'cell' must be a number or an array in system"@),
        },
{
    match length {
        Some(edge) => Ok(CellInput::Cubic(edge)),
        None => Err(Error::from("'cell' must be a number or an array in system")),
    }
}

/// What a `velocities` table asks for, from what stands under its key
/// `init`, if anything.
pub fn velocities_from<'a>(init: Option<Result<&'a str, Error>>) -> (result: Result<
    VelocitiesInput<'a>,
    Error,
>)
    ensures
        match init {
            None => result matches Ok(velocities) && velocities@ == VelocitiesView::Ignored,
            Some(Ok(temperature)) => result matches Ok(velocities) && velocities@
                == VelocitiesView::Boltzmann(temperature@),
            Some(Err(error)) => fails_with(result, error.text()),
        },
{
    match init {
        None => Ok(VelocitiesInput::Ignored),
        Some(Ok(temperature)) => Ok(VelocitiesInput::Boltzmann(temperature)),
        Some(Err(error)) => Err(error),
    }
}

/// Where potentials come from, from what stands under `potentials` as a
/// string and as a table: the file that the string names, or else the
/// table.
pub fn potentials_from<'a>(path: Option<&'a str>, table: Option<&'a Table>) -> (result: Result<
    PotentialsInput<'a>,
    Error,
>)
    ensures
        match path {
            Some(text) => result matches Ok(potentials) && potentials@ == PotentialsView::File(text@),
            None => match table {
                Some(inline) => result matches Ok(potentials) && potentials@
                    == PotentialsView::Inline(*inline),
                None => fails_with(result, "'potentials' must be a string or a table in system"@),
            },
        },
{
    if let Some(text) = path {
        Ok(PotentialsInput::File(text))
    } else if let Some(inline) = table {
        Ok(PotentialsInput::Inline(inline))
    } else {
        Err(Error::from("'potentials' must be a string or a table in system"))
    }
}

/// The description of a simulation, as a TOML table, and the path of the
/// file that it was read from.
pub struct Input {
    path: String,
    config: Table,
}

impl Input {
    /// The table that describes the simulation.
    pub closed spec fn config_spec(&self) -> Table {
        self.config
    }

    /// The path of the file that the description was read from.
    pub closed spec fn path_spec(&self) -> Seq<char> {
        self.path@
    }

    /// The description `config`, read from the file at `path`.
    pub fn new(path: &str, config: Table) -> (input: Input)
        ensures
            input.config_spec() == config,
            input.path_spec() == path@,
    {
        Input { path: path.to_owned(), config }
    }

    /// The path of the file that the description was read from.
    pub fn path(&self) -> (path: &str)
        ensures
            path@ == self.path_spec(),
    {
        self.path.as_str()
    }

    /// The table that describes the simulation.
    pub fn config(&self) -> (config: &Table)
        ensures
            *config == self.config_spec(),
    {
        &self.config
    }

    /// The table of the simulated system: the only item of the array
    /// `systems`.
    pub fn system_table(&self) -> (result: Result<&Table, Error>)
        ensures
            match result {
                Ok(system) => system_table_spec(self.config_spec()) == Ok::<Table, Seq<char>>(*system),
                Err(error) => system_table_spec(self.config_spec()) == Err::<Table, Seq<char>>(
                    error.text(),
                ),
            },
    {
        let systems = match slice("systems", &self.config, "input file") {
            Ok(systems) => systems,
            Err(error) => {
                return Err(error);
            },
        };
        match only_system(systems) {
            Ok(system) => or_error(
                as_table(system),
                "'systems' should be an array of tables in input file",
            ),
            Err(error) => Err(error),
        }
    }

    /// How the particles of the system are to be read: from which file,
    /// into which cell, with which topology, with guessed bonds or not.
    pub fn read_system(&self) -> (result: Result<SystemInput<'_>, Error>)
        ensures
            match result {
                Ok(source) => read_system_spec(self.config_spec()) == Ok::<SystemView, Seq<char>>(
                    source@,
                ),
                Err(error) => read_system_spec(self.config_spec()) == Err::<SystemView, Seq<char>>(
                    error.text(),
                ),
            },
    {
        let config = match self.system_table() {
            Ok(config) => config,
            Err(error) => {
                return Err(error);
            },
        };
        let file = match str("file", config, "system") {
            Ok(file) => file,
            Err(error) => {
                return Err(error);
            },
        };
        let cell = match read_cell_of(config) {
            Ok(cell) => cell,
            Err(error) => {
                return Err(error);
            },
        };
        let topology = if get(config, "topology").is_some() {
            match str("topology", config, "system") {
                Ok(path) => Some(path),
                Err(error) => {
                    return Err(error);
                },
            }
        } else {
            None
        };
        let guess_bonds = match get(config, "guess_bonds") {
            Some(guess) => match or_error(
                as_bool(guess),
                "'guess_bonds' should be a boolean value in system",
            ) {
                Ok(guess) => guess,
                Err(error) => {
                    return Err(error);
                },
            },
            None => false,
        };
        Ok(SystemInput { file, cell, topology, guess_bonds })
    }

    /// The cell that the configuration asks for: `None` if it names none.
    pub fn read_cell(&self) -> (result: Result<Option<CellInput>, Error>)
        ensures
            match result {
                Ok(cell) => read_cell_spec(self.config_spec()) == Ok::<Option<CellInput>, Seq<char>>(
                    cell,
                ),
                Err(error) => read_cell_spec(self.config_spec()) == Err::<
                    Option<CellInput>,
                    Seq<char>,
                >(error.text()),
            },
    {
        match self.system_table() {
            Ok(config) => read_cell_of(config),
            Err(error) => Err(error),
        }
    }

    /// What the configuration says of the initial velocities.
    pub fn init_velocities(&self) -> (result: Result<VelocitiesInput<'_>, Error>)
        ensures
            match result {
                Ok(velocities) => init_velocities_spec(self.config_spec()) == Ok::<
                    VelocitiesView,
                    Seq<char>,
                >(velocities@),
                Err(error) => init_velocities_spec(self.config_spec()) == Err::<
                    VelocitiesView,
                    Seq<char>,
                >(error.text()),
            },
    {
        let config = match self.system_table() {
            Ok(config) => config,
            Err(error) => {
                return Err(error);
            },
        };
        let velocities = match get(config, "velocities") {
            Some(velocities) => velocities,
            None => {
                return Ok(VelocitiesInput::Absent);
            },
        };
        match or_error(as_table(velocities), "'velocities' must be a table in system") {
            Ok(velocities) => {
                if get(velocities, "init").is_some() {
                    velocities_from(Some(str("init", velocities, "velocities initializer")))
                } else {
                    velocities_from(None)
                }
            },
            Err(error) => Err(error),
        }
    }

    /// Where the configuration takes its potentials from.
    pub fn read_potentials(&self) -> (result: Result<PotentialsInput<'_>, Error>)
        ensures
            match result {
                Ok(potentials) => read_potentials_spec(self.config_spec()) == Ok::<
                    PotentialsView,
                    Seq<char>,
                >(potentials@),
                Err(error) => read_potentials_spec(self.config_spec()) == Err::<
                    PotentialsView,
                    Seq<char>,
                >(error.text()),
            },
    {
        let config = match self.system_table() {
            Ok(config) => config,
            Err(error) => {
                return Err(error);
            },
        };
        match get(config, "potentials") {
            Some(potentials) => potentials_from(as_str(potentials), as_table(potentials)),
            None => Ok(PotentialsInput::Absent),
        }
    }
}

/// The cell that the table `config` of a system asks for.
pub fn read_cell_of(config: &Table) -> (result: Result<Option<CellInput>, Error>)
    ensures
        match result {
            Ok(cell) => cell_spec(*config) == Ok::<Option<CellInput>, Seq<char>>(cell),
            Err(error) => cell_spec(*config) == Err::<Option<CellInput>, Seq<char>>(error.text()),
        },
{
    let cell = match get(config, "cell") {
        Some(cell) => cell,
        None => {
            return Ok(None);
        },
    };
    let described = match as_array(cell) {
        Some(items) => {
            let mut numbers: Vec<Option<Number>> = Vec::new();
            let mut k: usize = 0;
            while k < items.len()
                invariant
                    k <= items.len(),
                    numbers@.len() == k,
                    forall|n: int| 0 <= n < k ==> numbers@[n] == number_of(items@[n]),
                decreases items.len() - k,
            {
                numbers.push(as_number(&items[k]));
                k += 1;
            }
            assert(numbers@ =~= numbers_of(items@));
            cell_from_numbers(&numbers)
        },
        None => cubic_cell(as_number(cell)),
    };
    match described {
        Ok(cell) => Ok(Some(cell)),
        Err(error) => Err(error),
    }
}

} // verus!
