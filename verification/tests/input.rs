use lumol_core::input::error::{or_error, Error};
use lumol_core::input::extract;
use lumol_core::input::extract::Number;
use lumol_core::input::minimization::{
    minimizer_named, Minimization, Minimizer, SteepestDescent, Tolerance,
};
use lumol_core::input::system::{
    cell_from_numbers, cell_number, cubic_cell, get_cell_number, only_system, potentials_from,
    read_cell_of, velocities_from, CellInput, Input, PotentialsInput, VelocitiesInput,
};
use toml::value::{Table, Value};

fn parse(text: &str) -> Table {
    match text.parse::<Value>().unwrap() {
        Value::Table(table) => table,
        _ => unreachable!(),
    }
}

fn text_of<T>(result: Result<T, Error>) -> String {
    match result {
        Ok(_) => panic!("expected an error"),
        Err(error) => String::from(error.message()),
    }
}

#[test]
fn extract_table() {
    let config = parse("[inner]\nkey = 1\n\n[other]\nname = 'x'\nplain = 3\n");
    let inner = extract::table("inner", &config, "test").unwrap();
    assert_eq!(inner.len(), 1);
    assert_eq!(inner.get("key"), Some(&Value::Integer(1)));
    let other = extract::table("other", &config, "test").unwrap();
    assert_eq!(other.len(), 2);
    assert_eq!(text_of(extract::table("absent", &config, "test")), "Missing 'absent' key in test");
    assert_eq!(
        text_of(extract::table("plain", other, "other table")),
        "'plain' must be a table in other table"
    );
}

#[test]
fn extract_str() {
    let config = parse("name = 'helium'\ncount = 3\n");
    assert_eq!(extract::str("name", &config, "test").unwrap(), "helium");
    assert_eq!(text_of(extract::str("none", &config, "test")), "Missing 'none' key in test");
    assert_eq!(text_of(extract::str("count", &config, "a test")), "'count' must be a string in a test");
}

#[test]
fn extract_number() {
    let config = parse("whole = -42\nreal = 2.5\ntext = '2.5'\n");
    assert_eq!(extract::number("whole", &config, "test").unwrap(), Number::Integer(-42));
    assert_eq!(
        extract::number("real", &config, "test").unwrap(),
        Number::Float { bits: 2.5f64.to_bits() }
    );
    assert_eq!(text_of(extract::number("none", &config, "test")), "Missing 'none' key in test");
    assert_eq!(text_of(extract::number("text", &config, "test")), "'text' must be a number in test");
}

#[test]
fn extract_slice() {
    let config = parse("items = [1, 2, 3]\nempty = []\nsingle = 1\n");
    let items = extract::slice("items", &config, "test").unwrap();
    assert_eq!(items.len(), 3);
    assert_eq!(items[2], Value::Integer(3));
    assert_eq!(extract::slice("empty", &config, "test").unwrap().len(), 0);
    assert_eq!(text_of(extract::slice("none", &config, "test")), "Missing 'none' key in test");
    assert_eq!(text_of(extract::slice("single", &config, "test")), "'single' must be an array in test");
}

#[test]
fn extract_typ() {
    let config = parse("type = 'Harmonic'\n");
    assert_eq!(extract::typ(&config, "potential").unwrap(), "Harmonic");
    let config = parse("type = 4\n");
    assert_eq!(text_of(extract::typ(&config, "potential")), "'type' key must be a string in potential");
    let config = parse("kind = 'Harmonic'\n");
    assert_eq!(text_of(extract::typ(&config, "potential")), "Missing 'type' key in potential");
}

#[test]
fn as_number_tells_integers_from_floats() {
    assert_eq!(extract::as_number(&Value::Integer(7)), Some(Number::Integer(7)));
    assert_eq!(
        extract::as_number(&Value::Float(-0.125)),
        Some(Number::Float { bits: (-0.125f64).to_bits() })
    );
    assert_eq!(extract::as_number(&Value::Boolean(true)), None);
    assert_eq!(extract::as_number(&Value::String(String::from("7"))), None);
}

#[test]
fn system_table_wants_one_system() {
    let input = Input::new("input.toml", parse("[[systems]]\nfile = 'a.xyz'\n"));
    assert_eq!(input.path(), "input.toml");
    assert_eq!(input.config().len(), 1);
    let system = input.system_table().unwrap();
    assert_eq!(system.get("file"), Some(&Value::String(String::from("a.xyz"))));

    let input = Input::new("", parse("title = 'none'\n"));
    assert_eq!(text_of(input.system_table()), "Missing 'systems' key in input file");
    let input = Input::new("", parse("systems = 3\n"));
    assert_eq!(text_of(input.system_table()), "'systems' must be an array in input file");
    let input = Input::new("", parse("systems = []\n"));
    assert_eq!(text_of(input.system_table()), "'systems' array should contain a system");
    let input = Input::new("", parse("[[systems]]\nfile = 'a'\n[[systems]]\nfile = 'b'\n"));
    assert_eq!(text_of(input.system_table()), "Only one system is supported in input file");
    let input = Input::new("", parse("systems = [1]\n"));
    assert_eq!(
        text_of(input.system_table()),
        "'systems' should be an array of tables in input file"
    );
}

#[test]
fn read_cell_forms() {
    let float = |x: f64| Number::Float { bits: x.to_bits() };
    let cell = |text: &str| Input::new("", parse(text)).read_cell();
    assert_eq!(cell("[[systems]]\nfile = 'a'\n").unwrap(), None);
    assert_eq!(cell("[[systems]]\ncell = []\n").unwrap(), Some(CellInput::Infinite));
    assert_eq!(cell("[[systems]]\ncell = 10\n").unwrap(), Some(CellInput::Cubic(Number::Integer(10))));
    assert_eq!(cell("[[systems]]\ncell = 10.5\n").unwrap(), Some(CellInput::Cubic(float(10.5))));
    assert_eq!(
        cell("[[systems]]\ncell = [10, 20, 30]\n").unwrap(),
        Some(CellInput::Orthorhombic(Number::Integer(10), Number::Integer(20), Number::Integer(30)))
    );
    assert_eq!(
        cell("[[systems]]\ncell = [10.0, 20.0, 30.0, 90.0, 80.0, 120.0]\n").unwrap(),
        Some(CellInput::Triclinic(
            float(10.0),
            float(20.0),
            float(30.0),
            float(90.0),
            float(80.0),
            float(120.0)
        ))
    );
    assert_eq!(
        text_of(cell("[[systems]]\ncell = [10, 20]\n")),
        "'cell' array must have a size of 3 or 6"
    );
    assert_eq!(
        text_of(cell("[[systems]]\ncell = ['a', 'b', 'c']\n")),
        "Values must be numbers in 'cell' array"
    );
    assert_eq!(
        text_of(cell("[[systems]]\ncell = 'big'\n")),
        "'cell' must be a number or an array in system"
    );
    assert_eq!(text_of(cell("systems = []\n")), "'systems' array should contain a system");
}

#[test]
fn read_cell_of_a_table_with_a_bad_last_number() {
    let mut table = Table::new();
    let items = vec![Value::Integer(1), Value::Float(2.0), Value::Boolean(false)];
    table.insert(String::from("cell"), Value::Array(items));
    assert_eq!(text_of(read_cell_of(&table)), "Values must be numbers in 'cell' array");
    assert_eq!(get_cell_number(&Value::Integer(3)).unwrap(), Number::Integer(3));
    assert_eq!(
        get_cell_number(&Value::Float(3.5)).unwrap(),
        Number::Float { bits: 3.5f64.to_bits() }
    );
    assert_eq!(
        text_of(get_cell_number(&Value::Boolean(true))),
        "Values must be numbers in 'cell' array"
    );
}

#[test]
fn read_system_source() {
    let input = Input::new(
        "",
        parse("[[systems]]\nfile = 'water.xyz'\ncell = 12\ntopology = 'water.pdb'\nguess_bonds = true\n"),
    );
    let source = input.read_system().unwrap();
    assert_eq!(source.file, "water.xyz");
    assert_eq!(source.cell, Some(CellInput::Cubic(Number::Integer(12))));
    assert_eq!(source.topology, Some("water.pdb"));
    assert!(source.guess_bonds);

    let input = Input::new("", parse("[[systems]]\nfile = 'water.xyz'\n"));
    let source = input.read_system().unwrap();
    assert_eq!(source.file, "water.xyz");
    assert_eq!(source.cell, None);
    assert_eq!(source.topology, None);
    assert!(!source.guess_bonds);

    let failing = |text: &str| text_of(Input::new("", parse(text)).read_system());
    assert_eq!(failing("[[systems]]\ncell = 12\n"), "Missing 'file' key in system");
    assert_eq!(failing("[[systems]]\nfile = 1\n"), "'file' must be a string in system");
    assert_eq!(
        failing("[[systems]]\nfile = 'a'\ncell = true\nguess_bonds = 1\n"),
        "'cell' must be a number or an array in system"
    );
    assert_eq!(
        failing("[[systems]]\nfile = 'a'\ntopology = 1\nguess_bonds = 1\n"),
        "'topology' must be a string in system"
    );
    assert_eq!(
        failing("[[systems]]\nfile = 'a'\nguess_bonds = 'yes'\n"),
        "'guess_bonds' should be a boolean value in system"
    );
}

#[test]
fn init_velocities_forms() {
    let read = |text: &str| match Input::new("", parse(text)).init_velocities() {
        Ok(VelocitiesInput::Absent) => String::from("absent"),
        Ok(VelocitiesInput::Ignored) => String::from("ignored"),
        Ok(VelocitiesInput::Boltzmann(temperature)) => format!("boltzmann {}", temperature),
        Err(error) => format!("error {}", error.message()),
    };
    assert_eq!(read("[[systems]]\nfile = 'a'\n"), "absent");
    assert_eq!(read("[[systems]]\nvelocities = {init = '300 K'}\n"), "boltzmann 300 K");
    assert_eq!(read("[[systems]]\nvelocities = {scale = 2}\n"), "ignored");
    assert_eq!(
        read("[[systems]]\nvelocities = 300\n"),
        "error 'velocities' must be a table in system"
    );
    assert_eq!(
        read("[[systems]]\nvelocities = {init = 300}\n"),
        "error 'init' must be a string in velocities initializer"
    );
}

#[test]
fn read_potentials_forms() {
    let read = |text: &str| match Input::new("", parse(text)).read_potentials() {
        Ok(PotentialsInput::Absent) => String::from("absent"),
        Ok(PotentialsInput::File(path)) => format!("file {}", path),
        Ok(PotentialsInput::Inline(table)) => format!("inline {}", table.len()),
        Err(error) => format!("error {}", error.message()),
    };
    assert_eq!(read("[[systems]]\nfile = 'a'\n"), "absent");
    assert_eq!(read("[[systems]]\npotentials = 'water.toml'\n"), "file water.toml");
    assert_eq!(read("[[systems]]\npotentials = {pairs = 1, bonds = 2}\n"), "inline 2");
    assert_eq!(
        read("[[systems]]\npotentials = 4\n"),
        "error 'potentials' must be a string or a table in system"
    );
}

#[test]
fn minimization_from_toml() {
    let config = parse("minimizer = {type = 'SteepestDescent'}\n");
    let minimization = Minimization::from_toml(&config).unwrap();
    assert_eq!(minimization.minimizer, Minimizer::SteepestDescent(SteepestDescent {}));
    assert!(minimization.tolerance.is_none());

    let config = parse(
        "minimizer = {type = 'SteepestDescent'}\ntolerance = {energy = '1e-5 kJ/mol', force2 = '1e-5 kJ^2/mol^2/A^2'}\n",
    );
    let minimization = Minimization::from_toml(&config).unwrap();
    let tolerance = minimization.tolerance.unwrap();
    assert_eq!(tolerance.energy, "1e-5 kJ/mol");
    assert_eq!(tolerance.force2, "1e-5 kJ^2/mol^2/A^2");

    let failing = |text: &str| {
        let config = parse(text);
        text_of(Minimization::from_toml(&config))
    };
    assert_eq!(failing("tolerance = 1\n"), "Missing 'minimizer' key in minimization propagator");
    assert_eq!(failing("minimizer = 1\n"), "'minimizer' must be a table in minimization propagator");
    assert_eq!(failing("minimizer = {kind = 1}\n"), "Missing 'type' key in minimizer");
    assert_eq!(failing("minimizer = {type = 1}\n"), "'type' key must be a string in minimizer");
    assert_eq!(failing("minimizer = {type = 'Newton'}\n"), "Unknown minimizer 'Newton'");
    assert_eq!(
        failing("minimizer = {type = 'SteepestDescent'}\ntolerance = 1\n"),
        "'tolerance' must be a table in minimization propagator"
    );
    assert_eq!(
        failing("minimizer = {type = 'SteepestDescent'}\ntolerance = {force2 = '1'}\n"),
        "Missing 'energy' key in minimization tolerance"
    );
    assert_eq!(
        failing("minimizer = {type = 'SteepestDescent'}\ntolerance = {energy = '1', force2 = 2}\n"),
        "'force2' must be a string in minimization tolerance"
    );
}

#[test]
fn tolerance_and_steepest_descent_from_toml() {
    let config = parse("energy = '1 kJ/mol'\nforce2 = '2 kJ^2/mol^2/A^2'\n");
    let tolerance = Tolerance::from_toml(&config).unwrap();
    assert_eq!(tolerance.energy, "1 kJ/mol");
    assert_eq!(tolerance.force2, "2 kJ^2/mol^2/A^2");
    assert_eq!(SteepestDescent::from_toml(&config).unwrap(), SteepestDescent {});
    assert_eq!(SteepestDescent::from_toml(&Table::new()).unwrap(), SteepestDescent {});
}

#[test]
fn error_texts() {
    assert_eq!(Error::from("plain").message(), "plain");
    assert_eq!(Error::from_parts("a", "b", "", "d").message(), "abd");
}

#[test]
fn found_and_typed_values() {
    assert_eq!(extract::found(Some(3), "key", "context").unwrap(), 3);
    assert_eq!(text_of(extract::found::<u8>(None, "key", "a context")), "Missing 'key' key in a context");
    assert_eq!(extract::typed(Some("x"), "key", "' must be a string in ", "context").unwrap(), "x");
    assert_eq!(
        text_of(extract::typed::<u8>(None, "key", "' must be a number in ", "the context")),
        "'key' must be a number in the context"
    );
    assert_eq!(extract::typed_type(Some("lj"), "potential").unwrap(), "lj");
    assert_eq!(
        text_of(extract::typed_type::<u8>(None, "potential")),
        "'type' key must be a string in potential"
    );
    assert_eq!(or_error(Some(1), "nothing").unwrap(), 1);
    assert_eq!(text_of(or_error::<u8>(None, "nothing")), "nothing");
}

#[test]
fn number_from_integer_or_float() {
    assert_eq!(extract::number_from(Some(-3), None), Some(Number::Integer(-3)));
    assert_eq!(extract::number_from(None, Some(9)), Some(Number::Float { bits: 9 }));
    assert_eq!(extract::number_from(Some(4), Some(9)), Some(Number::Integer(4)));
    assert_eq!(extract::number_from(None, None), None);
}

#[test]
fn only_one_system() {
    assert_eq!(only_system(&[7]).unwrap(), &7);
    assert_eq!(text_of(only_system::<u8>(&[])), "'systems' array should contain a system");
    assert_eq!(text_of(only_system(&[1, 2])), "Only one system is supported in input file");
}

#[test]
fn cell_from_its_numbers() {
    let whole = |value: i64| Some(Number::Integer(value));
    assert_eq!(cell_from_numbers(&vec![]).unwrap(), CellInput::Infinite);
    assert_eq!(
        cell_from_numbers(&vec![whole(1), whole(2), whole(3)]).unwrap(),
        CellInput::Orthorhombic(Number::Integer(1), Number::Integer(2), Number::Integer(3))
    );
    assert_eq!(
        cell_from_numbers(&vec![whole(1), whole(2), whole(3), whole(90), whole(80), whole(70)]).unwrap(),
        CellInput::Triclinic(
            Number::Integer(1),
            Number::Integer(2),
            Number::Integer(3),
            Number::Integer(90),
            Number::Integer(80),
            Number::Integer(70)
        )
    );
    assert_eq!(
        text_of(cell_from_numbers(&vec![whole(1), None, whole(3)])),
        "Values must be numbers in 'cell' array"
    );
    assert_eq!(
        text_of(cell_from_numbers(&vec![whole(1), whole(2), whole(3), whole(4), whole(5), None])),
        "Values must be numbers in 'cell' array"
    );
    for size in [1, 2, 4, 5, 7] {
        assert_eq!(
            text_of(cell_from_numbers(&vec![None; size])),
            "'cell' array must have a size of 3 or 6"
        );
    }
    assert_eq!(cell_number(whole(5)).unwrap(), Number::Integer(5));
    assert_eq!(text_of(cell_number(None)), "Values must be numbers in 'cell' array");
    assert_eq!(cubic_cell(whole(5)).unwrap(), CellInput::Cubic(Number::Integer(5)));
    assert_eq!(text_of(cubic_cell(None)), "'cell' must be a number or an array in system");
}

#[test]
fn velocities_and_potentials_from_what_was_found() {
    assert!(matches!(velocities_from(None), Ok(VelocitiesInput::Ignored)));
    assert!(matches!(velocities_from(Some(Ok("300 K"))), Ok(VelocitiesInput::Boltzmann("300 K"))));
    assert_eq!(text_of(velocities_from(Some(Err(Error::from("bad"))))), "bad");
    let table = Table::new();
    assert!(matches!(potentials_from(Some("file.toml"), None), Ok(PotentialsInput::File("file.toml"))));
    assert!(matches!(
        potentials_from(Some("file.toml"), Some(&table)),
        Ok(PotentialsInput::File("file.toml"))
    ));
    assert!(matches!(potentials_from(None, Some(&table)), Ok(PotentialsInput::Inline(_))));
    assert_eq!(
        text_of(potentials_from(None, None)),
        "'potentials' must be a string or a table in system"
    );
}

#[test]
fn minimizers_by_name() {
    assert_eq!(
        minimizer_named("SteepestDescent").unwrap(),
        Minimizer::SteepestDescent(SteepestDescent {})
    );
    assert_eq!(text_of(minimizer_named("steepestdescent")), "Unknown minimizer 'steepestdescent'");
    assert_eq!(text_of(minimizer_named("")), "Unknown minimizer ''");
}
