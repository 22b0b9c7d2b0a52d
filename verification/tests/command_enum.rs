use tsuzuri::command_enum::{command_type, CommandType, Fields};

fn one_command() -> Fields {
    Fields::Unnamed(vec![true])
}

fn fault(variants: Vec<Fields>) -> (usize, &'static str) {
    match command_type(&variants) {
        Err(fault) => (fault.variant, fault.words),
        Ok(kind) => panic!("unexpected kind: {:?}", kind),
    }
}

#[test]
fn an_enum_whose_variants_each_wrap_one_command_is_dispatched() {
    assert_eq!(command_type(&vec![one_command()]).ok(), Some(CommandType::Unnamed));
    assert_eq!(
        command_type(&vec![one_command(), one_command(), one_command()]).ok(),
        Some(CommandType::Unnamed)
    );
    assert_eq!(command_type(&Vec::new()).ok(), Some(CommandType::Unnamed));
}

#[test]
fn an_enum_with_a_variant_that_wraps_nothing_is_a_command_of_its_own() {
    assert_eq!(command_type(&vec![Fields::Unit]).ok(), Some(CommandType::Other));
    assert_eq!(command_type(&vec![Fields::Named]).ok(), Some(CommandType::Other));
    assert_eq!(
        command_type(&vec![one_command(), Fields::Named, one_command()]).ok(),
        Some(CommandType::Other)
    );
    assert_eq!(
        command_type(&vec![one_command(), one_command(), Fields::Unit]).ok(),
        Some(CommandType::Other)
    );
}

#[test]
fn a_variant_that_wraps_a_command_wraps_exactly_one_path() {
    assert_eq!(fault(vec![Fields::Unnamed(Vec::new())]), (0, "command not specified"));
    assert_eq!(fault(vec![Fields::Unnamed(vec![false])]), (0, "expected path to command"));
    assert_eq!(
        fault(vec![Fields::Unnamed(vec![true, true])]),
        (0, "only one command can be specified")
    );
    assert_eq!(
        fault(vec![Fields::Unnamed(vec![true, false])]),
        (0, "only one command can be specified")
    );
    assert_eq!(
        fault(vec![Fields::Unnamed(vec![false, true])]),
        (0, "expected path to command")
    );
}

#[test]
fn the_first_fault_is_the_one_that_is_told() {
    assert_eq!(
        fault(vec![one_command(), Fields::Unnamed(Vec::new()), Fields::Unnamed(vec![false])]),
        (1, "command not specified")
    );
    assert_eq!(
        fault(vec![one_command(), one_command(), Fields::Unnamed(vec![false]), Fields::Unit]),
        (2, "expected path to command")
    );
}

#[test]
fn what_comes_after_a_variant_that_wraps_nothing_is_not_looked_at() {
    assert_eq!(
        command_type(&vec![Fields::Unit, Fields::Unnamed(Vec::new())]).ok(),
        Some(CommandType::Other)
    );
    assert_eq!(
        command_type(&vec![one_command(), Fields::Named, Fields::Unnamed(vec![false, false])]).ok(),
        Some(CommandType::Other)
    );
}
