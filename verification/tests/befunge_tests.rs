use befunge_rust::befunge::{Befunge, Direction};
use befunge_rust::interpreter::RunError;
use befunge_rust::world::World;

#[test]
fn hello_world_program1() -> Result<(), RunError> {
    let src =
        ">              v\nv  ,,,,,\"Hello\"<\n>48*,          v\nv,,,,,,\"World!\"<\n>25*,@";
    let read = Vec::new();
    let world = World::from_source_string(src);
    let mut befunge = Befunge::new(world, 0, 0, Direction::Right, read, false);
    befunge.run()?;
    assert_eq!(String::from_utf8_lossy(&befunge.output()[..]), "Hello World!\n");
    Ok(())
}

#[test]
fn hello_world_program2() -> Result<(), RunError> {
    let src = "v @_       v\n>0\"!dlroW\"v\nv  :#     <\n>\" ,olleH\" v\n   ^       <";
    let read = Vec::new();
    let world = World::from_source_string(src);
    let mut befunge = Befunge::new(world, 0, 0, Direction::Right, read, false);
    befunge.run()?;
    assert_eq!(String::from_utf8_lossy(&befunge.output()[..]), "Hello, World!");
    Ok(())
}

#[test]
fn factorial_of_5() -> Result<(), RunError> {
    let read = Vec::new();
    let world = World::from_source_string("5 100p:v\nv *g00:_00g.@\n>00p1-:^");
    let mut befunge = Befunge::new(world, 0, 0, Direction::Right, read, false);
    befunge.run()?;
    assert_eq!(*befunge.stack(), [0]);
    assert_eq!(String::from_utf8_lossy(&befunge.output()[..]), "120 ");
    Ok(())
}

#[test]
fn control_commands() -> Result<(), RunError> {
    let read = Vec::new();
    let world = World::from_source_string("^    _| 3\n0#@07|5 >\n<@?@# _ v\n1 @     2");
    let mut befunge = Befunge::new(world, 0, 0, Direction::Right, read, false);
    befunge.run()?;
    assert_eq!(*befunge.stack(), [1, 2, 3]);
    Ok(())
}

#[test]
fn literal_commands() -> Result<(), RunError> {
    let read = Vec::new();
    let world = World::from_source_string(r#"01234"   "56789@"#);
    let mut befunge = Befunge::new(world, 0, 0, Direction::Right, read, false);
    befunge.run()?;
    assert_eq!(
        *befunge.stack(),
        [0, 1, 2, 3, 4, 0x20, 0x20, 0x20, 5, 6, 7, 8, 9]
    );
    assert!(befunge.output().is_empty());
    Ok(())
}

#[test]
fn arithmetic_commands() -> Result<(), RunError> {
    let read = Vec::new();
    let world = World::from_source_string("09-9*9*98+92-73*92/83%@");
    let mut befunge = Befunge::new(world, 0, 0, Direction::Right, read, false);
    befunge.run()?;
    assert_eq!(*befunge.stack(), [-729, 17, 7, 21, 4, 2]);
    Ok(())
}

#[test]
fn logical_operation_commands() -> Result<(), RunError> {
    let read = Vec::new();
    let world = World::from_source_string("8!0!12`21`@");
    let mut befunge = Befunge::new(world, 0, 0, Direction::Right, read, false);
    befunge.run()?;
    assert_eq!(*befunge.stack(), [0, 1, 0, 1]);
    Ok(())
}

#[test]
fn stack_operation_commands() -> Result<(), RunError> {
    let read = Vec::new();
    let world = World::from_source_string(r#"73:6\$@"#);
    let mut befunge = Befunge::new(world, 0, 0, Direction::Right, read, false);
    befunge.run()?;
    assert_eq!(*befunge.stack(), [7, 3, 6]);
    Ok(())
}

#[test]
fn memory_operation_commands() -> Result<(), RunError> {
    let read = Vec::new();
    let world = World::from_source_string("00g1+70p@");
    let mut befunge = Befunge::new(world, 0, 0, Direction::Right, read, false);
    befunge.run()?;
    assert_eq!(*befunge.stack(), []);
    assert_eq!(befunge.world().get(7, 0), '1' as u8);
    Ok(())
}

#[test]
fn io_commands() -> Result<(), RunError> {
    let read = Vec::from("-205\n7\n".as_bytes());
    let world = World::from_source_string("&~.,@");
    let mut befunge = Befunge::new(world, 0, 0, Direction::Right, read, false);
    befunge.run()?;
    assert_eq!(*befunge.stack(), []);
    assert_eq!(String::from_utf8_lossy(&befunge.output()[..]), "55 3");
    Ok(())
}

#[test]
fn debug_mode_output() -> Result<(), RunError> {
    let read = Vec::from("\n\n".as_bytes());
    let world = World::from_source_string("12+@");
    let mut befunge = Befunge::new(world, 0, 0, Direction::Right, read, true);
    befunge.run()?;

    let output = String::from_utf8_lossy(befunge.output());
    assert!(output.contains("=== Step Debug Info ==="));
    assert!(output.contains("Position: (0, 0)"));
    assert!(output.contains("Current instruction: 1"));
    assert!(output.contains("Direction: Right"));
    assert!(output.contains("Stack:"));
    assert!(output.contains("Mode: Interpret"));

    Ok(())
}

#[test]
fn debug_mode_disabled() -> Result<(), RunError> {
    let read = Vec::new();
    let world = World::from_source_string("12+@");
    let mut befunge = Befunge::new(world, 0, 0, Direction::Right, read, false);
    befunge.run()?;

    let output = String::from_utf8_lossy(befunge.output());
    assert!(!output.contains("=== Step Debug Info ==="));
    assert!(!output.contains("Position:"));

    Ok(())
}

#[test]
fn debug_mode_output_ascii() -> Result<(), RunError> {
    let read = Vec::from("\n\n".as_bytes());
    let world = World::from_source_string("65@");
    let mut befunge = Befunge::new(world, 0, 0, Direction::Right, read, true);
    befunge.run()?;

    let output = String::from_utf8_lossy(befunge.output());
    assert!(output.contains("=== Step Debug Info ==="));
    assert!(output.contains("Position: (0, 0)"));
    assert!(output.contains("Current instruction: 6"));
    assert!(output.contains("Direction: Right"));
    // Two digits are two pushes, 6 and then 5: they never make up 65.
    assert!(output.contains("Stack: [0x06, 0x05]"));
    assert!(!output.contains("Stack: [0x41 ('A')]"));
    assert!(output.contains("Mode: Interpret"));

    Ok(())
}

#[test]
fn befunge_shows_printable_values_with_their_character() {
    assert_eq!(Befunge::format_stack_value(0x41), b"0x41 ('A')".to_vec());
    assert_eq!(Befunge::format_stack_value(5), b"0x05".to_vec());
}

#[test]
fn befunge_snapshot_only_with_introspection() {
    let world = World::from_source_string("1@");
    let mut quiet = Befunge::new(world, 0, 0, Direction::Right, Vec::new(), false);
    quiet.print_debug_info();
    assert!(quiet.output().is_empty());

    let world = World::from_source_string("1@");
    let mut loud = Befunge::new(world, 0, 0, Direction::Right, Vec::new(), true);
    loud.print_debug_info();
    let expected = "\n=== Step Debug Info ===\nPosition: (0, 0)\nCurrent instruction: 1\n\
Direction: Right\nStack: []\nMode: Interpret\n[1] @ \n==================\n\n";
    assert_eq!(String::from_utf8_lossy(loud.output()), expected);
}

#[test]
fn befunge_forward_wraps_at_the_edge() {
    let world = World::from_source_string("12\n34");
    let mut befunge = Befunge::new(world, 1, 1, Direction::Right, Vec::new(), true);
    befunge.forward();
    befunge.print_debug_info();
    let output = String::from_utf8_lossy(befunge.output()).to_string();
    assert!(output.contains("Position: (0, 1)"));
    assert!(output.contains(" 1  2 \n[3] 4 \n"));
}
