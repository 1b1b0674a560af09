use design_patterns::macro_command::{Command, DrawCanvas, DrawCommand, MacroCommand, Mark};

#[test]
fn test_macro_command_draw_command() {
    let mut history = MacroCommand::new();
    let canvas = DrawCanvas::new();

    let cmd1 = DrawCommand::new(canvas.clone(), 1, 1);
    let cmd2 = DrawCommand::new(canvas.clone(), 2, 2);

    history.append(cmd1);
    history.append(cmd2);

    // Execute all commands
    println!("----------");
    let mut log: Vec<Mark> = Vec::new();
    history.execute(&mut log);
    assert_eq!(log, vec![(1, 1), (2, 2)]);

    // Undo last command and execute
    println!("---undo---");
    history.undo();
    let mut log: Vec<Mark> = Vec::new();
    history.execute(&mut log);
    assert_eq!(log, vec![(1, 1)]);

    // Clear all commands and execute
    println!("---clear---");
    history.clear();
    let mut log: Vec<Mark> = Vec::new();
    history.execute(&mut log);
    assert!(log.is_empty());
}

#[test]
fn three_commands_run_in_order() {
    let canvas = DrawCanvas::new();
    let mut m = MacroCommand::new();
    m.append(DrawCommand::new(canvas, 3, 4));
    m.append(DrawCommand::new(canvas, 5, 6));
    m.append(DrawCommand::new(canvas, 7, 8));
    let mut log: Vec<Mark> = vec![(0, 0)];
    m.execute(&mut log);
    assert_eq!(log, vec![(0, 0), (3, 4), (5, 6), (7, 8)]);
}

#[test]
fn undo_on_empty_is_noop() {
    let mut m: MacroCommand<DrawCommand<DrawCanvas>> = MacroCommand::new();
    m.undo();
    m.clear();
    let mut log: Vec<Mark> = Vec::new();
    m.execute(&mut log);
    assert!(log.is_empty());
}

#[test]
fn nested_composites() {
    let canvas = DrawCanvas::new();
    let mut inner = MacroCommand::new();
    inner.append(DrawCommand::new(canvas, 1, 2));
    inner.append(DrawCommand::new(canvas, 3, 4));
    let mut outer = MacroCommand::new();
    outer.append(inner);
    let mut second = MacroCommand::new();
    second.append(DrawCommand::new(canvas, 9, 9));
    outer.append(second);
    let mut log: Vec<Mark> = Vec::new();
    outer.execute(&mut log);
    outer.execute(&mut log);
    assert_eq!(log, vec![(1, 2), (3, 4), (9, 9), (1, 2), (3, 4), (9, 9)]);
}
