use design_patterns::interpreter::Interpreter;

#[test]
fn test_interpreter() {
    let mut intr = Interpreter::new("2+3");
    let mut postfix = String::new();
    intr.interpret(&mut postfix);
    assert_eq!(postfix, "23+");

    intr = Interpreter::new("1-2+3-4");
    postfix.clear();
    intr.interpret(&mut postfix);
    assert_eq!(postfix, "12-3+4-");
}

#[test]
fn single_digit_is_its_own_postfix() {
    let mut intr = Interpreter::new("7");
    let mut out = String::from("x");
    intr.interpret(&mut out);
    assert_eq!(out, "x7");
}

#[test]
fn validity_check() {
    assert!(Interpreter::new("1+2").is_valid());
    assert!(Interpreter::new("9").is_valid());
    assert!(!Interpreter::new("").is_valid());
    assert!(!Interpreter::new("1+").is_valid());
    assert!(!Interpreter::new("1*2").is_valid());
    assert!(!Interpreter::new("a+2").is_valid());
    assert!(!Interpreter::new("12").is_valid());
}
