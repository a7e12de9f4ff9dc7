use emulator::expr::{eval, eval_tokens, tokenize, Op, Token, UnOp};

fn eval_str(expr: &str) -> Result<i32, String> {
    eval_tokens(tokenize(expr)?)
}

#[test]
fn test_eval() {
    let expressions = vec![
        ("3", 3),
        ("3 + 4", 7),
        ("3 - 4", -1),
        ("3 * 4", 12),
        ("3 / 3", 1),
        ("6 / 3", 2),
        ("3 * (4 + 2)", 18),
        ("3 + 4 * (4 + 2)", 27),
        ("(3) * (4 + 2)", 18),
        ("(((3)))", 3),
        ("-3", -3),
        ("3 + -4", -1),
        ("3*-(4+2)", -18),
        ("27 XOR 9", 27 ^ 9),
        ("6 AND 6", 6),
        ("200 OR 1", 201),
        ("15 MOD 5", 0),
        ("4 MOD 3", 1),
        ("8 MOD 9", 8),
        ("NOT 9", !9),
    ];
    for (expr, res) in expressions {
        assert_eq!(eval_str(expr).expect(""), res);
    }
}

#[test]
fn erroneous_expressions() {
    let expressions = vec![
        ("4 +", "Not enough arguments for operator: +"),
        ("-", "Not enough arguments for unary operator: -"),
        ("NOT", "Not enough arguments for unary operator: NOT"),
    ];
    for (expr, err) in expressions {
        assert_eq!(eval_str(expr), Err(String::from(err)));
    }
}

#[test]
fn tokenizer() {
    for x in 0..1000 {
        let hex: &str = &format!("{:x}H", x);
        let oct: &str = &format!("{:o}O", x);
        let bin: &str = &format!("{:b}B", x);
        let dec: &str = &format!("{}D", x);
        let dec2: &str = &format!("{}", x);
        assert_eq!(tokenize(hex).unwrap().first(), Some(&Token::Number(x)));
        assert_eq!(tokenize(oct).unwrap().first(), Some(&Token::Number(x)));
        assert_eq!(tokenize(bin).unwrap().first(), Some(&Token::Number(x)));
        assert_eq!(tokenize(dec).unwrap().first(), Some(&Token::Number(x)));
        assert_eq!(tokenize(dec2).unwrap().first(), Some(&Token::Number(x)));
    }
}

#[test]
fn precedence_and_associativity() {
    assert_eq!(eval("4 - 2 + 1"), Ok(3));
    assert_eq!(eval("16 / 4 / 2"), Ok(2));
    assert_eq!(eval("1 OR 2 AND 3"), Ok(3));
    assert_eq!(eval("1 SHL 4 + 1"), Ok(17));
    assert_eq!(eval("0ffH SHR 4"), Ok(15));
    assert_eq!(eval("10H + 20"), Ok(36));
    assert_eq!(eval("0+0*00O"), Ok(0));
    assert_eq!(eval("-7 / 2"), Ok(-3));
    assert_eq!(eval("-7 MOD 2"), Ok(-1));
    assert_eq!(eval("-8 SHR 1"), Ok(-4));
    assert_eq!(eval("1010B + 12Q"), Ok(20));
}

#[test]
fn evaluation_errors() {
    assert_eq!(eval("1 / 0"), Err(String::from("Division by zero")));
    assert_eq!(eval("1 SHL 40"), Err(String::from("Shift amount out of range")));
    assert_eq!(eval("(1 + 2"), Err(String::from("Unbalanced parenthesis")));
    assert_eq!(eval(""), Err(String::from("Empty expression")));
    assert_eq!(eval("12G"), Err(String::from("Unexpected character")));
    assert_eq!(eval("99999999999"), Err(String::from("Invalid number")));
}

#[test]
fn operator_tokens() {
    assert_eq!(
        tokenize("3-(2) MOD NOT 1").unwrap(),
        vec![
            Token::Number(3),
            Token::Operator(Op::Sub),
            Token::Parenthesis('('),
            Token::Number(2),
            Token::Parenthesis(')'),
            Token::Operator(Op::Mod),
            Token::Unary(UnOp::Not),
            Token::Number(1),
        ]
    );
    assert_eq!(Op::Shl.symbol(), "SHL");
    assert_eq!(Op::Mul.apply(-3, 4), Some(-12));
    assert_eq!(Op::Add.apply(i32::MAX, 1), Some(i32::MIN));
}
