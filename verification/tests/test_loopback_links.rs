use wstp::{sys, Environment, Expr, Link, LinkStr, Protocol, Real, Symbol, Token, TokenType};

fn check_loopback_roundtrip(expr: Expr) {
    let mut env = Environment::new();
    let mut link = Link::new_loopback(&mut env).expect("failed to create Loopback link");

    link.put_expr(&expr).expect("failed to write expr");

    let read = link.get_expr().expect("failed to read expr");

    assert_eq!(expr, read);
}

/// The expression of another crate that displays expressions, for the same
/// value.
fn displayed(expr: &Expr) -> wolfram_expr::Expr {
    match expr {
        Expr::Integer(value) => wolfram_expr::Expr::from(*value),
        Expr::Real(value) => wolfram_expr::Expr::real(f64::from_bits(value.to_bits())),
        Expr::String(value) => wolfram_expr::Expr::string(value.as_str()),
        Expr::Symbol(value) => wolfram_expr::Expr::symbol(wolfram_expr::Symbol::new(value.as_str())),
        Expr::Normal { head, args } => {
            wolfram_expr::Expr::normal(displayed(head), args.iter().map(displayed).collect())
        },
    }
}

#[test]
fn test_loopback_link() {
    check_loopback_roundtrip(Expr::Integer(5));
    check_loopback_roundtrip(Expr::normal(
        Expr::symbol(Symbol::try_new("System`List").unwrap()),
        vec![Expr::Integer(1)],
    ));
    check_loopback_roundtrip(Expr::normal(
        Expr::symbol(Symbol::try_new("Global`MyHead").unwrap()),
        vec![Expr::Integer(1)],
    ));
}

#[test]
fn test_loopback_get_put_atoms() {
    let mut env = Environment::new();
    let mut link = Link::new_loopback(&mut env).expect("failed to create Loopback link");

    {
        // Test the `Link::get_string_ref()` method.
        link.put_expr(&Expr::string("Hello!")).unwrap();
        let link_str: LinkStr = link.get_string_ref().unwrap();
        assert_eq!(link_str.to_str(), "Hello!")
    }

    {
        // Test the `Link::get_symbol_ref()` method.
        link.put_expr(&Expr::symbol(Symbol::try_new("System`Plot").unwrap()))
            .unwrap();
        let link_str: LinkStr = link.get_symbol_ref().unwrap();
        assert_eq!(link_str.to_str(), "System`Plot")
    }
}

#[test]
fn test_is_loopback() {
    let mut env = Environment::new();

    let link = Link::new_loopback(&mut env).unwrap();
    assert!(link.is_loopback());

    let link = Link::listen(&mut env, Protocol::IntraProcess, "name-test").unwrap();
    assert!(!link.is_loopback());
}

#[test]
fn test_loopback_idempotence_of_get_arg_count() {
    let mut env = Environment::new();
    let mut link = Link::new_loopback(&mut env).unwrap();

    link.put_raw_type(sys::WSTKFUNC.into()).unwrap();

    link.put_arg_count(1).unwrap();
    link.put_symbol("List").unwrap();
    link.put_i64(10).unwrap();

    assert_eq!(link.raw_get_next(), Ok(sys::WSTKFUNC.into()));

    // Test that it doesn't matter how many times we ask for the count.
    for _ in 0..5 {
        assert_eq!(link.get_arg_count(), Ok(1));
    }

    assert_eq!(
        link.get_string_ref().map(|s| s.to_str().to_owned()),
        Ok(String::from("List"))
    );
}

#[test]
fn test_get_arg_count_must_be_called_at_least_once() {
    let mut env = Environment::new();
    let mut link = Link::new_loopback(&mut env).unwrap();

    link.put_raw_type(sys::WSTKFUNC.into()).unwrap();

    link.put_arg_count(1).unwrap();
    link.put_symbol("List").unwrap();
    link.put_i64(10).unwrap();

    assert_eq!(link.raw_get_next(), Ok(sys::WSTKFUNC.into()));

    // This call is required for this code to be correct:
    //   assert_eq!(link.get_arg_count(), Ok(1));

    // Expect that trying to get the head fails. Even though we know what the arg count
    // should be, we're still required to query it.
    assert_eq!(
        link.get_string_ref().unwrap_err().code(),
        Some(sys::WSEGSEQ)
    );
}

#[test]
fn test_loopback_basic_put_and_get_list() {
    let mut env = Environment::new();
    let mut link = Link::new_loopback(&mut env).unwrap();

    link.put_raw_type(sys::WSTKFUNC.into()).unwrap();

    link.put_arg_count(1).unwrap();
    link.put_symbol("List").unwrap();
    link.put_i64(10).unwrap();

    assert_eq!(link.raw_get_next(), Ok(sys::WSTKFUNC.into()));
    assert_eq!(link.get_arg_count(), Ok(1));
    assert_eq!(
        link.get_string_ref().map(|s| s.to_str().to_owned()),
        Ok(String::from("List"))
    );
    assert_eq!(link.get_i64(), Ok(10));
}

#[test]
fn test_loopback_get_next() {
    let mut env = Environment::new();
    let mut link = Link::new_loopback(&mut env).unwrap();

    link.put_raw_type(sys::WSTKFUNC.into()).unwrap();

    link.put_arg_count(1).unwrap();
    link.put_symbol("List").unwrap();
    link.put_i64(10).unwrap();

    assert!(link.is_ready());

    assert_eq!(link.raw_get_next(), Ok(sys::WSTKFUNC.into()));
    assert_eq!(link.raw_get_next(), Ok(sys::WSTKSYM.into()));
    assert_eq!(link.raw_get_next(), Ok(sys::WSTKINT.into()));

    assert_eq!(link.raw_get_next().unwrap_err().code(), Some(sys::WSEABORT));

    assert!(!link.is_ready());
}

#[test]
fn test_loopback_new_packet() {
    let mut env = Environment::new();
    let mut link = Link::new_loopback(&mut env).unwrap();

    link.put_raw_type(sys::WSTKFUNC.into()).unwrap();

    link.put_arg_count(1).unwrap();
    link.put_symbol("List").unwrap();
    link.put_i64(10).unwrap();

    assert!(link.is_ready());

    assert_eq!(link.raw_get_next(), Ok(sys::WSTKFUNC.into()));
    assert_eq!(link.new_packet(), Ok(()));

    assert_eq!(link.raw_get_next().unwrap_err().code(), Some(sys::WSEABORT));

    assert!(!link.is_ready());
}

#[test]
fn test_loopback_test_head() {
    let mut env = Environment::new();
    let mut link = Link::new_loopback(&mut env).unwrap();

    link.put_raw_type(sys::WSTKFUNC.into()).unwrap();
    link.put_arg_count(1).unwrap();
    link.put_symbol("List").unwrap();
    link.put_i64(10).unwrap();

    assert_eq!(link.test_head("List"), Ok(1));
}

#[test]
fn test_loopback_test_head_error() {
    let mut env = Environment::new();
    let mut link = Link::new_loopback(&mut env).unwrap();

    link.put_raw_type(sys::WSTKFUNC.into()).unwrap();
    link.put_arg_count(1).unwrap();
    link.put_symbol("List").unwrap();
    link.put_i64(10).unwrap();

    assert_eq!(
        link.test_head("Plot").unwrap_err().code().unwrap(),
        sys::WSEGSEQ
    );
}

#[test]
fn test_loopback_transfer_simple() {
    let mut env = Environment::new();
    let mut link = Link::new_loopback(&mut env).unwrap();
    link.put_str("hello").unwrap();

    let mut new = Link::new_loopback(&mut env).unwrap();
    assert!(link.is_loopback());
    link.transfer_to_end_of_loopback_link(&mut new).unwrap();

    assert_eq!(new.get_string_ref().unwrap().as_str(), "hello");
}

#[test]
fn test_loopback_transfer_list() {
    let mut env = Environment::new();
    let mut link = Link::new_loopback(&mut env).unwrap();
    link.put_function(Some("System`List"), 3).unwrap();
    link.put_i64(5).unwrap();
    link.put_str("second").unwrap();
    link.put_symbol("Global`foo").unwrap();

    let mut new = Link::new_loopback(&mut env).unwrap();
    assert!(link.is_loopback());
    link.transfer_to_end_of_loopback_link(&mut new).unwrap();

    assert_eq!(
        displayed(&new.get_expr().unwrap()).to_string(),
        "System`List[5, \"second\", Global`foo]"
    );
}

#[test]
fn test_loopback_get_tokens() {
    // Put {5, "second", foo}
    let mut env = Environment::new();
    let mut link = Link::new_loopback(&mut env).unwrap();
    link.put_function(Some("System`List"), 3).unwrap();
    link.put_i64(5).unwrap();
    link.put_str("second").unwrap();
    link.put_symbol("Global`foo").unwrap();

    assert!(matches!(link.get_token().unwrap(), Token::Function { length: 3 }));
    assert!(matches!(link.get_token().unwrap(), Token::Symbol(s) if s.as_str() == "System`List"));
    assert!(matches!(link.get_token().unwrap(), Token::Integer(5)));
    assert!(matches!(link.get_token().unwrap(), Token::String(s) if s.as_str() == "second"));
    assert!(matches!(link.get_token().unwrap(), Token::Symbol(s) if s.as_str() == "Global`foo"));
}

#[test]
fn test_loopback_get_token_type_is_idempotent() {
    // Put {5, "second", foo}
    let mut env = Environment::new();
    let mut link = Link::new_loopback(&mut env).unwrap();
    link.put_function(Some("System`List"), 3).unwrap();
    link.put_i64(5).unwrap();
    link.put_str("second").unwrap();
    link.put_symbol("Global`foo").unwrap();

    // Calling get_type(), even multiple times in a row, should not advance the link at
    // all.
    assert_eq!(link.get_type().unwrap(), TokenType::Function);
    assert_eq!(link.get_type().unwrap(), TokenType::Function);
    assert_eq!(link.get_type().unwrap(), TokenType::Function);

    assert!(matches!(link.get_token().unwrap(), Token::Function { length: 3 }));

    assert_eq!(link.get_type().unwrap(), TokenType::Symbol);
    assert_eq!(link.get_type().unwrap(), TokenType::Symbol);
    assert_eq!(link.get_type().unwrap(), TokenType::Symbol);

    assert!(matches!(link.get_token().unwrap(), Token::Symbol(s) if s.as_str() == "System`List"));

    assert_eq!(link.get_type().unwrap(), TokenType::Integer);
    assert_eq!(link.get_type().unwrap(), TokenType::Integer);
    assert_eq!(link.get_type().unwrap(), TokenType::Integer);

    assert!(matches!(link.get_token().unwrap(), Token::Integer(5)));
}

// The example of a round trip: a list of an integer, a string and a symbol.
#[test]
fn round_trip_of_a_list() {
    check_loopback_roundtrip(Expr::normal(
        Expr::symbol(Symbol::try_new("System`List").unwrap()),
        vec![
            Expr::Integer(1),
            Expr::string("second"),
            Expr::symbol(Symbol::try_new("Global`foo").unwrap()),
        ],
    ));
}

#[test]
fn round_trip_of_nested_expressions() {
    let inner = Expr::normal(
        Expr::normal(
            Expr::symbol(Symbol::try_new("Global`f").unwrap()),
            vec![Expr::Real(Real::from_bits(f64::to_bits(-2.5)).unwrap())],
        ),
        vec![],
    );
    check_loopback_roundtrip(Expr::normal(
        Expr::symbol(Symbol::try_new("System`List").unwrap()),
        vec![inner, Expr::Integer(i64::MIN), Expr::string("")],
    ));
}
