use std::ops::ControlFlow;

use wstp::codec::{resolve_symbol, symbol_or_error};
use wstp::kernel;
use wstp::{
    abi_array_dimensions, callback_signal, dimensions_match, for_each_addr, sys, tcpip_link_name,
    Address, Atom, Environment, Error, Expr, IntegerArray, Lifecycle, Link, LinkMode, Protocol,
    Real, Symbol, Token, TokenType, WaitStep,
};

#[test]
fn arguments_are_handed_out_as_the_transport_takes_them() {
    assert_eq!(
        wstp::open::listen_arguments(Protocol::SharedMemory, "my-link"),
        vec![
            "-wstp",
            "-linkmode",
            "listen",
            "-linkprotocol",
            "SharedMemory",
            "-linkname",
            "my-link",
            "-linkoptions",
            "MLDontInteract",
        ]
    );
    assert_eq!(
        wstp::open::connect_arguments(Protocol::TCPIP, "8080", &[]),
        vec!["-wstp", "-linkmode", "connect", "-linkprotocol", "TCPIP", "-linkname", "8080"]
    );
    assert_eq!(
        wstp::open::connect_arguments(
            Protocol::IntraProcess,
            "",
            &["MLUseUUIDTCPIPConnection", "Second"]
        ),
        vec![
            "-wstp",
            "-linkmode",
            "connect",
            "-linkprotocol",
            "IntraProcess",
            "-linkname",
            "",
            "-linkoptions",
            "MLUseUUIDTCPIPConnection",
            "Second",
        ]
    );

    // The transport's answer to an attempt to open.
    assert_eq!(wstp::open::open_result(false, sys::WSEOK, None), Ok(()));
    assert_eq!(
        wstp::open::open_result(true, sys::WSEOK, None).unwrap_err().code(),
        Some(sys::WSEOK)
    );
    assert_eq!(
        wstp::open::open_result(false, sys::WSENAMETAKEN, None).unwrap_err().code(),
        Some(sys::WSENAMETAKEN)
    );
    let err = wstp::open::open_result(true, -1, Some(String::from("unknown"))).unwrap_err();
    assert_eq!(err.to_string(), "WSTP error (code -1): unknown");
}

fn loopback() -> Link {
    let mut env = Environment::new();
    Link::new_loopback(&mut env).unwrap()
}

//======================================
// Errors
//======================================

#[test]
fn error_without_description_names_its_code() {
    let err = Error::from_code(3, None);
    assert_eq!(err.code(), Some(3));
    assert_eq!(err.message(), "WSTP error code 3 occurred.");
    assert_eq!(err.to_string(), "WSTP error (code 3): WSTP error code 3 occurred.");
}

#[test]
fn error_with_description_keeps_it() {
    let err = Error::from_code(40, Some(String::from("name taken")));
    assert_eq!(err.code(), Some(40));
    assert_eq!(err.to_string(), "WSTP error (code 40): name taken");
}

#[test]
fn error_codes_are_written_in_decimal() {
    assert_eq!(Error::from_code(0, None).message(), "WSTP error code 0 occurred.");
    assert_eq!(Error::from_code(-1, None).message(), "WSTP error code -1 occurred.");
    assert_eq!(Error::from_code(1000, None).message(), "WSTP error code 1000 occurred.");
    assert_eq!(
        Error::from_code(i32::MAX, None).message(),
        "WSTP error code 2147483647 occurred."
    );
    assert_eq!(
        Error::from_code(i32::MIN, None).to_string(),
        "WSTP error (code -2147483648): WSTP error code -2147483648 occurred."
    );
}

#[test]
fn custom_error_has_no_code() {
    let err = Error::custom(String::from("something local"));
    assert_eq!(err.code(), None);
    assert_eq!(err.to_string(), "WSTP error: something local");
}

#[test]
fn kernel_error_wraps_the_link_error() {
    let err = kernel::Error::from(Error::from_code(25, None));
    assert_eq!(err.message(), "WSTP error: WSTP error (code 25): WSTP error code 25 occurred.");
}

//======================================
// Token types
//======================================

#[test]
fn token_types_have_their_raw_tags() {
    assert_eq!(TokenType::from_raw(43), Ok(TokenType::Integer));
    assert_eq!(TokenType::from_raw(42), Ok(TokenType::Real));
    assert_eq!(TokenType::from_raw(34), Ok(TokenType::String));
    assert_eq!(TokenType::from_raw(35), Ok(TokenType::Symbol));
    assert_eq!(TokenType::from_raw(70), Ok(TokenType::Function));
    assert_eq!(TokenType::Function.raw(), i32::from(sys::WSTKFUNC));
    assert_eq!(TokenType::Integer.raw(), i32::from(sys::WSTKINT));
}

#[test]
fn unknown_raw_tag_is_an_error() {
    let err = TokenType::from_raw(73).unwrap_err();
    assert_eq!(err.code(), None);
    assert_eq!(err.to_string(), "WSTP error: unknown WSLINK type: 73");
    assert_eq!(
        TokenType::from_raw(-5).unwrap_err().to_string(),
        "WSTP error: unknown WSLINK type: -5"
    );
    assert_eq!(
        TokenType::from_raw(sys::WSTKERR).unwrap_err().to_string(),
        "WSTP error: unknown WSLINK type: 0"
    );
}

//======================================
// Symbols and real numbers
//======================================

#[test]
fn symbols_carry_their_context() {
    assert_eq!(Symbol::try_new("System`List").unwrap().as_str(), "System`List");
    assert_eq!(Symbol::try_new("A`B`c").unwrap().as_str(), "A`B`c");
    assert!(Symbol::try_new("List").is_none());
    assert!(Symbol::try_new("`List").is_none());
    assert!(Symbol::try_new("System`").is_none());
    assert!(Symbol::try_new("").is_none());
    assert!(Symbol::try_new("System`a_b").is_none());
}

#[test]
fn real_numbers_are_no_nan() {
    assert_eq!(Real::from_bits(f64::to_bits(1.5)).unwrap().to_bits(), f64::to_bits(1.5));
    assert!(Real::from_bits(f64::to_bits(f64::INFINITY)).is_some());
    assert!(Real::from_bits(f64::to_bits(f64::NEG_INFINITY)).is_some());
    assert!(Real::from_bits(f64::to_bits(-0.0)).is_some());
    assert!(Real::from_bits(f64::to_bits(f64::NAN)).is_none());
    // The least and the greatest pattern of a NaN, of either sign.
    assert!(Real::from_bits(0x7ff0_0000_0000_0001).is_none());
    assert!(Real::from_bits(0x7fff_ffff_ffff_ffff).is_none());
    assert!(Real::from_bits(0xfff0_0000_0000_0001).is_none());
    assert!(Real::from_bits(0x7ff0_0000_0000_0000).is_some());
    assert!(Real::from_bits(0xfff0_0000_0000_0000).is_some());
}

//======================================
// Reading and writing tokens
//======================================

#[test]
fn reading_an_empty_link_fails() {
    let mut link = loopback();
    assert!(!link.is_ready());
    assert_eq!(link.get_type().unwrap_err().code(), Some(sys::WSEABORT));
    assert_eq!(link.get_i64().unwrap_err().code(), Some(sys::WSEABORT));
    assert_eq!(link.get_string().unwrap_err().code(), Some(sys::WSEABORT));
    assert_eq!(link.get_arg_count().unwrap_err().code(), Some(sys::WSEABORT));
    assert_eq!(link.get_expr().unwrap_err().code(), Some(sys::WSEABORT));
    assert_eq!(link.test_head("List").unwrap_err().code(), Some(sys::WSEABORT));
}

#[test]
fn reading_the_wrong_type_fails_and_takes_nothing() {
    let mut link = loopback();
    link.put_str("text").unwrap();

    assert_eq!(link.get_i64().unwrap_err().code(), Some(sys::WSEGSEQ));
    assert_eq!(link.get_f64_bits().unwrap_err().code(), Some(sys::WSEGSEQ));
    assert_eq!(link.get_symbol_ref().unwrap_err().code(), Some(sys::WSEGSEQ));
    assert_eq!(link.get_arg_count().unwrap_err().code(), Some(sys::WSEGSEQ));

    assert_eq!(link.get_string(), Ok(String::from("text")));
}

#[test]
fn count_query_is_idempotent() {
    let mut link = loopback();
    link.put_function(Some("Global`f"), 7).unwrap();

    for _ in 0..5 {
        assert_eq!(link.get_arg_count(), Ok(7));
    }
    // The stream has not moved beyond the function token.
    assert_eq!(link.get_symbol_ref().unwrap().as_str(), "Global`f");
}

#[test]
fn count_of_the_head_is_asked_after_its_type() {
    // f[x][y]: the head of the outer function is itself a function.
    let mut link = loopback();
    link.put_function(None, 1).unwrap();
    link.put_function(Some("Global`f"), 2).unwrap();

    assert_eq!(link.get_arg_count(), Ok(1));
    assert_eq!(link.get_arg_count(), Ok(1));
    assert_eq!(link.get_type(), Ok(TokenType::Function));
    assert_eq!(link.get_arg_count(), Ok(2));
}

#[test]
fn head_cannot_be_read_before_the_count() {
    let mut link = loopback();
    link.put_function(Some("Global`f"), 0).unwrap();

    assert_eq!(link.get_symbol_ref().unwrap_err().code(), Some(sys::WSEGSEQ));
    assert_eq!(link.get_string_ref().unwrap_err().code(), Some(sys::WSEGSEQ));
    assert_eq!(link.get_i64().unwrap_err().code(), Some(sys::WSEGSEQ));

    // after one query, subsequent reads succeed
    assert_eq!(link.get_arg_count(), Ok(0));
    assert_eq!(link.get_symbol_ref().unwrap().as_str(), "Global`f");
}

#[test]
fn narrow_integers_must_fit() {
    let mut link = loopback();
    link.put_i64(300).unwrap();
    assert_eq!(link.get_u8().unwrap_err().code(), Some(sys::WSEOVFL));
    assert_eq!(link.get_i16(), Ok(300));

    link.put_i64(-1).unwrap();
    assert_eq!(link.get_u8().unwrap_err().code(), Some(sys::WSEOVFL));
    assert_eq!(link.get_i32(), Ok(-1));

    link.put_i64(i64::from(i32::MAX) + 1).unwrap();
    assert_eq!(link.get_i32().unwrap_err().code(), Some(sys::WSEOVFL));
    assert_eq!(link.get_i16().unwrap_err().code(), Some(sys::WSEOVFL));
    assert_eq!(link.get_i64(), Ok(2147483648));

    link.put_u8(255).unwrap();
    link.put_i16(i16::MIN).unwrap();
    link.put_i32(i32::MIN).unwrap();
    assert_eq!(link.get_u8(), Ok(255));
    assert_eq!(link.get_i16(), Ok(i16::MIN));
    assert_eq!(link.get_i32(), Ok(i32::MIN));
}

#[test]
fn announced_type_must_be_written() {
    let mut link = loopback();

    link.put_raw_type(i32::from(sys::WSTKINT)).unwrap();
    // Another announcement, and a token of another type, are out of sequence.
    assert_eq!(
        link.put_raw_type(i32::from(sys::WSTKINT)).unwrap_err().code(),
        Some(sys::WSEPSEQ)
    );
    assert_eq!(link.put_str("no").unwrap_err().code(), Some(sys::WSEPSEQ));
    assert_eq!(link.put_arg_count(1).unwrap_err().code(), Some(sys::WSEPSEQ));
    assert_eq!(link.end_packet().unwrap_err().code(), Some(sys::WSEPUTENDPACKET));
    assert!(!link.is_ready());

    link.put_i64(4).unwrap();
    assert_eq!(link.end_packet(), Ok(()));
    assert_eq!(link.get_i64(), Ok(4));
}

#[test]
fn unknown_type_cannot_be_announced() {
    let mut link = loopback();
    assert_eq!(link.put_raw_type(0).unwrap_err().code(), Some(sys::WSEPBTK));
    assert_eq!(link.put_raw_type(73).unwrap_err().code(), Some(sys::WSEPBTK));
    // Nothing is owed.
    link.put_str("fine").unwrap();
}

#[test]
fn argument_count_must_fit_in_32_bits() {
    let mut link = loopback();
    link.put_arg_count(i32::MAX as usize).unwrap();

    if usize::BITS > 32 {
        let err = link.put_arg_count(i32::MAX as usize + 1).unwrap_err();
        assert_eq!(err.code(), None);
        assert_eq!(
            err.to_string(),
            "WSTP error: put_arg_count: Error converting usize to i32: out of range integral type conversion attempted"
        );
        // The function type has been announced, the count is still owed.
        let err = link.put_function(None, usize::MAX).unwrap_err();
        assert_eq!(err.code(), None);
        assert_eq!(link.put_i64(1).unwrap_err().code(), Some(sys::WSEPSEQ));
    }
}

#[test]
fn last_error_stays_until_it_is_cleared() {
    let mut link = loopback();
    assert_eq!(link.error(), None);
    assert_eq!(link.error_message(), None);
    assert_eq!(
        link.error_or_unknown().to_string(),
        "WSTP error: unknown error occurred on WSLINK"
    );

    link.put_i64(1).unwrap();
    assert!(link.get_string().is_err());
    assert_eq!(link.error().unwrap().code(), Some(sys::WSEGSEQ));
    assert_eq!(link.error_message(), Some(String::from("WSTP error code 3 occurred.")));
    assert_eq!(link.error_or_unknown().code(), Some(sys::WSEGSEQ));

    // A read that succeeds does not clear it.
    assert_eq!(link.get_i64(), Ok(1));
    assert_eq!(link.error().unwrap().code(), Some(sys::WSEGSEQ));

    link.clear_error();
    assert_eq!(link.error(), None);
}

#[test]
fn tokens_own_their_data() {
    let mut link = loopback();
    link.put_symbol("Global`x").unwrap();
    link.put_f64_bits(f64::to_bits(0.25)).unwrap();

    let atom = link.get_token().unwrap().to_atom();
    assert_eq!(atom, Atom::Symbol(String::from("Global`x")));
    assert!(matches!(link.get_token().unwrap(), Token::Real(bits) if f64::from_bits(bits) == 0.25));
}

#[test]
fn strings_can_be_read_in_any_encoding() {
    let mut link = loopback();
    link.put_str("h\u{1F44B}").unwrap();
    link.put_str("h\u{1F44B}").unwrap();
    link.put_str("h\u{1F44B}").unwrap();

    assert_eq!(link.get_utf8_str().unwrap().get().as_slice(), "h\u{1F44B}".as_bytes());
    assert_eq!(link.get_utf16_str().unwrap().get().as_slice(), &[0x68, 0xD83D, 0xDC4B]);
    assert_eq!(link.get_utf32_str().unwrap().get().as_slice(), &[0x68, 0x1F44B]);
}

#[test]
fn strings_can_be_written_in_any_encoding() {
    let mut link = loopback();
    link.put_utf8_str("gr\u{fc}n".as_bytes()).unwrap();
    link.put_utf16_str(&[0x68, 0xD83D, 0xDC4B]).unwrap();
    link.put_utf32_str(&[0x68, 0x1F44B]).unwrap();

    assert_eq!(link.get_string(), Ok(String::from("gr\u{fc}n")));
    assert_eq!(link.get_string(), Ok(String::from("h\u{1F44B}")));
    assert_eq!(link.get_string(), Ok(String::from("h\u{1F44B}")));

    assert_eq!(link.put_utf8_str(&[0xff]).unwrap_err().code(), Some(sys::WSEPSCONVERT));
    assert_eq!(link.put_utf16_str(&[0xD83D]).unwrap_err().code(), Some(sys::WSEPSCONVERT));
    assert_eq!(link.put_utf32_str(&[0xD800]).unwrap_err().code(), Some(sys::WSEPSCONVERT));
    assert!(!link.is_ready());
}

//======================================
// Expressions
//======================================

#[test]
fn nan_is_rejected_when_read() {
    let mut link = loopback();
    link.put_f64_bits(f64::to_bits(f64::NAN)).unwrap();

    let err = link.get_expr().unwrap_err();
    assert_eq!(err.code(), None);
    assert_eq!(
        err.to_string(),
        "WSTP error: NaN value passed on WSLINK cannot be used to construct an Expr"
    );
    // The token has been read.
    assert!(!link.is_ready());
}

#[test]
fn resolver_is_asked_about_names_without_context() {
    let mut link = loopback();
    link.put_function(Some("List"), 2).unwrap();
    link.put_symbol("Global`x").unwrap();
    link.put_symbol("y").unwrap();

    let resolver = |name: &str| {
        assert!(name == "List" || name == "y", "asked about {}", name);
        Symbol::try_new(&format!("Resolved`{}", name))
    };
    let expr = link.get_expr_with_resolver(&resolver).unwrap();

    assert_eq!(
        expr,
        Expr::normal(
            Expr::symbol(Symbol::try_new("Resolved`List").unwrap()),
            vec![
                Expr::symbol(Symbol::try_new("Global`x").unwrap()),
                Expr::symbol(Symbol::try_new("Resolved`y").unwrap()),
            ],
        )
    );
}

#[test]
fn reading_stops_at_the_first_failure() {
    let mut link = loopback();
    link.put_function(Some("System`List"), 3).unwrap();
    link.put_i64(1).unwrap();
    link.put_symbol("bare").unwrap();
    link.put_i64(3).unwrap();

    assert_eq!(
        link.get_expr().unwrap_err().to_string(),
        "WSTP error: symbol name 'bare' has no context"
    );
    // What follows the offending token is still there.
    assert_eq!(link.get_i64(), Ok(3));
}

#[test]
fn function_with_too_few_arguments_cannot_be_read() {
    let mut link = loopback();
    link.put_function(Some("System`List"), 2).unwrap();
    link.put_i64(1).unwrap();

    assert_eq!(link.get_expr().unwrap_err().code(), Some(sys::WSEABORT));
}

#[test]
fn expression_is_written_as_its_tokens() {
    let mut link = loopback();
    let expr = Expr::normal(
        Expr::symbol(Symbol::try_new("System`Plus").unwrap()),
        vec![Expr::Integer(2), Expr::Real(Real::from_bits(f64::to_bits(0.5)).unwrap())],
    );
    link.put_expr(&expr).unwrap();

    assert!(matches!(link.get_token().unwrap(), Token::Function { length: 2 }));
    assert!(matches!(link.get_token().unwrap(), Token::Symbol(s) if s.as_str() == "System`Plus" && s.is_symbol()));
    assert!(matches!(link.get_token().unwrap(), Token::Integer(2)));
    assert!(matches!(link.get_token().unwrap(), Token::Real(bits) if bits == f64::to_bits(0.5)));
    assert!(!link.is_ready());
}

#[test]
fn eval_packet_wraps_the_expression() {
    let mut link = loopback();
    link.put_eval_packet(&Expr::Integer(9)).unwrap();

    assert_eq!(link.test_head("System`EvaluatePacket"), Ok(1));
    assert_eq!(link.get_i64(), Ok(9));

    link.put_raw_type(i32::from(sys::WSTKSTR)).unwrap();
    assert_eq!(
        link.put_eval_packet(&Expr::Integer(9)).unwrap_err().message(),
        "WSTP error: WSTP error (code 5): WSTP error code 5 occurred."
    );
}

//======================================
// Transfers
//======================================

#[test]
fn transfer_moves_one_whole_expression() {
    let mut env = Environment::new();
    let mut a = Link::new_loopback(&mut env).unwrap();
    let mut b = Link::new_loopback(&mut env).unwrap();

    a.put_function(Some("System`List"), 2).unwrap();
    a.put_function(Some("Global`f"), 1).unwrap();
    a.put_i64(1).unwrap();
    a.put_i64(2).unwrap();
    a.put_str("next").unwrap();

    a.transfer_expr_to(&mut b).unwrap();

    assert_eq!(a.get_string(), Ok(String::from("next")));
    assert_eq!(
        b.get_expr().unwrap(),
        Expr::normal(
            Expr::symbol(Symbol::try_new("System`List").unwrap()),
            vec![
                Expr::normal(
                    Expr::symbol(Symbol::try_new("Global`f").unwrap()),
                    vec![Expr::Integer(1)]
                ),
                Expr::Integer(2),
            ],
        )
    );
    assert!(!b.is_ready());
}

#[test]
fn transfer_of_a_partial_expression_moves_nothing() {
    let mut env = Environment::new();
    let mut a = Link::new_loopback(&mut env).unwrap();
    let mut b = Link::new_loopback(&mut env).unwrap();

    a.put_function(Some("System`List"), 2).unwrap();
    a.put_i64(1).unwrap();

    assert_eq!(a.transfer_expr_to(&mut b).unwrap_err().code(), Some(sys::WSEABORT));
    assert!(!b.is_ready());
    assert_eq!(a.get_arg_count(), Ok(2));

    let mut empty = Link::new_loopback(&mut env).unwrap();
    assert_eq!(empty.transfer_expr_to(&mut b).unwrap_err().code(), Some(sys::WSEABORT));
}

//======================================
// Arrays
//======================================

#[test]
fn array_has_as_many_elements_as_its_dimensions_say() {
    assert!(dimensions_match(6, &[2, 3]));
    assert!(dimensions_match(1, &[]));
    assert!(dimensions_match(0, &[4, 0, 5]));
    assert!(!dimensions_match(5, &[2, 3]));
    assert!(!dimensions_match(0, &[usize::MAX, 2]));
    assert!(dimensions_match(0, &[usize::MAX, 2, 0]));

    assert!(IntegerArray::new(vec![1, 2, 3], vec![2, 2]).is_none());
    let array = IntegerArray::new(vec![1, 2, 3, 4, 5, 6], vec![3, 2]).unwrap();
    assert_eq!(array.dimensions(), &[3, 2]);
    assert_eq!(array.data(), &[1, 2, 3, 4, 5, 6]);
}

#[test]
fn array_round_trip_keeps_data_and_shape() {
    let mut link = loopback();
    link.put_i64_array(&[1, 2, 3, 4, 5, 6], &[2, 3]).unwrap();

    // An array shows the type of a function, and is read as an array only.
    assert_eq!(link.get_type(), Ok(TokenType::Function));
    assert_eq!(link.get_i64().map_err(|err| err.code()), Err(Some(sys::MLEGSEQ)));
    assert_eq!(link.get_arg_count().unwrap_err().code(), Some(sys::WSEGSEQ));
    assert_eq!(link.get_token().unwrap_err().code(), Some(sys::WSEGSEQ));

    let out = link.get_i64_array().unwrap();
    assert_eq!(out.data(), &[1, 2, 3, 4, 5, 6]);
    assert_eq!(out.dimensions(), &[2, 3]);
    assert_eq!(out.rank(), 2);
    assert_eq!(out.length(), 2);
}

#[test]
fn narrow_arrays_must_fit() {
    let mut link = loopback();
    link.put_i64_array(&[1, 70000, 3], &[3]).unwrap();

    assert_eq!(link.get_i16_array().unwrap_err().code(), Some(sys::WSEOVFL));
    assert_eq!(link.get_u8_array().unwrap_err().code(), Some(sys::WSEOVFL));
    assert_eq!(link.get_i32_array().unwrap().data(), &[1, 70000, 3]);

    link.put_u8_array(&[7, 255], &[1, 2]).unwrap();
    link.put_i16_array(&[-7, 255], &[2, 1]).unwrap();
    link.put_i32_array(&[i32::MIN], &[1]).unwrap();
    assert_eq!(link.get_u8_array().unwrap().data(), &[7, 255]);
    assert_eq!(link.get_i16_array().unwrap().dimensions(), &[2, 1]);
    assert_eq!(link.get_i64_array().unwrap().data(), &[i64::from(i32::MIN)]);

    link.put_i64(1).unwrap();
    assert_eq!(link.get_i64_array().unwrap_err().code(), Some(sys::WSEGSEQ));
}

#[test]
fn scalar_is_an_array_without_dimensions() {
    let mut link = loopback();
    link.put_i64_array(&[42], &[]).unwrap();
    let out = link.get_i64_array().unwrap();
    assert_eq!(out.rank(), 0);
    assert_eq!(out.data(), &[42]);
}

#[test]
fn dimensions_must_fit_in_32_bits() {
    assert_eq!(abi_array_dimensions(&[2, 3, 2147483647]), Ok(vec![2, 3, 2147483647]));
    assert_eq!(abi_array_dimensions(&[]), Ok(vec![]));

    if usize::BITS > 32 {
        let err = abi_array_dimensions(&[2, 3000000000, 4, 5000000000]).unwrap_err();
        assert_eq!(err.code(), None);
        assert_eq!(
            err.to_string(),
            "WSTP error: in dimensions list [2, 3000000000, 4, 5000000000], the dimension at index 1 \
             (value: 3000000000) overflows i32: out of range integral type conversion attempted; \
             during WSTP array operation."
        );

        let mut link = loopback();
        let err = link.put_i64_array(&[], &[3000000000, 0]).unwrap_err();
        assert_eq!(
            err.to_string(),
            "WSTP error: in dimensions list [3000000000, 0], the dimension at index 0 \
             (value: 3000000000) overflows i32: out of range integral type conversion attempted; \
             during WSTP array operation."
        );
        assert!(!link.is_ready());
    }
}

//======================================
// Opening and closing links
//======================================

#[test]
fn environment_comes_to_life_with_the_first_link() {
    let mut env = Environment::new();
    assert_eq!(env.state(), Lifecycle::Uninitialized);

    let link = Link::new_loopback(&mut env).unwrap();
    assert_eq!(env.state(), Lifecycle::Initialized);
    assert_eq!(link.mode(), LinkMode::Loopback);
    assert_eq!(link.protocol(), None);
    assert!(link.is_activated());
    link.close(&mut env);

    assert_eq!(wstp::shutdown(&mut env), Ok(true));
    assert_eq!(env.state(), Lifecycle::Shutdown);
    assert_eq!(wstp::shutdown(&mut env), Ok(false));
}

#[test]
fn shutdown_of_an_unused_environment() {
    let mut env = Environment::new();
    assert_eq!(wstp::shutdown(&mut env), Ok(false));

    let message = "WSTP error: wstp-rs: STDENV has been shutdown. No more links can be created.";
    assert_eq!(
        Link::listen(&mut env, Protocol::TCPIP, "1").unwrap_err().to_string(),
        message
    );
    assert_eq!(
        Link::open_with_args(&mut env, &["-linkmode", "nonsense"]).unwrap_err().to_string(),
        message
    );
    assert_eq!(
        wstp::LinkServer::new(&mut env, 1).unwrap_err().to_string(),
        message
    );
    assert_eq!(env.state(), Lifecycle::Shutdown);
}

#[test]
fn name_is_free_again_after_close() {
    let mut env = Environment::new();

    let a = Link::listen(&mut env, Protocol::SharedMemory, "shared").unwrap();
    // Another protocol has its own names.
    let _other = Link::listen(&mut env, Protocol::TCPIP, "shared").unwrap();
    // Connecting takes no name.
    let _peer = Link::connect(&mut env, Protocol::SharedMemory, "shared").unwrap();
    assert_eq!(
        Link::listen(&mut env, Protocol::SharedMemory, "shared").unwrap_err().code(),
        Some(sys::WSENAMETAKEN)
    );

    a.close(&mut env);
    assert!(Link::listen(&mut env, Protocol::SharedMemory, "shared").is_ok());
}

#[test]
fn empty_name_is_never_taken() {
    let mut env = Environment::new();
    let _a = Link::listen(&mut env, Protocol::IntraProcess, "").unwrap();
    let _b = Link::listen(&mut env, Protocol::IntraProcess, "").unwrap();
}

#[test]
fn listening_link_is_described_by_its_arguments() {
    let mut env = Environment::new();
    let link = Link::listen(&mut env, Protocol::SharedMemory, "my-link").unwrap();
    assert_eq!(link.mode(), LinkMode::Listen);
    assert_eq!(link.protocol(), Some(Protocol::SharedMemory));
    assert_eq!(link.link_name(), "my-link");
    assert!(link.has_option("MLDontInteract"));
    assert!(!link.is_activated());
    assert!(!link.is_loopback());

    let same = Link::open_with_args(
        &mut env,
        &[
            "-wstp",
            "-linkmode",
            "listen",
            "-linkprotocol",
            "SharedMemory",
            "-linkname",
            "other-link",
            "-linkoptions",
            "MLDontInteract",
        ],
    )
    .unwrap();
    assert_eq!(same.mode(), LinkMode::Listen);
    assert_eq!(same.link_name(), "other-link");
}

#[test]
fn connecting_link_carries_its_options() {
    let mut env = Environment::new();
    let link =
        Link::connect_with_options(&mut env, Protocol::TCPIP, "8080", &["First", "-linkname"])
            .unwrap();
    assert_eq!(link.mode(), LinkMode::Connect);
    assert_eq!(link.protocol(), Some(Protocol::TCPIP));
    assert_eq!(link.link_name(), "8080");
    assert!(link.has_option("First"));
    assert!(link.has_option("-linkname"));
    assert!(!link.has_option("MLDontInteract"));

    let plain = Link::connect(&mut env, Protocol::TCPIP, "-linkoptions").unwrap();
    assert_eq!(plain.link_name(), "-linkoptions");
    assert!(!plain.has_option("First"));
}

#[test]
fn arguments_that_are_not_understood_are_errors() {
    let mut env = Environment::new();
    let code = |args: &[&str], env: &mut Environment| {
        Link::open_with_args(env, args).unwrap_err().code()
    };

    assert_eq!(code(&[], &mut env), Some(sys::WSEMODE));
    assert_eq!(code(&["-wstp"], &mut env), Some(sys::WSEMODE));
    assert_eq!(code(&["-linkmode"], &mut env), Some(sys::WSEARGV));
    assert_eq!(code(&["-linkmode", "launch"], &mut env), Some(sys::WSEMODE));
    assert_eq!(code(&["-linkmode", "listen"], &mut env), Some(sys::WSEPROTOCOL));
    assert_eq!(code(&["-linkmode", "connect"], &mut env), Some(sys::WSEPROTOCOL));
    assert_eq!(
        code(&["-linkmode", "listen", "-linkprotocol", "tcpip"], &mut env),
        Some(sys::WSEPROTOCOL)
    );
    assert_eq!(code(&["-linkfoo", "bar"], &mut env), Some(sys::WSEARGV));
    assert_eq!(code(&["listen"], &mut env), Some(sys::WSEARGV));

    let loopback = Link::open_with_args(&mut env, &["-linkmode", "loopback"]).unwrap();
    assert!(loopback.is_loopback());
    assert_eq!(loopback.protocol(), None);

    // The later of two modes counts.
    let link = Link::open_with_args(
        &mut env,
        &["-linkmode", "listen", "-linkprotocol", "TCPIP", "-linkmode", "connect"],
    )
    .unwrap();
    assert_eq!(link.mode(), LinkMode::Connect);
}

#[test]
fn protocols_have_their_names() {
    assert_eq!(Protocol::IntraProcess.to_string(), "IntraProcess");
    assert_eq!(Protocol::SharedMemory.to_string(), "SharedMemory");
    assert_eq!(Protocol::TCPIP.to_string(), "TCPIP");
}

//======================================
// Addresses
//======================================

#[test]
fn link_name_is_port_at_host() {
    let addr = Address { host: String::from("127.0.0.1"), port: 8080 };
    assert_eq!(tcpip_link_name(&addr), "8080@127.0.0.1");
    let addr = Address { host: String::from("::1"), port: 0 };
    assert_eq!(tcpip_link_name(&addr), "0@::1");
    let addr = Address { host: String::from("example.org"), port: u16::MAX };
    assert_eq!(tcpip_link_name(&addr), "65535@example.org");
}

#[test]
fn listening_tries_each_address_in_order() {
    let mut env = Environment::new();
    let addrs = [
        Address { host: String::from("10.0.0.1"), port: 1 },
        Address { host: String::from("10.0.0.2"), port: 2 },
    ];

    let first = Link::tcpip_listen(&mut env, &addrs).unwrap();
    assert_eq!(first.link_name(), "1@10.0.0.1");
    assert_eq!(first.protocol(), Some(Protocol::TCPIP));

    let second = Link::tcpip_listen(&mut env, &addrs).unwrap();
    assert_eq!(second.link_name(), "2@10.0.0.2");

    // Both are taken: the error of the last attempt.
    assert_eq!(
        Link::tcpip_listen(&mut env, &addrs).unwrap_err().code(),
        Some(sys::WSENAMETAKEN)
    );

    let err = Link::tcpip_listen(&mut env, &[]).unwrap_err();
    assert_eq!(err.to_string(), "WSTP error: socket address list is empty");
    let err = Link::tcpip_connect(&mut env, &[]).unwrap_err();
    assert_eq!(err.to_string(), "WSTP error: socket address list is empty");
    let err = Link::connect_to_link_server(&mut env, &[]).unwrap_err();
    assert_eq!(err.to_string(), "WSTP error: socket address list is empty");
}

#[test]
fn connection_to_a_server_is_marked_and_active() {
    let mut env = Environment::new();
    let addrs = [Address { host: String::from("10.0.0.1"), port: 1 }];
    let link = Link::connect_to_link_server(&mut env, &addrs).unwrap();
    assert!(link.has_option("MLUseUUIDTCPIPConnection"));
    assert!(link.is_activated());
    assert_eq!(link.mode(), LinkMode::Connect);

    let plain = Link::tcpip_connect(&mut env, &addrs).unwrap();
    assert!(!plain.has_option("MLUseUUIDTCPIPConnection"));
    assert!(!plain.is_activated());
}

#[test]
fn each_address_is_tried_until_one_succeeds() {
    let addrs = [
        Address { host: String::from("a"), port: 1 },
        Address { host: String::from("b"), port: 2 },
        Address { host: String::from("c"), port: 3 },
    ];
    let tried = std::cell::RefCell::new(Vec::new());

    let second = for_each_addr(&addrs, &|addr: &Address| {
        tried.borrow_mut().push(addr.port);
        if addr.port == 2 {
            Ok(addr.host.clone())
        } else {
            Err(Error::from_code(i32::from(addr.port), None))
        }
    });
    assert_eq!(second, Ok(String::from("b")));
    assert_eq!(*tried.borrow(), vec![1, 2]);

    let none: Result<(), Error> =
        for_each_addr(&addrs, &|addr: &Address| Err(Error::from_code(i32::from(addr.port), None)));
    assert_eq!(none.unwrap_err().code(), Some(3));

    let empty: Result<(), Error> = for_each_addr(&[], &|_: &Address| Ok(()));
    assert_eq!(empty.unwrap_err().to_string(), "WSTP error: socket address list is empty");
}

//======================================
// Waiting
//======================================

#[test]
fn wait_finds_activity_or_an_error() {
    let mut link = loopback();
    assert_eq!(link.wait(), None);

    link.put_i64(1).unwrap();
    assert_eq!(link.wait(), Some(Ok(())));

    assert_eq!(link.get_i64(), Ok(1));
    assert!(link.get_i64().is_err());
    assert_eq!(link.wait().unwrap().unwrap_err().code(), Some(sys::WSEABORT));
}

#[test]
fn wait_results_of_the_transport_are_read() {
    let mut link = loopback();
    assert_eq!(link.wait_result(sys::WSWAITSUCCESS), Ok(()));
    assert_eq!(link.wait_with_callback_result(sys::WSWAITSUCCESS), Ok(true));
    assert_eq!(link.wait_with_callback_result(sys::WSWAITCALLBACKABORTED), Ok(false));
    assert_eq!(
        link.wait_result(sys::WSWAITERROR).unwrap_err().to_string(),
        "WSTP error: unknown error occurred on WSLINK"
    );
    assert_eq!(
        link.wait_result(sys::WSWAITCALLBACKABORTED).unwrap_err().to_string(),
        "WSTP error: WSWaitForLinkActivity returned unexpected value: 4"
    );
    assert_eq!(
        link.wait_with_callback_result(sys::WSWAITTIMEOUT).unwrap_err().to_string(),
        "WSTP error: WSWaitForLinkActivity returned unexpected value: 3"
    );
    assert_eq!(
        link.wait_with_callback_result(-7).unwrap_err().to_string(),
        "WSTP error: WSWaitForLinkActivity returned unexpected value: -7"
    );

    assert!(link.get_i64().is_err());
    assert_eq!(link.wait_result(sys::WSWAITERROR).unwrap_err().code(), Some(sys::WSEABORT));
    assert_eq!(
        link.wait_with_callback_result(sys::WSWAITERROR).unwrap_err().code(),
        Some(sys::WSEABORT)
    );
}

#[test]
fn callback_tells_the_transport_to_go_on_or_stop() {
    assert_eq!(callback_signal(Some(ControlFlow::Continue(()))), 0);
    assert_eq!(callback_signal(Some(ControlFlow::Break(()))), 1);
    // A callback that panicked stops the wait.
    assert_eq!(callback_signal(None), 1);
}

#[test]
fn wait_with_callback_runs_in_steps() {
    let mut env = Environment::new();
    let mut link = Link::listen(&mut env, Protocol::IntraProcess, "").unwrap();

    assert!(!link.is_waiting());
    link.wait_with_callback();
    assert!(link.is_waiting());

    assert!(matches!(link.wait_step(None), WaitStep::Call));
    assert!(matches!(link.wait_step(Some(ControlFlow::Continue(()))), WaitStep::Call));
    assert!(link.is_waiting());

    // Data arrives while the callback runs.
    link.deliver(Atom::Integer(1));
    assert!(matches!(
        link.wait_step(Some(ControlFlow::Continue(()))),
        WaitStep::Finished(Ok(true))
    ));
    assert!(!link.is_waiting());

    // The callback asks to stop, though there is data.
    link.wait_with_callback();
    assert!(matches!(
        link.wait_step(Some(ControlFlow::Break(()))),
        WaitStep::Finished(Ok(false))
    ));
    assert!(!link.is_waiting());
}

#[test]
fn links_that_are_no_loopback_hand_their_tokens_over() {
    let mut env = Environment::new();
    let mut link = Link::connect(&mut env, Protocol::TCPIP, "1").unwrap();

    link.put_function(Some("System`List"), 1).unwrap();
    link.put_i64(5).unwrap();
    assert!(!link.is_ready());

    assert_eq!(link.take_outgoing(), Some(Atom::Function(1)));
    assert_eq!(link.take_outgoing(), Some(Atom::Symbol(String::from("System`List"))));
    assert_eq!(link.take_outgoing(), Some(Atom::Integer(5)));
    assert_eq!(link.take_outgoing(), None);
}

#[test]
fn whole_expression_is_recognised() {
    let mut env = Environment::new();
    let mut link = Link::connect(&mut env, Protocol::TCPIP, "1").unwrap();
    assert!(!link.holds_expression());

    // f[g[], 2] arrives token by token.
    link.deliver(Atom::Function(2));
    link.deliver(Atom::Symbol(String::from("Global`f")));
    link.deliver(Atom::Function(0));
    assert!(!link.holds_expression());
    link.deliver(Atom::Symbol(String::from("Global`g")));
    assert!(!link.holds_expression());
    link.deliver(Atom::Integer(2));
    assert!(link.holds_expression());

    assert_eq!(
        link.get_expr().unwrap(),
        Expr::normal(
            Expr::symbol(Symbol::try_new("Global`f").unwrap()),
            vec![
                Expr::normal(Expr::symbol(Symbol::try_new("Global`g").unwrap()), vec![]),
                Expr::Integer(2),
            ],
        )
    );
    assert!(!link.holds_expression());

    // A count of arguments that no memory could hold.
    link.deliver(Atom::Function(usize::MAX));
    link.deliver(Atom::Function(usize::MAX));
    link.deliver(Atom::Integer(1));
    assert!(!link.holds_expression());
}

#[test]
fn copy_of_an_expression_is_equal_to_it() {
    let expr = Expr::normal(
        Expr::symbol(Symbol::try_new("System`List").unwrap()),
        vec![
            Expr::Integer(1),
            Expr::string("two"),
            Expr::Real(Real::from_bits(f64::to_bits(3.0)).unwrap()),
            Expr::normal(Expr::symbol(Symbol::try_new("Global`f").unwrap()), vec![]),
        ],
    );
    assert_eq!(expr.clone(), expr);
}

#[test]
fn network_links_are_opened_at_known_hosts() {
    let mut env = Environment::new();

    assert!(env.knows_host("localhost"));
    assert!(env.knows_host("192.168.1.20"));
    assert!(env.knows_host("::1"));
    assert!(!env.knows_host("example.org"));
    assert!(!env.knows_host(""));
    assert!(!env.knows_host("Localhost"));

    assert_eq!(
        Link::connect(&mut env, Protocol::TCPIP, "80@example.org").unwrap_err().code(),
        Some(sys::WSEUNKNOWN)
    );
    assert_eq!(
        Link::listen(&mut env, Protocol::TCPIP, "80@").unwrap_err().code(),
        Some(sys::WSEUNKNOWN)
    );
    // The host stands behind the first `@`.
    assert_eq!(
        Link::listen(&mut env, Protocol::TCPIP, "80@localhost@x").unwrap_err().code(),
        Some(sys::WSEUNKNOWN)
    );
    // A name that could not be opened was not taken.
    env.add_host("example.org");
    assert!(env.knows_host("example.org"));
    assert!(Link::listen(&mut env, Protocol::TCPIP, "80@example.org").is_ok());
    assert!(Link::connect(&mut env, Protocol::TCPIP, "80@example.org").is_ok());

    // The names of other protocols name no host.
    assert!(Link::listen(&mut env, Protocol::SharedMemory, "80@nowhere").is_ok());
    assert!(Link::listen(&mut env, Protocol::IntraProcess, "@").is_ok());

    // Every address of a list can be at a host that is not known.
    let addrs = [Address { host: String::from("nowhere"), port: 1 }];
    assert_eq!(
        Link::tcpip_connect(&mut env, &addrs).unwrap_err().code(),
        Some(sys::WSEUNKNOWN)
    );
}

#[test]
fn quick_example_concatenates_the_elements() {
    let mut env = Environment::new();
    let mut link = Link::new_loopback(&mut env).unwrap();

    // Write the expression {"a", "b", "c"}
    link.put_function(Some("System`List"), 3).unwrap();
    link.put_str("a").unwrap();
    link.put_str("b").unwrap();
    link.put_str("c").unwrap();

    // Read back the expression, concatenating the elements as we go:
    let mut buffer = String::new();

    for _ in 0..link.test_head("System`List").unwrap() {
        buffer.push_str(link.get_string_ref().unwrap().as_str())
    }

    assert_eq!(buffer, "abc");
}

#[test]
fn symbol_of_a_name_is_parsed_or_resolved() {
    let parsed = Symbol::try_new("System`List");
    let resolved = Symbol::try_new("Global`List");

    assert_eq!(
        symbol_or_error("List", parsed.clone(), resolved.clone()).unwrap().as_str(),
        "System`List"
    );
    assert_eq!(symbol_or_error("List", None, resolved.clone()).unwrap().as_str(), "Global`List");
    assert_eq!(
        symbol_or_error("List", None, None).unwrap_err().to_string(),
        "WSTP error: symbol name 'List' has no context"
    );

    assert_eq!(resolve_symbol("System`List", resolved.clone()).unwrap().as_str(), "System`List");
    assert_eq!(resolve_symbol("List", resolved).unwrap().as_str(), "Global`List");
    assert_eq!(
        resolve_symbol("", None).unwrap_err().to_string(),
        "WSTP error: symbol name '' has no context"
    );
}

#[test]
fn links_within_the_process_are_named_by_the_environment() {
    let mut env = Environment::new();

    let first = Link::listen(&mut env, Protocol::IntraProcess, "mine").unwrap();
    let second = Link::listen(&mut env, Protocol::IntraProcess, "mine").unwrap();
    assert_eq!(first.link_name(), "IntraProcess-0");
    assert_eq!(second.link_name(), "IntraProcess-1");

    // The name asked for is never the name given.
    let third = Link::listen(&mut env, Protocol::IntraProcess, "IntraProcess-2").unwrap();
    assert_eq!(third.link_name(), "IntraProcess-2'");

    // A connecting link keeps the name of the listener that it asks for.
    let peer = Link::connect(&mut env, Protocol::IntraProcess, &first.link_name()).unwrap();
    assert_eq!(peer.link_name(), "IntraProcess-0");

    // The names of the other protocols are kept.
    let shared = Link::listen(&mut env, Protocol::SharedMemory, "mine").unwrap();
    assert_eq!(shared.link_name(), "mine");
}


#[test]
fn resolver_may_answer_one_name_in_two_ways() {
    let mut link = loopback();
    link.put_function(Some("System`List"), 2).unwrap();
    link.put_symbol("x").unwrap();
    link.put_symbol("x").unwrap();

    let asked = std::cell::Cell::new(0);
    let resolver = |name: &str| {
        asked.set(asked.get() + 1);
        Symbol::try_new(&format!("Context{}`{}", asked.get(), name))
    };
    let expr = link.get_expr_with_resolver(&resolver).unwrap();

    // The head has its context: the resolver was asked about the two
    // arguments only, once each.
    assert_eq!(asked.get(), 2);
    assert_eq!(
        expr,
        Expr::normal(
            Expr::symbol(Symbol::try_new("System`List").unwrap()),
            vec![
                Expr::symbol(Symbol::try_new("Context1`x").unwrap()),
                Expr::symbol(Symbol::try_new("Context2`x").unwrap()),
            ],
        )
    );
}

#[test]
fn resolver_is_not_asked_about_names_with_context() {
    let mut link = loopback();
    let expr = Expr::normal(
        Expr::symbol(Symbol::try_new("Global`f").unwrap()),
        vec![Expr::symbol(Symbol::try_new("Global`x").unwrap()), Expr::Integer(2)],
    );
    link.put_expr(&expr).unwrap();
    link.put_str("rest").unwrap();

    let resolver = |name: &str| -> Option<Symbol> { panic!("asked about {}", name) };
    assert_eq!(link.get_expr_with_resolver(&resolver).unwrap(), expr);
    assert_eq!(link.get_string(), Ok(String::from("rest")));
}

#[test]
fn answers_of_the_transport_on_a_link_are_read() {
    // The last error of a link.
    assert_eq!(wstp::link::error_from_answer(sys::WSEOK, None), None);
    assert_eq!(wstp::link::error_from_answer(sys::WSEOK, Some(String::from("fine"))), None);
    assert_eq!(wstp::link::error_from_answer(3, None), None);
    let err = wstp::link::error_from_answer(3, Some(String::from("out of sequence"))).unwrap();
    assert_eq!(err.code(), Some(3));
    assert_eq!(err.to_string(), "WSTP error (code 3): out of sequence");

    // An answer that can stand for a failure.
    assert_eq!(wstp::link::answer_or_error(70, sys::WSTKERR, None), Ok(70));
    assert_eq!(wstp::link::answer_or_error(1, 0, Some(Error::from_code(3, None))), Ok(1));
    assert_eq!(
        wstp::link::answer_or_error(0, sys::ILLEGALPKT, Some(Error::from_code(3, None)))
            .unwrap_err()
            .code(),
        Some(3)
    );
    assert_eq!(
        wstp::link::answer_or_error(0, 0, None).unwrap_err().to_string(),
        "WSTP error: unknown error occurred on WSLINK"
    );
}
