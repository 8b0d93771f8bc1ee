use static_assertions::parse::{BinOp, CmpOp, Cond, List, MemProp, Paren, Parse, ParseError};

#[test]
fn usize() {
    let mut values: Vec<usize> = (0..=100).collect();
    values.push(usize::max_value());

    for value in values {
        let inputs = [
            format!("{}", value),
            format!("{} ", value),
            format!("{})", value),
            format!("{}abcd", value),
        ];
        for input in inputs.iter() {
            let output = <usize as Parse>::parse(input);
            assert_eq!(output, Ok((value, &input[format!("{}", value).len()..])));
        }
    }
}

#[test]
fn mem_prop() {
    let props = [
        ("size",   "",  MemProp::Size),
        ("size ",  " ", MemProp::Size),
        ("align",  "",  MemProp::Align),
        ("align ", " ", MemProp::Align),
    ];

    for &(input, remainder, parsed) in props.iter() {
        let output = MemProp::parse(input.trim_start());
        assert_eq!(output, Ok((parsed, remainder)));
    }
}

#[test]
fn mem_prop_rejects_other_words() {
    assert_eq!(MemProp::parse("sizes"), Ok((MemProp::Size, "s")));
    assert_eq!(MemProp::parse(" size"), Err(ParseError::MemProp));
    assert_eq!(MemProp::parse("alig"), Err(ParseError::MemProp));
    assert_eq!(MemProp::parse(""), Err(ParseError::MemProp));
}

#[test]
fn usize_reads_leading_digits() {
    assert_eq!(<usize as Parse>::parse("42 == size"), Ok((42, " == size")));
    assert_eq!(<usize as Parse>::parse("007x"), Ok((7, "x")));
    assert_eq!(<usize as Parse>::parse(""), Err(ParseError::Int(None)));
    assert_eq!(<usize as Parse>::parse("123"), Ok((123, "")));
    assert_eq!(<usize as Parse>::parse("7"), Ok((7, "")));
}

#[test]
fn usize_errors_carry_the_int_error() {
    let empty = "".parse::<usize>().unwrap_err();
    assert_eq!(<usize as Parse>::parse("abc"), Err(ParseError::Int(Some(empty.clone()))));
    assert_eq!(<usize as Parse>::parse(" 1"), Err(ParseError::Int(Some(empty))));

    let huge = "99999999999999999999999999";
    let overflow = huge.parse::<usize>().unwrap_err();
    let input = format!("{} ", huge);
    assert_eq!(<usize as Parse>::parse(&input), Err(ParseError::Int(Some(overflow.clone()))));
    assert_eq!(ParseError::from(overflow.clone()), ParseError::Int(Some(overflow)));
}

#[test]
fn usize_largest_value() {
    let input = format!("{};", usize::MAX);
    assert_eq!(<usize as Parse>::parse(&input), Ok((usize::MAX, ";")));
}

#[test]
fn bool_literals() {
    assert_eq!(<bool as Parse>::parse("true"), Ok((true, "")));
    assert_eq!(<bool as Parse>::parse("false && x"), Ok((false, " && x")));
    assert_eq!(<bool as Parse>::parse("True"), Err(ParseError::Bool));
}

#[test]
fn cond_reads_boolean_literals() {
    assert_eq!(Cond::parse("true)"), Ok((Cond::Bool(true), ")")));
    assert_eq!(Cond::parse("false"), Ok((Cond::Bool(false), "")));
}

#[test]
fn cond_reads_memory_comparisons() {
    assert_eq!(Cond::parse("size == 4"), Ok((Cond::MemPropCmp(MemProp::Size, CmpOp::Eq, 4), "")));
    assert_eq!(Cond::parse("align<=8 rest"), Ok((Cond::MemPropCmp(MemProp::Align, CmpOp::LtEq, 8), " rest")));
    assert_eq!(Cond::parse("size"), Err(ParseError::CmpOp));
    assert_eq!(Cond::parse("size == x"), Err(ParseError::Int(Some("".parse::<usize>().unwrap_err()))));
    assert_eq!(Cond::parse("size == "), Err(ParseError::Int(None)));
}

#[test]
fn cond_reads_negation_parentheses_and_operations() {
    assert_eq!(Cond::parse("!true"), Ok((Cond::Neg(Box::new(Cond::Bool(true))), "")));
    assert_eq!(Cond::parse("( false )"), Ok((Cond::Paren(Box::new(Cond::Bool(false))), "")));
    let left = Box::new(Cond::MemPropCmp(MemProp::Size, CmpOp::Lt, 8));
    let right = Box::new(Cond::Bool(true));
    assert_eq!(
        Cond::parse("size < 8 != true"),
        Ok((Cond::BinOp(left, BinOp::CmpOp(CmpOp::Ne), right), "")),
    );
    // Operations group to the right, and `!` takes the term after it.
    let expected = Cond::BinOp(
        Box::new(Cond::Neg(Box::new(Cond::Bool(true)))),
        BinOp::CmpOp(CmpOp::Eq),
        Box::new(Cond::BinOp(Box::new(Cond::Bool(false)), BinOp::CmpOp(CmpOp::Ne), Box::new(Cond::Bool(true)))),
    );
    assert_eq!(Cond::parse("!true == false != true"), Ok((expected, "")));
}

#[test]
fn cond_errors() {
    assert_eq!(Cond::parse("x"), Err(ParseError::Cond));
    assert_eq!(Cond::parse(""), Err(ParseError::Cond));
    assert_eq!(Cond::parse("(true"), Err(ParseError::Paren));
}

#[test]
fn cond_leaves_an_unreadable_operation() {
    assert_eq!(Cond::parse("true && x"), Ok((Cond::Bool(true), " && x")));
    assert_eq!(Cond::parse("false || x"), Ok((Cond::Bool(false), " || x")));
    assert_eq!(Cond::parse("true == x"), Ok((Cond::Bool(true), " == x")));
}

#[test]
fn cond_clone_is_equal() {
    let (cond, _) = Cond::parse("!(size == 4) == align > 2").unwrap();
    assert_eq!(cond.clone(), cond);
}

#[test]
fn cmp_op_parse_takes_longest_operator() {
    assert_eq!(CmpOp::parse("== 4"), Ok((CmpOp::Eq, " 4")));
    assert_eq!(CmpOp::parse("!=4"), Ok((CmpOp::Ne, "4")));
    assert_eq!(CmpOp::parse("<4"), Ok((CmpOp::Lt, "4")));
    assert_eq!(CmpOp::parse(">4"), Ok((CmpOp::Gt, "4")));
    assert_eq!(CmpOp::parse("<=4"), Ok((CmpOp::LtEq, "4")));
    assert_eq!(CmpOp::parse(">=4"), Ok((CmpOp::GtEq, "4")));
    assert_eq!(CmpOp::parse("<= 4"), Ok((CmpOp::LtEq, " 4")));
    assert_eq!(CmpOp::parse(">="), Ok((CmpOp::GtEq, "")));
    assert_eq!(CmpOp::parse("=4"), Err(ParseError::CmpOp));
}

#[test]
fn cmp_op_from_str_and_as_str() {
    let ops = [CmpOp::Eq, CmpOp::Ne, CmpOp::Lt, CmpOp::LtEq, CmpOp::Gt, CmpOp::GtEq];
    let texts = ["==", "!=", "<", "<=", ">", ">="];
    for (op, text) in ops.iter().zip(texts.iter()) {
        assert_eq!(op.as_str(), *text);
        assert_eq!(CmpOp::from_str(text), Ok(*op));
        assert_eq!(text.parse::<CmpOp>(), Ok(*op));
    }
    assert_eq!(CmpOp::from_str("<=="), Err(()));
    assert_eq!(CmpOp::from_str(""), Err(()));
}

#[test]
fn bin_op_wraps_cmp_op() {
    assert_eq!(BinOp::parse("!= 2"), Ok((BinOp::CmpOp(CmpOp::Ne), " 2")));
    assert_eq!(BinOp::parse("<=2"), Ok((BinOp::CmpOp(CmpOp::LtEq), "2")));
    assert_eq!(BinOp::parse("&& x"), Err(ParseError::CmpOp));
    assert_eq!(BinOp::parse("||"), Err(ParseError::CmpOp));
}

#[test]
fn paren_trims_inner_white_space() {
    assert_eq!(Paren::<bool>::parse("( true )x"), Ok((Paren(true), "x")));
    assert_eq!(Paren::<bool>::parse("(\tfalse\n) "), Ok((Paren(false), " ")));
    assert_eq!(Paren::<bool>::parse("(\u{3000}true\u{a0})"), Ok((Paren(true), "")));
    assert_eq!(Paren::<bool>::parse("(true"), Err(ParseError::Paren));
    assert_eq!(Paren::<bool>::parse("true)"), Err(ParseError::Paren));
    assert_eq!(Paren::<bool>::parse("( x )"), Err(ParseError::Bool));
    assert_eq!(Paren::<MemProp>::parse("(align)"), Ok((Paren(MemProp::Align), "")));
}

#[test]
fn list_reads_comma_separated_items() {
    assert_eq!(List::<bool>::parse("true, false"), Ok((List(vec![true, false]), "")));
    assert_eq!(List::<bool>::parse("true,"), Ok((List(vec![true]), "")));
    assert_eq!(List::<bool>::parse("true ,\tfalse ,  "), Ok((List(vec![true, false]), "")));
    assert_eq!(List::<bool>::parse("true false"), Ok((List(vec![true]), " false")));
    assert_eq!(List::<usize>::parse("1, 2,3"), Ok((List(vec![1, 2, 3]), "")));
    assert_eq!(
        List::<Paren<bool>>::parse("(true), ( false )x"),
        Ok((List(vec![Paren(true), Paren(false)]), "x")),
    );
}

#[test]
fn list_passes_on_item_errors() {
    assert_eq!(List::<bool>::parse("truefalse"), Ok((List(vec![true]), "false")));
    assert_eq!(List::<bool>::parse(""), Err(ParseError::Bool));
    assert_eq!(List::<bool>::parse("x, true"), Err(ParseError::Bool));
    assert_eq!(List::<bool>::parse("true, x"), Err(ParseError::Bool));
    assert_eq!(List::<Paren<bool>>::parse("(true), (x)"), Err(ParseError::Bool));
}

#[test]
fn list_of_units_ends_without_a_comma() {
    assert_eq!(List::<()>::parse("x"), Ok((List(vec![()]), "x")));
    assert_eq!(List::<()>::parse(",,"), Ok((List(vec![(), ()]), "")));
}

#[test]
fn unit_consumes_nothing() {
    assert_eq!(<() as Parse>::parse("abc"), Ok(((), "abc")));
}
