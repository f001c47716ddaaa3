use vhdl_lang::ast::{
    DiscreteRange, Direction, Expr, Operator, PosConstraint, RangeExpr, ResolutionIndication,
    SelectedName, SubtypeConstraint, SubtypeIndication, TypeMark,
};
use vhdl_lang::subtype_indication::parse_subtype_indication;
use vhdl_lang::tokens::{Kind, Span, Token, TokenStream};

fn lex_with_symbols(src: &str) -> (Vec<Token>, Vec<String>) {
    let bytes = src.as_bytes();
    let mut toks: Vec<Token> = Vec::new();
    let mut syms: Vec<String> = Vec::new();
    let mut i = 0usize;
    while i < bytes.len() {
        let c = bytes[i] as char;
        if c.is_whitespace() {
            i += 1;
            continue;
        }
        let start = i;
        if c.is_ascii_alphabetic() || c == '_' {
            while i < bytes.len()
                && ((bytes[i] as char).is_ascii_alphanumeric() || bytes[i] == b'_')
            {
                i += 1;
            }
            let word = &src[start..i];
            let pos = Span { start, end: i };
            let (kind, value) = match word {
                "to" => (Kind::KwTo, 0u64),
                "downto" => (Kind::KwDownto, 0),
                "range" => (Kind::KwRange, 0),
                "open" => (Kind::KwOpen, 0),
                "subtype" => (Kind::KwSubtype, 0),
                _ => {
                    let id = match syms.iter().position(|s| s == word) {
                        Some(p) => p,
                        None => {
                            syms.push(word.to_string());
                            syms.len() - 1
                        }
                    };
                    (Kind::Identifier, id as u64)
                }
            };
            toks.push(Token { kind, value, pos });
        } else if c.is_ascii_digit() {
            while i < bytes.len() && (bytes[i] as char).is_ascii_digit() {
                i += 1;
            }
            let value: u64 = src[start..i].parse().unwrap();
            toks.push(Token {
                kind: Kind::Number,
                value,
                pos: Span { start, end: i },
            });
        } else {
            let kind = match c {
                '(' => Kind::LeftPar,
                ')' => Kind::RightPar,
                ',' => Kind::Comma,
                '.' => Kind::Dot,
                '\'' => Kind::Tick,
                '+' => Kind::Plus,
                '-' => Kind::Minus,
                _ => panic!("unexpected character {c}"),
            };
            i += 1;
            toks.push(Token {
                kind,
                value: 0,
                pos: Span { start, end: i },
            });
        }
    }
    (toks, syms)
}

fn parse_ok(src: &str) -> (SubtypeIndication, Vec<String>) {
    let (toks, syms) = lex_with_symbols(src);
    let n = toks.len();
    let mut stream = TokenStream::new(toks);
    let ind = parse_subtype_indication(&mut stream).expect("parse failed");
    assert_eq!(stream.idx, n, "parser did not consume the whole input");
    (ind, syms)
}

fn parse_err(src: &str) -> vhdl_lang::tokens::ParseError {
    let (toks, _) = lex_with_symbols(src);
    let mut stream = TokenStream::new(toks);
    parse_subtype_indication(&mut stream).expect_err("parse unexpectedly succeeded")
}

fn s1(src: &str, sub: &str) -> Span {
    let p = src.find(sub).unwrap();
    Span {
        start: p,
        end: p + sub.len(),
    }
}

fn name_strs(n: &SelectedName, syms: &[String]) -> Vec<String> {
    n.parts
        .iter()
        .map(|id| syms[id.sym as usize].clone())
        .collect()
}

fn check_name(n: &SelectedName, syms: &[String], expected: &[&str]) {
    let want: Vec<String> = expected.iter().map(|s| s.to_string()).collect();
    assert_eq!(name_strs(n, syms), want);
}

fn check_type_mark(tm: &TypeMark, syms: &[String], expected: &[&str], attr: bool) {
    check_name(&tm.name, syms, expected);
    assert_eq!(tm.subtype_attr, attr);
}

fn num_of(e: &Expr) -> u64 {
    match e {
        Expr::Num { value, .. } => *value,
        _ => panic!("expected a number"),
    }
}

fn check_bounds(r: &RangeExpr, left_desc: &str, dir: Direction, right_desc: &str, syms: &[String]) {
    match r {
        RangeExpr::Bounds {
            left,
            direction,
            right,
            ..
        } => {
            assert_eq!(*direction, dir);
            check_expr(left, left_desc, syms);
            check_expr(right, right_desc, syms);
        }
        RangeExpr::Attribute { .. } => panic!("expected explicit bounds"),
    }
}

// A tiny description language for expected expressions: "2-1" means the
// subtraction of the numbers 2 and 1, a bare word means a name, a bare
// number means a number.
fn check_expr(e: &Expr, desc: &str, syms: &[String]) {
    if let Some(p) = desc.find('-') {
        match e {
            Expr::Binary {
                op, left, right, ..
            } => {
                assert_eq!(*op, Operator::Minus);
                check_expr(left, &desc[..p], syms);
                check_expr(right, &desc[p + 1..], syms);
            }
            _ => panic!("expected a subtraction for {desc}"),
        }
    } else if desc.chars().next().unwrap().is_ascii_digit() {
        assert_eq!(num_of(e), desc.parse::<u64>().unwrap());
    } else {
        match e {
            Expr::Name(n) => check_name(n, syms, &[desc]),
            _ => panic!("expected the name {desc}"),
        }
    }
}

fn constraint_of(ind: SubtypeIndication) -> PosConstraint {
    ind.constraint.expect("expected a constraint")
}

#[test]
fn parse_subtype_indication_without_constraint() {
    let code = "std_logic";
    let (ind, syms) = parse_ok(code);
    assert!(matches!(ind.resolution, ResolutionIndication::Unresolved));
    check_type_mark(&ind.type_mark, &syms, &["std_logic"], false);
    assert_eq!(ind.type_mark.pos, s1(code, "std_logic"));
    assert!(ind.constraint.is_none());
}

#[test]
fn parse_subtype_indication_with_resolution_function() {
    let code = "resolve std_logic";
    let (ind, syms) = parse_ok(code);
    match &ind.resolution {
        ResolutionIndication::FunctionName(n) => {
            check_name(n, &syms, &["resolve"]);
            assert_eq!(n.pos, s1(code, "resolve"));
        }
        _ => panic!("expected a resolution function name"),
    }
    check_type_mark(&ind.type_mark, &syms, &["std_logic"], false);
    assert!(ind.constraint.is_none());
}

#[test]
fn parse_subtype_indication_with_array_element_resolution_function() {
    let code = "(resolve) integer_vector";
    let (ind, syms) = parse_ok(code);
    match &ind.resolution {
        ResolutionIndication::ArrayElement(n) => {
            check_name(n, &syms, &["resolve"]);
            assert_eq!(n.pos, s1(code, "resolve"));
        }
        _ => panic!("expected an array-element resolution"),
    }
    check_type_mark(&ind.type_mark, &syms, &["integer_vector"], false);
    assert!(ind.constraint.is_none());
}

#[test]
fn parse_subtype_indication_with_record_element_resolution_function() {
    let code = "(elem resolve) rec_t";
    let (ind, syms) = parse_ok(code);
    match &ind.resolution {
        ResolutionIndication::Record(elems) => {
            assert_eq!(elems.len(), 1);
            assert_eq!(syms[elems[0].ident.sym as usize], "elem");
            assert_eq!(elems[0].ident.pos, s1(code, "elem"));
            match elems[0].resolution.as_ref() {
                ResolutionIndication::FunctionName(n) => check_name(n, &syms, &["resolve"]),
                _ => panic!("expected a function name for the element"),
            }
        }
        _ => panic!("expected a record-element resolution"),
    }
    check_type_mark(&ind.type_mark, &syms, &["rec_t"], false);
    assert!(ind.constraint.is_none());
}

#[test]
fn parse_subtype_indication_with_record_element_resolution_function_many() {
    let code = "(elem1 (resolve1), elem2 resolve2, elem3 (sub_elem sub_resolve)) rec_t";
    let (ind, syms) = parse_ok(code);
    match &ind.resolution {
        ResolutionIndication::Record(elems) => {
            assert_eq!(elems.len(), 3);
            assert_eq!(syms[elems[0].ident.sym as usize], "elem1");
            match elems[0].resolution.as_ref() {
                ResolutionIndication::ArrayElement(n) => check_name(n, &syms, &["resolve1"]),
                _ => panic!("elem1 should get an array-element resolution"),
            }
            assert_eq!(syms[elems[1].ident.sym as usize], "elem2");
            match elems[1].resolution.as_ref() {
                ResolutionIndication::FunctionName(n) => check_name(n, &syms, &["resolve2"]),
                _ => panic!("elem2 should get a function name"),
            }
            assert_eq!(syms[elems[2].ident.sym as usize], "elem3");
            match elems[2].resolution.as_ref() {
                ResolutionIndication::Record(inner) => {
                    assert_eq!(inner.len(), 1);
                    assert_eq!(syms[inner[0].ident.sym as usize], "sub_elem");
                    match inner[0].resolution.as_ref() {
                        ResolutionIndication::FunctionName(n) => {
                            check_name(n, &syms, &["sub_resolve"])
                        }
                        _ => panic!("sub_elem should get a function name"),
                    }
                }
                _ => panic!("elem3 should get a record resolution"),
            }
        }
        _ => panic!("expected a record-element resolution"),
    }
    check_type_mark(&ind.type_mark, &syms, &["rec_t"], false);
    assert!(ind.constraint.is_none());
}

#[test]
fn parse_subtype_indication_with_resolution_function_selected_name() {
    let code = "lib.foo.resolve std_logic";
    let (ind, syms) = parse_ok(code);
    match &ind.resolution {
        ResolutionIndication::FunctionName(n) => {
            check_name(n, &syms, &["lib", "foo", "resolve"]);
            assert_eq!(n.pos, s1(code, "lib.foo.resolve"));
        }
        _ => panic!("expected a resolution function name"),
    }
    check_type_mark(&ind.type_mark, &syms, &["std_logic"], false);
    assert!(ind.constraint.is_none());
}

#[test]
fn parse_subtype_indication_without_selected_name() {
    let code = "lib.foo.bar";
    let (ind, syms) = parse_ok(code);
    assert!(matches!(ind.resolution, ResolutionIndication::Unresolved));
    check_type_mark(&ind.type_mark, &syms, &["lib", "foo", "bar"], false);
    assert_eq!(ind.type_mark.pos, s1(code, "lib.foo.bar"));
    assert!(ind.constraint.is_none());
}

#[test]
fn parse_subtype_indication_with_range() {
    let code = "integer range 0 to 2-1";
    let (ind, syms) = parse_ok(code);
    assert!(matches!(ind.resolution, ResolutionIndication::Unresolved));
    check_type_mark(&ind.type_mark, &syms, &["integer"], false);
    let c = constraint_of(ind);
    assert_eq!(c.pos, s1(code, "range 0 to 2-1"));
    match &c.item {
        SubtypeConstraint::Range(r) => {
            assert_eq!(r.position(), s1(code, "0 to 2-1"));
            check_bounds(r, "0", Direction::Ascending, "2-1", &syms);
        }
        _ => panic!("expected a range constraint"),
    }
}

#[test]
fn parse_subtype_indication_with_range_attribute() {
    let code = "integer range lib.foo.bar'range";
    let (ind, syms) = parse_ok(code);
    check_type_mark(&ind.type_mark, &syms, &["integer"], false);
    let c = constraint_of(ind);
    assert_eq!(c.pos, s1(code, "range lib.foo.bar'range"));
    match &c.item {
        SubtypeConstraint::Range(r) => match r {
            RangeExpr::Attribute { name, pos } => {
                check_name(name, &syms, &["lib", "foo", "bar"]);
                assert_eq!(*pos, s1(code, "lib.foo.bar'range"));
            }
            _ => panic!("expected a range attribute"),
        },
        _ => panic!("expected a range constraint"),
    }
}

#[test]
fn parse_subtype_indication_with_array_constraint_range() {
    let code = "integer_vector(2-1 downto 0)";
    let (ind, syms) = parse_ok(code);
    check_type_mark(&ind.type_mark, &syms, &["integer_vector"], false);
    let c = constraint_of(ind);
    assert_eq!(c.pos, s1(code, "(2-1 downto 0)"));
    match &c.item {
        SubtypeConstraint::Array(ranges, elem) => {
            assert!(elem.is_none());
            assert_eq!(ranges.len(), 1);
            match &ranges[0] {
                DiscreteRange::Range(r) => {
                    check_bounds(r, "2-1", Direction::Descending, "0", &syms)
                }
                _ => panic!("expected an explicit range"),
            }
        }
        _ => panic!("expected an array constraint"),
    }
}

#[test]
fn parse_subtype_indication_with_array_constraint_discrete() {
    let code = "integer_vector(lib.foo.bar)";
    let (ind, syms) = parse_ok(code);
    check_type_mark(&ind.type_mark, &syms, &["integer_vector"], false);
    let c = constraint_of(ind);
    assert_eq!(c.pos, s1(code, "(lib.foo.bar)"));
    match &c.item {
        SubtypeConstraint::Array(ranges, elem) => {
            assert!(elem.is_none());
            assert_eq!(ranges.len(), 1);
            match &ranges[0] {
                DiscreteRange::Discrete(n) => {
                    check_name(n, &syms, &["lib", "foo", "bar"]);
                    assert_eq!(n.pos, s1(code, "lib.foo.bar"));
                }
                _ => panic!("expected a discrete subtype range"),
            }
        }
        _ => panic!("expected an array constraint"),
    }
}

#[test]
fn parse_subtype_indication_with_array_constraint_attribute() {
    let code = "integer_vector(lib.pkg.bar'range)";
    let (ind, syms) = parse_ok(code);
    check_type_mark(&ind.type_mark, &syms, &["integer_vector"], false);
    let c = constraint_of(ind);
    assert_eq!(c.pos, s1(code, "(lib.pkg.bar'range)"));
    match &c.item {
        SubtypeConstraint::Array(ranges, elem) => {
            assert!(elem.is_none());
            assert_eq!(ranges.len(), 1);
            match &ranges[0] {
                DiscreteRange::Range(RangeExpr::Attribute { name, pos }) => {
                    check_name(name, &syms, &["lib", "pkg", "bar"]);
                    assert_eq!(*pos, s1(code, "lib.pkg.bar'range"));
                }
                _ => panic!("expected a range attribute"),
            }
        }
        _ => panic!("expected an array constraint"),
    }
}

#[test]
fn parse_subtype_indication_with_array_constraint_open() {
    let code = "integer_vector(open)";
    let (ind, syms) = parse_ok(code);
    check_type_mark(&ind.type_mark, &syms, &["integer_vector"], false);
    let c = constraint_of(ind);
    assert_eq!(c.pos, s1(code, "(open)"));
    match &c.item {
        SubtypeConstraint::Array(ranges, elem) => {
            assert!(ranges.is_empty());
            assert!(elem.is_none());
        }
        _ => panic!("expected an array constraint"),
    }
}

#[test]
fn parse_subtype_indication_with_multi_dim_array_constraints() {
    let code = "integer_vector(2-1 downto 0, 11 to 14)";
    let (ind, syms) = parse_ok(code);
    check_type_mark(&ind.type_mark, &syms, &["integer_vector"], false);
    let c = constraint_of(ind);
    assert_eq!(c.pos, s1(code, "(2-1 downto 0, 11 to 14)"));
    match &c.item {
        SubtypeConstraint::Array(ranges, elem) => {
            assert!(elem.is_none());
            assert_eq!(ranges.len(), 2);
            match &ranges[0] {
                DiscreteRange::Range(r) => {
                    check_bounds(r, "2-1", Direction::Descending, "0", &syms)
                }
                _ => panic!("expected an explicit range"),
            }
            match &ranges[1] {
                DiscreteRange::Range(r) => {
                    check_bounds(r, "11", Direction::Ascending, "14", &syms)
                }
                _ => panic!("expected an explicit range"),
            }
        }
        _ => panic!("expected an array constraint"),
    }
}

#[test]
fn parse_subtype_indication_with_array_element_constraint() {
    let code = "integer_vector(2-1 downto 0, 11 to 14)(foo to bar)";
    let (ind, syms) = parse_ok(code);
    check_type_mark(&ind.type_mark, &syms, &["integer_vector"], false);
    let c = constraint_of(ind);
    assert_eq!(c.pos, s1(code, "(2-1 downto 0, 11 to 14)(foo to bar)"));
    match &c.item {
        SubtypeConstraint::Array(ranges, elem) => {
            assert_eq!(ranges.len(), 2);
            let elem = elem.as_ref().expect("expected an element constraint");
            assert_eq!(elem.pos, s1(code, "(foo to bar)"));
            match &elem.item {
                SubtypeConstraint::Array(inner, inner_elem) => {
                    assert!(inner_elem.is_none());
                    assert_eq!(inner.len(), 1);
                    match &inner[0] {
                        DiscreteRange::Range(r) => {
                            check_bounds(r, "foo", Direction::Ascending, "bar", &syms)
                        }
                        _ => panic!("expected an explicit range"),
                    }
                }
                _ => panic!("expected a nested array constraint"),
            }
        }
        _ => panic!("expected an array constraint"),
    }
}

#[test]
fn parse_subtype_indication_with_record_constraint() {
    let code = "axi_m2s_t(tdata(2-1 downto 0), tuser(3 to 5))";
    let (ind, syms) = parse_ok(code);
    check_type_mark(&ind.type_mark, &syms, &["axi_m2s_t"], false);
    let c = constraint_of(ind);
    assert_eq!(c.pos, s1(code, "(tdata(2-1 downto 0), tuser(3 to 5))"));
    match &c.item {
        SubtypeConstraint::Record(elems) => {
            assert_eq!(elems.len(), 2);
            assert_eq!(syms[elems[0].ident.sym as usize], "tdata");
            assert_eq!(elems[0].constraint.pos, s1(code, "(2-1 downto 0)"));
            match &elems[0].constraint.item {
                SubtypeConstraint::Array(rs, el) => {
                    assert!(el.is_none());
                    assert_eq!(rs.len(), 1);
                    match &rs[0] {
                        DiscreteRange::Range(r) => {
                            check_bounds(r, "2-1", Direction::Descending, "0", &syms)
                        }
                        _ => panic!("expected an explicit range"),
                    }
                }
                _ => panic!("expected a nested array constraint"),
            }
            assert_eq!(syms[elems[1].ident.sym as usize], "tuser");
            assert_eq!(elems[1].constraint.pos, s1(code, "(3 to 5)"));
            match &elems[1].constraint.item {
                SubtypeConstraint::Array(rs, el) => {
                    assert!(el.is_none());
                    assert_eq!(rs.len(), 1);
                    match &rs[0] {
                        DiscreteRange::Range(r) => {
                            check_bounds(r, "3", Direction::Ascending, "5", &syms)
                        }
                        _ => panic!("expected an explicit range"),
                    }
                }
                _ => panic!("expected a nested array constraint"),
            }
        }
        _ => panic!("expected a record constraint"),
    }
}

#[test]
fn test_subtype_indication_with_subtype_attribute() {
    let code = "obj'subtype";
    let (ind, syms) = parse_ok(code);
    assert!(matches!(ind.resolution, ResolutionIndication::Unresolved));
    check_type_mark(&ind.type_mark, &syms, &["obj"], true);
    assert_eq!(ind.type_mark.pos, s1(code, "obj'subtype"));
    assert!(ind.constraint.is_none());

    let code = "obj.field'subtype";
    let (ind, syms) = parse_ok(code);
    check_type_mark(&ind.type_mark, &syms, &["obj", "field"], true);
    assert_eq!(ind.type_mark.pos, s1(code, "obj.field'subtype"));
    assert!(ind.constraint.is_none());
}

#[test]
fn nested_element_constraints_are_right_associative() {
    let code = "t(1 to 2)(3 to 4)(5 to 6)";
    let (ind, syms) = parse_ok(code);
    check_type_mark(&ind.type_mark, &syms, &["t"], false);
    let outer = constraint_of(ind);
    match &outer.item {
        SubtypeConstraint::Array(rs, elem) => {
            assert_eq!(rs.len(), 1);
            let mid = elem.as_ref().expect("expected a middle element constraint");
            match &mid.item {
                SubtypeConstraint::Array(rs2, elem2) => {
                    assert_eq!(rs2.len(), 1);
                    let inner = elem2.as_ref().expect("expected an inner element constraint");
                    assert_eq!(inner.pos, s1(code, "(5 to 6)"));
                    match &inner.item {
                        SubtypeConstraint::Array(rs3, elem3) => {
                            assert_eq!(rs3.len(), 1);
                            assert!(elem3.is_none());
                        }
                        _ => panic!("expected an innermost array constraint"),
                    }
                }
                _ => panic!("expected a middle array constraint"),
            }
        }
        _ => panic!("expected an outer array constraint"),
    }
}

#[test]
fn parse_errors_are_reported() {
    let e = parse_err("");
    assert!(e.expected.contains(&Kind::Identifier));
    parse_err("integer_vector(2-1 downto 0,");
    parse_err("(resolve");
    parse_err("integer range 0");
    parse_err("5");
    let e = parse_err("rec_t(elem range 0 to 1)");
    assert!(e.expected.contains(&Kind::LeftPar));
}

// A pretty-printer for indications, used to check that re-parsing printed
// source yields a structurally equal indication (modulo spans).

fn print_name(n: &SelectedName, syms: &[String]) -> String {
    name_strs(n, syms).join(".")
}

fn print_resolution(r: &ResolutionIndication, syms: &[String]) -> String {
    match r {
        ResolutionIndication::Unresolved => String::new(),
        ResolutionIndication::FunctionName(n) => format!("{} ", print_name(n, syms)),
        ResolutionIndication::ArrayElement(n) => format!("({}) ", print_name(n, syms)),
        ResolutionIndication::Record(elems) => {
            let parts: Vec<String> = elems
                .iter()
                .map(|e| {
                    let inner = match e.resolution.as_ref() {
                        ResolutionIndication::FunctionName(n) => print_name(n, syms),
                        other => print_resolution(other, syms).trim_end().to_string(),
                    };
                    format!("{} {}", syms[e.ident.sym as usize], inner)
                })
                .collect();
            format!("({}) ", parts.join(", "))
        }
    }
}

fn print_expr(e: &Expr, syms: &[String]) -> String {
    match e {
        Expr::Num { value, .. } => format!("{value}"),
        Expr::Name(n) => print_name(n, syms),
        Expr::Binary {
            op, left, right, ..
        } => {
            let o = match op {
                Operator::Plus => "+",
                Operator::Minus => "-",
            };
            format!("{}{}{}", print_expr(left, syms), o, print_expr(right, syms))
        }
    }
}

fn print_range(r: &RangeExpr, syms: &[String]) -> String {
    match r {
        RangeExpr::Bounds {
            left,
            direction,
            right,
            ..
        } => {
            let d = match direction {
                Direction::Ascending => "to",
                Direction::Descending => "downto",
            };
            format!(
                "{} {} {}",
                print_expr(left, syms),
                d,
                print_expr(right, syms)
            )
        }
        RangeExpr::Attribute { name, .. } => format!("{}'range", print_name(name, syms)),
    }
}

fn print_discrete_range(d: &DiscreteRange, syms: &[String]) -> String {
    match d {
        DiscreteRange::Range(r) => print_range(r, syms),
        DiscreteRange::Discrete(n) => print_name(n, syms),
    }
}

fn print_constraint(c: &PosConstraint, syms: &[String]) -> String {
    match &c.item {
        SubtypeConstraint::Range(r) => format!(" range {}", print_range(r, syms)),
        SubtypeConstraint::Array(rs, elem) => {
            let inner = if rs.is_empty() {
                "open".to_string()
            } else {
                rs.iter()
                    .map(|d| print_discrete_range(d, syms))
                    .collect::<Vec<_>>()
                    .join(", ")
            };
            let tail = match elem {
                Some(e) => print_constraint(e, syms),
                None => String::new(),
            };
            format!("({inner}){tail}")
        }
        SubtypeConstraint::Record(elems) => {
            let parts: Vec<String> = elems
                .iter()
                .map(|e| {
                    format!(
                        "{}{}",
                        syms[e.ident.sym as usize],
                        print_constraint(&e.constraint, syms)
                    )
                })
                .collect();
            format!("({})", parts.join(", "))
        }
    }
}

fn print_indication(ind: &SubtypeIndication, syms: &[String]) -> String {
    let tm = format!(
        "{}{}",
        print_name(&ind.type_mark.name, syms),
        if ind.type_mark.subtype_attr {
            "'subtype"
        } else {
            ""
        }
    );
    let c = match &ind.constraint {
        Some(c) => print_constraint(c, syms),
        None => String::new(),
    };
    format!("{}{}{}", print_resolution(&ind.resolution, syms), tm, c)
}

// Structural equality modulo spans, across the two symbol tables.

fn eq_name(a: &SelectedName, sa: &[String], b: &SelectedName, sb: &[String]) -> bool {
    name_strs(a, sa) == name_strs(b, sb)
}

fn eq_expr(a: &Expr, sa: &[String], b: &Expr, sb: &[String]) -> bool {
    match (a, b) {
        (Expr::Num { value: va, .. }, Expr::Num { value: vb, .. }) => va == vb,
        (Expr::Name(na), Expr::Name(nb)) => eq_name(na, sa, nb, sb),
        (
            Expr::Binary {
                op: oa,
                left: la,
                right: ra,
                ..
            },
            Expr::Binary {
                op: ob,
                left: lb,
                right: rb,
                ..
            },
        ) => oa == ob && eq_expr(la, sa, lb, sb) && eq_expr(ra, sa, rb, sb),
        _ => false,
    }
}

fn eq_range(a: &RangeExpr, sa: &[String], b: &RangeExpr, sb: &[String]) -> bool {
    match (a, b) {
        (
            RangeExpr::Bounds {
                left: la,
                direction: da,
                right: ra,
                ..
            },
            RangeExpr::Bounds {
                left: lb,
                direction: db,
                right: rb,
                ..
            },
        ) => da == db && eq_expr(la, sa, lb, sb) && eq_expr(ra, sa, rb, sb),
        (RangeExpr::Attribute { name: na, .. }, RangeExpr::Attribute { name: nb, .. }) => {
            eq_name(na, sa, nb, sb)
        }
        _ => false,
    }
}

fn eq_discrete(a: &DiscreteRange, sa: &[String], b: &DiscreteRange, sb: &[String]) -> bool {
    match (a, b) {
        (DiscreteRange::Range(ra), DiscreteRange::Range(rb)) => eq_range(ra, sa, rb, sb),
        (DiscreteRange::Discrete(na), DiscreteRange::Discrete(nb)) => eq_name(na, sa, nb, sb),
        _ => false,
    }
}

fn eq_constraint(a: &PosConstraint, sa: &[String], b: &PosConstraint, sb: &[String]) -> bool {
    match (&a.item, &b.item) {
        (SubtypeConstraint::Range(ra), SubtypeConstraint::Range(rb)) => eq_range(ra, sa, rb, sb),
        (SubtypeConstraint::Array(rsa, ea), SubtypeConstraint::Array(rsb, eb)) => {
            rsa.len() == rsb.len()
                && rsa
                    .iter()
                    .zip(rsb.iter())
                    .all(|(x, y)| eq_discrete(x, sa, y, sb))
                && match (ea, eb) {
                    (None, None) => true,
                    (Some(x), Some(y)) => eq_constraint(x, sa, y, sb),
                    _ => false,
                }
        }
        (SubtypeConstraint::Record(ea), SubtypeConstraint::Record(eb)) => {
            ea.len() == eb.len()
                && ea.iter().zip(eb.iter()).all(|(x, y)| {
                    sa[x.ident.sym as usize] == sb[y.ident.sym as usize]
                        && eq_constraint(&x.constraint, sa, &y.constraint, sb)
                })
        }
        _ => false,
    }
}

fn eq_resolution(
    a: &ResolutionIndication,
    sa: &[String],
    b: &ResolutionIndication,
    sb: &[String],
) -> bool {
    match (a, b) {
        (ResolutionIndication::Unresolved, ResolutionIndication::Unresolved) => true,
        (ResolutionIndication::FunctionName(na), ResolutionIndication::FunctionName(nb)) => {
            eq_name(na, sa, nb, sb)
        }
        (ResolutionIndication::ArrayElement(na), ResolutionIndication::ArrayElement(nb)) => {
            eq_name(na, sa, nb, sb)
        }
        (ResolutionIndication::Record(ea), ResolutionIndication::Record(eb)) => {
            ea.len() == eb.len()
                && ea.iter().zip(eb.iter()).all(|(x, y)| {
                    sa[x.ident.sym as usize] == sb[y.ident.sym as usize]
                        && eq_resolution(&x.resolution, sa, &y.resolution, sb)
                })
        }
        _ => false,
    }
}

fn eq_indication(a: &SubtypeIndication, sa: &[String], b: &SubtypeIndication, sb: &[String]) -> bool {
    eq_resolution(&a.resolution, sa, &b.resolution, sb)
        && eq_name(&a.type_mark.name, sa, &b.type_mark.name, sb)
        && a.type_mark.subtype_attr == b.type_mark.subtype_attr
        && match (&a.constraint, &b.constraint) {
            (None, None) => true,
            (Some(x), Some(y)) => eq_constraint(x, sa, y, sb),
            _ => false,
        }
}

fn round_trip(src: &str) {
    let (ind, syms) = parse_ok(src);
    let printed = print_indication(&ind, &syms);
    let (ind2, syms2) = parse_ok(&printed);
    assert!(
        eq_indication(&ind, &syms, &ind2, &syms2),
        "round trip changed the structure: {src} printed as {printed}"
    );
}

#[test]
fn reparsing_printed_indications_is_structurally_equal() {
    round_trip("std_logic");
    round_trip("resolve std_logic");
    round_trip("lib.foo.resolve std_logic");
    round_trip("(resolve) integer_vector");
    round_trip("(elem resolve) rec_t");
    round_trip("(elem1 (resolve1), elem2 resolve2, elem3 (sub_elem sub_resolve)) rec_t");
    round_trip("integer range 0 to 2-1");
    round_trip("integer range lib.foo.bar'range");
    round_trip("integer_vector(open)");
    round_trip("integer_vector(2-1 downto 0, 11 to 14)(foo to bar)");
    round_trip("axi_m2s_t(tdata(2-1 downto 0), tuser(3 to 5))");
    round_trip("obj.field'subtype");
}

fn contains(outer: Span, inner: Span) -> bool {
    outer.start <= inner.start && inner.end <= outer.end
}

#[test]
fn nested_constraint_spans_are_contained_in_their_parents() {
    let code = "integer_vector(2-1 downto 0, 11 to 14)(foo to bar)";
    let (ind, _) = parse_ok(code);
    let outer = ind.constraint.expect("expected a constraint");
    match &outer.item {
        SubtypeConstraint::Array(_, elem) => {
            let elem = elem.as_ref().expect("expected an element constraint");
            assert!(contains(outer.pos, elem.pos));
        }
        _ => panic!("expected an array constraint"),
    }

    let code = "axi_m2s_t(tdata(2-1 downto 0), tuser(3 to 5))";
    let (ind, _) = parse_ok(code);
    let rec = ind.constraint.expect("expected a constraint");
    match &rec.item {
        SubtypeConstraint::Record(elems) => {
            for e in elems {
                assert!(contains(rec.pos, e.constraint.pos));
            }
        }
        _ => panic!("expected a record constraint"),
    }
}

#[test]
fn parser_stops_before_tokens_it_does_not_own() {
    let (toks, syms) = lex_with_symbols("std_logic)");
    let mut stream = TokenStream::new(toks);
    let ind = parse_subtype_indication(&mut stream).expect("parse failed");
    check_type_mark(&ind.type_mark, &syms, &["std_logic"], false);
    assert!(ind.constraint.is_none());
    assert_eq!(stream.idx, 1);
}

#[test]
fn duplicate_record_element_identifiers_are_kept_in_order() {
    let code = "(x f, x g) rec_t";
    let (ind, syms) = parse_ok(code);
    match &ind.resolution {
        ResolutionIndication::Record(elems) => {
            assert_eq!(elems.len(), 2);
            assert_eq!(syms[elems[0].ident.sym as usize], "x");
            assert_eq!(syms[elems[1].ident.sym as usize], "x");
            match elems[0].resolution.as_ref() {
                ResolutionIndication::FunctionName(n) => check_name(n, &syms, &["f"]),
                _ => panic!("expected a function name"),
            }
            match elems[1].resolution.as_ref() {
                ResolutionIndication::FunctionName(n) => check_name(n, &syms, &["g"]),
                _ => panic!("expected a function name"),
            }
        }
        _ => panic!("expected a record-element resolution"),
    }
}
