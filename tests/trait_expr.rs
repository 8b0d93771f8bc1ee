use static_assertions::trait_expr::{does_impl, impls_exactly_one, parse_trait_expr, Token, TraitExpr};

fn t(name: &str) -> Token {
    Token::Trait(name.to_string())
}

fn names(list: &[&str]) -> Vec<String> {
    list.iter().map(|s| s.to_string()).collect()
}

fn leaf(name: &str) -> Box<TraitExpr> {
    Box::new(TraitExpr::Trait(name.to_string()))
}

#[test]
fn single_trait_is_membership() {
    let u32_traits = names(&["Copy", "Clone", "Send", "Sync"]);
    assert_eq!(does_impl(&vec![t("Copy")], &u32_traits), Some(true));
    let ptr_traits = names(&["Copy", "Clone"]);
    assert_eq!(does_impl(&vec![t("Send")], &ptr_traits), Some(false));
}

#[test]
fn negation_and_conjunction() {
    let cell = names(&["Send"]);
    let expr = vec![t("Send"), Token::And, Token::Not, t("Sync")];
    assert_eq!(does_impl(&expr, &cell), Some(true));
    let negated = vec![Token::Not, Token::Open, t("Send"), Token::And, Token::Not, t("Sync"), Token::Close];
    assert_eq!(does_impl(&negated, &cell), Some(false));
    let both = vec![Token::Open, t("Send"), Token::Close, Token::And, t("Sync")];
    assert_eq!(does_impl(&both, &cell), Some(false));
    let either = vec![Token::Open, t("Send"), Token::Close, Token::Or, t("Sync")];
    assert_eq!(does_impl(&either, &cell), Some(true));
}

#[test]
fn exclusive_or() {
    let foo = names(&["Foo"]);
    assert_eq!(does_impl(&vec![t("Foo"), Token::Xor, t("Bar")], &foo), Some(true));
    assert_eq!(does_impl(&vec![t("Foo"), Token::Xor, t("Foo")], &foo), Some(false));
    assert_eq!(does_impl(&vec![t("Bar"), Token::Xor, t("Bar")], &foo), Some(false));
}

#[test]
fn operators_group_to_the_right() {
    let expr = vec![t("x"), Token::And, t("y"), Token::Or, t("z")];
    let expected = TraitExpr::And(leaf("x"), Box::new(TraitExpr::Or(leaf("y"), leaf("z"))));
    assert_eq!(parse_trait_expr(&expr), Some(expected));

    let flat = vec![t("A"), Token::Or, t("B"), Token::And, t("C")];
    let grouped = vec![t("A"), Token::Or, Token::Open, t("B"), Token::And, t("C"), Token::Close];
    assert_eq!(parse_trait_expr(&flat), parse_trait_expr(&grouped));
    for implemented in [names(&[]), names(&["A"]), names(&["B"]), names(&["B", "C"]), names(&["A", "C"])] {
        assert_eq!(does_impl(&flat, &implemented), does_impl(&grouped, &implemented));
    }

    // Read right to left: Copy & (Copy ^ (Copy | Copy)) is false.
    let copy = names(&["Copy"]);
    let expr = vec![t("Copy"), Token::And, t("Copy"), Token::Xor, t("Copy"), Token::Or, t("Copy")];
    assert_eq!(does_impl(&expr, &copy), Some(false));
    let expr = vec![t("Copy"), Token::Or, t("Copy"), Token::Xor, t("Copy"), Token::And, t("Copy")];
    assert_eq!(does_impl(&expr, &copy), Some(true));
}

#[test]
fn double_negation_cancels() {
    let copy = names(&["Copy"]);
    assert_eq!(does_impl(&vec![Token::Not, Token::Not, t("Copy")], &copy), Some(true));
    assert_eq!(does_impl(&vec![Token::Not, Token::Not, Token::Not, t("Copy")], &copy), Some(false));
}

#[test]
fn malformed_expressions() {
    let copy = names(&["Copy"]);
    assert_eq!(does_impl(&vec![], &copy), None);
    assert_eq!(does_impl(&vec![t("Copy"), Token::And], &copy), None);
    assert_eq!(does_impl(&vec![Token::Open, t("Copy")], &copy), None);
    assert_eq!(does_impl(&vec![t("Copy"), Token::Close], &copy), None);
    assert_eq!(does_impl(&vec![t("Copy"), t("Copy")], &copy), None);
    assert_eq!(does_impl(&vec![Token::And, t("Copy")], &copy), None);
}

#[test]
fn generic_trait_paths() {
    let str_ref = names(&["Into<String>", "Copy"]);
    let expr = vec![Token::Open, t("Into<String>"), Token::Close, Token::And, Token::Not, t("Into<u8>")];
    assert_eq!(does_impl(&expr, &str_ref), Some(true));
}

#[test]
fn exactly_one_of_several() {
    let traits = names(&["Snap", "Crackle", "Pop"]);
    assert!(impls_exactly_one(&traits, &names(&["Crackle"])));
    assert!(!impls_exactly_one(&traits, &names(&["Crackle", "Pop"])));
    assert!(!impls_exactly_one(&traits, &names(&[])));
    assert!(!impls_exactly_one(&names(&["Crackle", "Crackle"]), &names(&["Crackle"])));
}
