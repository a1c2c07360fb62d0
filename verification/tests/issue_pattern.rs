use viola::config::issue_pattern::{
    is_ident_byte, parse_issue_pattern, Category, Impact, IssuePattern, IssuePatternError,
};

fn ok(s: &[u8]) -> IssuePattern<'_> {
    match parse_issue_pattern(s) {
        Ok(p) => p,
        Err(e) => panic!("expected ok, got {e:?}"),
    }
}

fn err(s: &[u8]) -> IssuePatternError {
    match parse_issue_pattern(s) {
        Ok(p) => panic!("expected err, got {p:?}"),
        Err(e) => e,
    }
}

#[test]
fn star() {
    let p = ok(b"*");
    assert!(matches!(p.linter, None));
    assert!(matches!(p.issue, None));
}

#[test]
fn linter_star() {
    let p = ok(b"duplicate-logic/*");
    assert!(matches!(p.linter, Some(b"duplicate-logic")));
    assert!(matches!(p.issue, None));
}

#[test]
fn linter_issue() {
    let p = ok(b"duplicate-logic/lambda-too-similar");
    assert!(matches!(p.linter, Some(b"duplicate-logic")));
    assert!(matches!(p.issue, Some(b"lambda-too-similar")));
}

#[test]
fn star_category() {
    let p = ok(b"*::correctness");
    assert!(matches!(p.category, Some(Category::Correctness)));
}

#[test]
fn star_impact() {
    let p = ok(b"*>=major");
    assert!(matches!(p.impact_at_least, Some(Impact::Major)));
}

#[test]
fn category_and_impact() {
    let p = ok(b"style-guide/*::style>=minor");
    assert!(matches!(p.linter, Some(b"style-guide")));
    assert!(matches!(p.issue, None));
    assert!(matches!(p.category, Some(Category::Style)));
    assert!(matches!(p.impact_at_least, Some(Impact::Minor)));
}

#[test]
fn empty_pattern_fails() {
    assert_eq!(err(b""), IssuePatternError::Empty);
}

#[test]
fn missing_slash_fails() {
    assert_eq!(err(b"duplicate-logic"), IssuePatternError::InvalidLinter);
}

#[test]
fn unknown_category_fails() {
    assert_eq!(err(b"*::bogus"), IssuePatternError::UnknownCategory);
}

#[test]
fn unknown_impact_fails() {
    assert_eq!(err(b"*>=enormous"), IssuePatternError::UnknownImpact);
}

#[test]
fn impact_before_category_fails() {
    assert_eq!(err(b"*>=major::style"), IssuePatternError::TrailingJunk);
}

#[test]
fn trailing_junk_fails() {
    assert_eq!(err(b"*::correctness extra"), IssuePatternError::TrailingJunk);
}

#[test]
fn single_trailing_colon_is_trailing_junk() {
    assert_eq!(err(b"*:"), IssuePatternError::TrailingJunk);
}

#[test]
fn missing_issue_fails() {
    assert_eq!(err(b"lint/"), IssuePatternError::InvalidIssue);
    assert_eq!(err(b"lint/!"), IssuePatternError::InvalidIssue);
}

#[test]
fn empty_selector_value_is_malformed() {
    assert_eq!(err(b"*::"), IssuePatternError::MalformedSelector);
    assert_eq!(err(b"*>="), IssuePatternError::MalformedSelector);
    assert_eq!(err(b"*::style>="), IssuePatternError::MalformedSelector);
}

#[test]
fn invalid_linter_start_fails() {
    assert_eq!(err(b"/issue"), IssuePatternError::InvalidLinter);
    assert_eq!(err(b"a b/c"), IssuePatternError::InvalidLinter);
}

#[test]
fn every_category_and_impact_parses() {
    let cats = [
        (&b"*::correctness"[..], Category::Correctness),
        (b"*::maintainability", Category::Maintainability),
        (b"*::consistency", Category::Consistency),
        (b"*::performance", Category::Performance),
        (b"*::style", Category::Style),
    ];
    for (s, c) in cats {
        assert_eq!(ok(s).category, Some(c));
    }
    let imps = [
        (&b"*>=critical"[..], Impact::Critical),
        (b"*>=major", Impact::Major),
        (b"*>=minor", Impact::Minor),
        (b"*>=trivial", Impact::Trivial),
    ];
    for (s, i) in imps {
        assert_eq!(ok(s).impact_at_least, Some(i));
    }
}

#[test]
fn linter_issue_with_both_selectors() {
    let p = ok(b"a_1/b-2::performance>=critical");
    assert_eq!(p.linter, Some(&b"a_1"[..]));
    assert_eq!(p.issue, Some(&b"b-2"[..]));
    assert_eq!(p.category, Some(Category::Performance));
    assert_eq!(p.impact_at_least, Some(Impact::Critical));
}

#[test]
fn ident_bytes() {
    for b in [b'a', b'Z', b'0', b'9', b'_', b'-'] {
        assert!(is_ident_byte(b));
    }
    for b in [b'/', b'*', b':', b' ', b'>', b'=', 0x80u8] {
        assert!(!is_ident_byte(b));
    }
}

#[test]
fn linter_must_start_with_a_letter() {
    assert_eq!(err(b"9lint/*"), IssuePatternError::InvalidLinter);
    assert_eq!(err(b"_lint/x"), IssuePatternError::InvalidLinter);
    assert_eq!(err(b"-lint/x"), IssuePatternError::InvalidLinter);
}

#[test]
fn issue_must_start_with_a_letter() {
    assert_eq!(err(b"lint/-x"), IssuePatternError::InvalidIssue);
    assert_eq!(err(b"lint/9x"), IssuePatternError::InvalidIssue);
    let p = ok(b"l9_-/i9_-");
    assert!(matches!(p.linter, Some(b"l9_-")));
    assert!(matches!(p.issue, Some(b"i9_-")));
}
