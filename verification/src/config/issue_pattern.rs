//! Issue pattern grammar.
//!
//! ```text
//! pattern   ::= head selector?
//! head      ::= "*" | linter "/*" | linter "/" issue
//! selector  ::= "::" category
//!             | ">=" impact
//!             | "::" category ">=" impact
//! linter    ::= ident
//! issue     ::= ident
//! category  ::= "correctness" | "maintainability" | "consistency"
//!             | "performance" | "style"
//! impact    ::= "critical" | "major" | "minor" | "trivial"
//! ident     ::= ascii_alpha { ascii_alphanum | "_" | "-" }
//! ```

use vstd::prelude::*;
use vstd::string::StringSliceAdditionalSpecFns;

verus! {

#[derive(Copy, Clone, Debug, PartialEq, Eq)]
pub enum IssuePatternError {
    /// Empty pattern.
    Empty,
    /// Linter component contains an invalid character or is empty
    /// after splitting on `/`.
    InvalidLinter,
    /// Issue component (after `linter/`) is missing or invalid.
    InvalidIssue,
    /// Category selector token does not match a known category.
    UnknownCategory,
    /// Impact selector token does not match a known impact.
    UnknownImpact,
    /// Selector missing its value after `::` or `>=`.
    MalformedSelector,
    /// Trailing junk after the final selector.
    TrailingJunk,
}

#[derive(Copy, Clone, Debug, PartialEq, Eq)]
pub enum Category {
    Correctness,
    Maintainability,
    Consistency,
    Performance,
    Style,
}

#[derive(Copy, Clone, Debug, PartialEq, Eq)]
pub enum Impact {
    Critical,
    Major,
    Minor,
    Trivial,
}

/// Resolved issue pattern. `linter == None && issue == None` is the
/// wildcard `*`; `linter == Some(..) && issue == None` is `linter/*`;
/// both `Some` is `linter/issue`. The slices borrow from the input.
#[derive(Copy, Clone, Debug, PartialEq, Eq)]
pub struct IssuePattern<'a> {
    pub linter: Option<&'a [u8]>,
    pub issue: Option<&'a [u8]>,
    pub category: Option<Category>,
    pub impact_at_least: Option<Impact>,
}

/// An issue pattern with its text as byte sequences.
pub struct PatternView {
    pub linter: Option<Seq<u8>>,
    pub issue: Option<Seq<u8>>,
    pub category: Option<Category>,
    pub impact_at_least: Option<Impact>,
}

pub open spec fn opt_bytes(o: Option<&[u8]>) -> Option<Seq<u8>> {
    match o {
        Some(s) => Some(s@),
        None => None,
    }
}

impl<'a> IssuePattern<'a> {
    pub open spec fn view(&self) -> PatternView {
        PatternView {
            linter: opt_bytes(self.linter),
            issue: opt_bytes(self.issue),
            category: self.category,
            impact_at_least: self.impact_at_least,
        }
    }
}

pub const STAR: u8 = 0x2a;
pub const SLASH: u8 = 0x2f;
pub const COLON: u8 = 0x3a;
pub const GREATER: u8 = 0x3e;
pub const EQUALS: u8 = 0x3d;

pub open spec fn spec_is_ident_byte(b: u8) -> bool {
    (0x30 <= b <= 0x39) || (0x41 <= b <= 0x5a) || (0x61 <= b <= 0x7a) || b == 0x5f || b == 0x2d
}

/// An ASCII letter or digit, `_` or `-`.
pub fn is_ident_byte(b: u8) -> (r: bool)
    ensures
        r == spec_is_ident_byte(b),
{
    (0x30 <= b && b <= 0x39) || (0x41 <= b && b <= 0x5a) || (0x61 <= b && b <= 0x7a) || b == 0x5f
        || b == 0x2d
}

pub open spec fn spec_is_ascii_alpha(b: u8) -> bool {
    (0x41 <= b <= 0x5a) || (0x61 <= b <= 0x7a)
}

/// Whether an identifier starts at `i`: an ASCII letter.
pub open spec fn starts_ident(s: Seq<u8>, i: int) -> bool {
    0 <= i < s.len() && spec_is_ascii_alpha(s[i])
}

fn is_ascii_alpha(b: u8) -> (r: bool)
    ensures
        r == spec_is_ascii_alpha(b),
{
    (0x41 <= b && b <= 0x5a) || (0x61 <= b && b <= 0x7a)
}

/// End of the identifier run of `s` that starts at `i`.
pub open spec fn ident_end(s: Seq<u8>, i: int) -> int
    decreases s.len() - i,
{
    if i < 0 || i >= s.len() || !spec_is_ident_byte(s[i]) {
        i
    } else {
        ident_end(s, i + 1)
    }
}

pub proof fn lemma_ident_end(s: Seq<u8>, i: int)
    requires
        0 <= i <= s.len(),
    ensures
        i <= ident_end(s, i) <= s.len(),
        ident_end(s, i) < s.len() ==> !spec_is_ident_byte(s[ident_end(s, i)]),
        forall|k: int| i <= k < ident_end(s, i) ==> spec_is_ident_byte(#[trigger] s[k]),
    decreases s.len() - i,
{
    if i < s.len() && spec_is_ident_byte(s[i]) {
        lemma_ident_end(s, i + 1);
    }
}

fn scan_ident(input: &[u8], start: usize) -> (r: usize)
    requires
        start <= input@.len(),
    ensures
        r == ident_end(input@, start as int),
        start <= r <= input@.len(),
{
    proof {
        lemma_ident_end(input@, start as int);
    }
    let mut p = start;
    while p < input.len() && is_ident_byte(input[p])
        invariant
            start <= p <= input@.len(),
            ident_end(input@, p as int) == ident_end(input@, start as int),
        decreases input.len() - p,
    {
        p = p + 1;
    }
    p
}

/// The head of a pattern: linter and issue as spans of `s`, and where the
/// head ends.
pub open spec fn spec_head(s: Seq<u8>) -> Result<
    (Option<(int, int)>, Option<(int, int)>, int),
    IssuePatternError,
> {
    if s.len() > 0 && s[0] == STAR {
        Ok((None, None, 1))
    } else {
        let e = ident_end(s, 0);
        if !starts_ident(s, 0) || e >= s.len() || s[e] != SLASH {
            Err(IssuePatternError::InvalidLinter)
        } else if e + 1 < s.len() && s[e + 1] == STAR {
            Ok((Some((0, e)), None, e + 2))
        } else {
            let e2 = ident_end(s, e + 1);
            if !starts_ident(s, e + 1) {
                Err(IssuePatternError::InvalidIssue)
            } else {
                Ok((Some((0, e)), Some((e + 1, e2)), e2))
            }
        }
    }
}

pub open spec fn spec_category(t: Seq<u8>) -> Option<Category> {
    if t == "correctness".spec_bytes() {
        Some(Category::Correctness)
    } else if t == "maintainability".spec_bytes() {
        Some(Category::Maintainability)
    } else if t == "consistency".spec_bytes() {
        Some(Category::Consistency)
    } else if t == "performance".spec_bytes() {
        Some(Category::Performance)
    } else if t == "style".spec_bytes() {
        Some(Category::Style)
    } else {
        None
    }
}

pub open spec fn spec_impact(t: Seq<u8>) -> Option<Impact> {
    if t == "critical".spec_bytes() {
        Some(Impact::Critical)
    } else if t == "major".spec_bytes() {
        Some(Impact::Major)
    } else if t == "minor".spec_bytes() {
        Some(Impact::Minor)
    } else if t == "trivial".spec_bytes() {
        Some(Impact::Trivial)
    } else {
        None
    }
}

/// Whether the two bytes at `p` are `a` then `b`.
pub open spec fn pair_at(s: Seq<u8>, p: int, a: u8, b: u8) -> bool {
    0 <= p && p + 1 < s.len() && s[p] == a && s[p + 1] == b
}

/// The optional `>=impact` selector at `p`, and where it ends.
pub open spec fn spec_impact_sel(s: Seq<u8>, p: int) -> Result<(Option<Impact>, int), IssuePatternError> {
    if pair_at(s, p, GREATER, EQUALS) {
        let e = ident_end(s, p + 2);
        if e == p + 2 {
            Err(IssuePatternError::MalformedSelector)
        } else {
            match spec_impact(s.subrange(p + 2, e)) {
                Some(i) => Ok((Some(i), e)),
                None => Err(IssuePatternError::UnknownImpact),
            }
        }
    } else {
        Ok((None, p))
    }
}

/// The optional `::category` selector at `p`, and where it ends.
pub open spec fn spec_category_sel(s: Seq<u8>, p: int) -> Result<(Option<Category>, int), IssuePatternError> {
    if pair_at(s, p, COLON, COLON) {
        let e = ident_end(s, p + 2);
        if e == p + 2 {
            Err(IssuePatternError::MalformedSelector)
        } else {
            match spec_category(s.subrange(p + 2, e)) {
                Some(c) => Ok((Some(c), e)),
                None => Err(IssuePatternError::UnknownCategory),
            }
        }
    } else {
        Ok((None, p))
    }
}

pub open spec fn span_bytes(s: Seq<u8>, sp: Option<(int, int)>) -> Option<Seq<u8>> {
    match sp {
        Some((a, b)) => Some(s.subrange(a, b)),
        None => None,
    }
}

/// What `s` means as an issue pattern.
pub open spec fn spec_parse_issue_pattern(s: Seq<u8>) -> Result<PatternView, IssuePatternError> {
    if s.len() == 0 {
        Err(IssuePatternError::Empty)
    } else {
        match spec_head(s) {
            Err(e) => Err(e),
            Ok((l, i, p)) => match spec_category_sel(s, p) {
                Err(e) => Err(e),
                Ok((c, p2)) => match spec_impact_sel(s, p2) {
                    Err(e) => Err(e),
                    Ok((m, p3)) => if p3 < s.len() {
                        Err(IssuePatternError::TrailingJunk)
                    } else {
                        Ok(
                            PatternView {
                                linter: span_bytes(s, l),
                                issue: span_bytes(s, i),
                                category: c,
                                impact_at_least: m,
                            },
                        )
                    },
                },
            },
        }
    }
}

fn same_bytes(a: &[u8], b: &[u8]) -> (r: bool)
    ensures
        r == (a@ == b@),
{
    if a.len() != b.len() {
        return false;
    }
    let mut k: usize = 0;
    while k < a.len()
        invariant
            a@.len() == b@.len(),
            k <= a@.len(),
            forall|m: int| 0 <= m < k ==> a@[m] == b@[m],
        decreases a.len() - k,
    {
        if a[k] != b[k] {
            return false;
        }
        k = k + 1;
    }
    assert(a@ =~= b@);
    true
}

fn parse_head<'a>(input: &'a [u8]) -> (r: Result<
    (Option<&'a [u8]>, Option<&'a [u8]>, usize),
    IssuePatternError,
>)
    ensures
        match (r, spec_head(input@)) {
            (Ok((l, i, p)), Ok((sl, si, sp))) => opt_bytes(l) == span_bytes(input@, sl)
                && opt_bytes(i) == span_bytes(input@, si) && p == sp,
            (Err(e), Err(se)) => e == se,
            _ => false,
        },
{
    if input.len() > 0 && input[0] == STAR {
        return Ok((None, None, 1));
    }
    let e = scan_ident(input, 0);
    proof {
        lemma_ident_end(input@, 0);
    }
    if input.len() == 0 || !is_ascii_alpha(input[0]) || e >= input.len() || input[e] != SLASH {
        return Err(IssuePatternError::InvalidLinter);
    }
    let linter = vstd::slice::slice_subrange(input, 0, e);
    if e + 1 < input.len() && input[e + 1] == STAR {
        return Ok((Some(linter), None, e + 2));
    }
    if e + 1 >= input.len() || !is_ascii_alpha(input[e + 1]) {
        return Err(IssuePatternError::InvalidIssue);
    }
    let e2 = scan_ident(input, e + 1);
    proof {
        lemma_ident_end(input@, e + 1);
    }
    let issue = vstd::slice::slice_subrange(input, e + 1, e2);
    Ok((Some(linter), Some(issue), e2))
}

fn parse_category(token: &[u8]) -> (r: Result<Category, IssuePatternError>)
    ensures
        match spec_category(token@) {
            Some(c) => r == Ok::<Category, IssuePatternError>(c),
            None => r == Err::<Category, IssuePatternError>(IssuePatternError::UnknownCategory),
        },
{
    if same_bytes(token, "correctness".as_bytes()) {
        Ok(Category::Correctness)
    } else if same_bytes(token, "maintainability".as_bytes()) {
        Ok(Category::Maintainability)
    } else if same_bytes(token, "consistency".as_bytes()) {
        Ok(Category::Consistency)
    } else if same_bytes(token, "performance".as_bytes()) {
        Ok(Category::Performance)
    } else if same_bytes(token, "style".as_bytes()) {
        Ok(Category::Style)
    } else {
        Err(IssuePatternError::UnknownCategory)
    }
}

fn parse_impact(token: &[u8]) -> (r: Result<Impact, IssuePatternError>)
    ensures
        match spec_impact(token@) {
            Some(i) => r == Ok::<Impact, IssuePatternError>(i),
            None => r == Err::<Impact, IssuePatternError>(IssuePatternError::UnknownImpact),
        },
{
    if same_bytes(token, "critical".as_bytes()) {
        Ok(Impact::Critical)
    } else if same_bytes(token, "major".as_bytes()) {
        Ok(Impact::Major)
    } else if same_bytes(token, "minor".as_bytes()) {
        Ok(Impact::Minor)
    } else if same_bytes(token, "trivial".as_bytes()) {
        Ok(Impact::Trivial)
    } else {
        Err(IssuePatternError::UnknownImpact)
    }
}

/// Parses an issue pattern; the linter and issue of the result borrow
/// from `input`.
pub fn parse_issue_pattern<'a>(input: &'a [u8]) -> (r: Result<IssuePattern<'a>, IssuePatternError>)
    ensures
        match (r, spec_parse_issue_pattern(input@)) {
            (Ok(p), Ok(v)) => p.view() == v,
            (Err(e), Err(se)) => e == se,
            _ => false,
        },
{
    if input.len() == 0 {
        return Err(IssuePatternError::Empty);
    }
    let (linter, issue, p) = match parse_head(input) {
        Ok(t) => t,
        Err(e) => return Err(e),
    };
    let ghost sh = spec_head(input@);
    assert(sh is Ok);
    assert(p == sh->Ok_0.2);
    assert(p <= input@.len()) by {
        lemma_ident_end(input@, 0);
        if sh->Ok_0.1 is Some {
            let e = ident_end(input@, 0);
            lemma_ident_end(input@, e + 1);
        }
    }
    let mut p = p;
    let mut category: Option<Category> = None;
    if input.len() - p >= 2 && input[p] == COLON && input[p + 1] == COLON {
        let e = scan_ident(input, p + 2);
        if e == p + 2 {
            return Err(IssuePatternError::MalformedSelector);
        }
        let token = vstd::slice::slice_subrange(input, p + 2, e);
        category = match parse_category(token) {
            Ok(c) => Some(c),
            Err(err) => return Err(err),
        };
        proof {
            lemma_ident_end(input@, p + 2);
        }
        p = e;
    }
    assert(spec_category_sel(input@, sh->Ok_0.2) == Ok::<
        (Option<Category>, int),
        IssuePatternError,
    >((category, p as int)));
    let mut impact_at_least: Option<Impact> = None;
    if input.len() - p >= 2 && input[p] == GREATER && input[p + 1] == EQUALS {
        let e = scan_ident(input, p + 2);
        if e == p + 2 {
            return Err(IssuePatternError::MalformedSelector);
        }
        let token = vstd::slice::slice_subrange(input, p + 2, e);
        impact_at_least = match parse_impact(token) {
            Ok(i) => Some(i),
            Err(err) => return Err(err),
        };
        proof {
            lemma_ident_end(input@, p + 2);
        }
        p = e;
    }
    if p < input.len() {
        return Err(IssuePatternError::TrailingJunk);
    }
    Ok(IssuePattern { linter, issue, category, impact_at_least })
}

// ---------------------------------------------------------------------
// Laws: every well-formed pattern written out parses back to itself
// ---------------------------------------------------------------------

/// The keyword of a category.
pub open spec fn category_word(c: Category) -> Seq<u8> {
    match c {
        Category::Correctness => seq![0x63u8, 0x6f, 0x72, 0x72, 0x65, 0x63, 0x74, 0x6e, 0x65, 0x73, 0x73],
        Category::Maintainability => seq![
            0x6du8, 0x61, 0x69, 0x6e, 0x74, 0x61, 0x69, 0x6e, 0x61, 0x62, 0x69, 0x6c, 0x69, 0x74, 0x79,
        ],
        Category::Consistency => seq![0x63u8, 0x6f, 0x6e, 0x73, 0x69, 0x73, 0x74, 0x65, 0x6e, 0x63, 0x79],
        Category::Performance => seq![0x70u8, 0x65, 0x72, 0x66, 0x6f, 0x72, 0x6d, 0x61, 0x6e, 0x63, 0x65],
        Category::Style => seq![0x73u8, 0x74, 0x79, 0x6c, 0x65],
    }
}

/// The keyword of an impact.
pub open spec fn impact_word(m: Impact) -> Seq<u8> {
    match m {
        Impact::Critical => seq![0x63u8, 0x72, 0x69, 0x74, 0x69, 0x63, 0x61, 0x6c],
        Impact::Major => seq![0x6du8, 0x61, 0x6a, 0x6f, 0x72],
        Impact::Minor => seq![0x6du8, 0x69, 0x6e, 0x6f, 0x72],
        Impact::Trivial => seq![0x74u8, 0x72, 0x69, 0x76, 0x69, 0x61, 0x6c],
    }
}

/// An identifier: an ASCII letter, then letters, digits, `_` or `-`.
pub open spec fn valid_ident(x: Seq<u8>) -> bool {
    &&& x.len() > 0
    &&& spec_is_ascii_alpha(x[0])
    &&& forall|k: int| 0 <= k < x.len() ==> spec_is_ident_byte(#[trigger] x[k])
}

/// A pattern view that some pattern text denotes: identifiers where
/// present, and an issue only under a linter.
pub open spec fn well_formed_view(v: PatternView) -> bool {
    &&& (v.linter is None ==> v.issue is None)
    &&& (v.linter matches Some(l) ==> valid_ident(l))
    &&& (v.issue matches Some(i) ==> valid_ident(i))
}

/// The text of a pattern's head: `*`, `linter/*` or `linter/issue`.
pub open spec fn head_text(v: PatternView) -> Seq<u8> {
    match v.linter {
        None => seq![STAR],
        Some(l) => match v.issue {
            None => l + seq![SLASH, STAR],
            Some(i) => l + seq![SLASH] + i,
        },
    }
}

/// The text of an optional `::category` selector.
pub open spec fn category_text(c: Option<Category>) -> Seq<u8> {
    match c {
        Some(c) => seq![COLON, COLON] + category_word(c),
        None => Seq::<u8>::empty(),
    }
}

/// The text of an optional `>=impact` selector.
pub open spec fn impact_text(m: Option<Impact>) -> Seq<u8> {
    match m {
        Some(m) => seq![GREATER, EQUALS] + impact_word(m),
        None => Seq::<u8>::empty(),
    }
}

/// The text of a pattern: its head, then `::category` when there is one,
/// then `>=impact` when there is one.
pub open spec fn pattern_bytes(v: PatternView) -> Seq<u8> {
    head_text(v) + category_text(v.category) + impact_text(v.impact_at_least)
}

proof fn lemma_ident_run(s: Seq<u8>, a: int, b: int)
    requires
        0 <= a <= b <= s.len(),
        forall|k: int| a <= k < b ==> spec_is_ident_byte(#[trigger] s[k]),
        b == s.len() || !spec_is_ident_byte(s[b]),
    ensures
        ident_end(s, a) == b,
    decreases b - a,
{
    if a < b {
        lemma_ident_run(s, a + 1, b);
    }
}

proof fn lemma_literal_words()
    ensures
        "correctness".spec_bytes() == category_word(Category::Correctness),
        "maintainability".spec_bytes() == category_word(Category::Maintainability),
        "consistency".spec_bytes() == category_word(Category::Consistency),
        "performance".spec_bytes() == category_word(Category::Performance),
        "style".spec_bytes() == category_word(Category::Style),
        "critical".spec_bytes() == impact_word(Impact::Critical),
        "major".spec_bytes() == impact_word(Impact::Major),
        "minor".spec_bytes() == impact_word(Impact::Minor),
        "trivial".spec_bytes() == impact_word(Impact::Trivial),
{
    reveal_strlit("correctness");
    reveal_strlit("maintainability");
    reveal_strlit("consistency");
    reveal_strlit("performance");
    reveal_strlit("style");
    reveal_strlit("critical");
    reveal_strlit("major");
    reveal_strlit("minor");
    reveal_strlit("trivial");
    broadcast use vstd::string::group_string_axioms;
    assert(vstd::string::is_ascii("correctness"));
    assert(vstd::string::is_ascii("maintainability"));
    assert(vstd::string::is_ascii("consistency"));
    assert(vstd::string::is_ascii("performance"));
    assert(vstd::string::is_ascii("style"));
    assert(vstd::string::is_ascii("critical"));
    assert(vstd::string::is_ascii("major"));
    assert(vstd::string::is_ascii("minor"));
    assert(vstd::string::is_ascii("trivial"));
    assert("correctness".spec_bytes() =~= category_word(Category::Correctness));
    assert("maintainability".spec_bytes() =~= category_word(Category::Maintainability));
    assert("consistency".spec_bytes() =~= category_word(Category::Consistency));
    assert("performance".spec_bytes() =~= category_word(Category::Performance));
    assert("style".spec_bytes() =~= category_word(Category::Style));
    assert("critical".spec_bytes() =~= impact_word(Impact::Critical));
    assert("major".spec_bytes() =~= impact_word(Impact::Major));
    assert("minor".spec_bytes() =~= impact_word(Impact::Minor));
    assert("trivial".spec_bytes() =~= impact_word(Impact::Trivial));
}

proof fn lemma_category_word(c: Category)
    ensures
        spec_category(category_word(c)) == Some(c),
        category_word(c).len() > 0,
        forall|k: int| 0 <= k < category_word(c).len() ==> spec_is_ident_byte(#[trigger] category_word(c)[k]),
{
    lemma_literal_words();
    let w = category_word(c);
    let w_cor = category_word(Category::Correctness);
    let w_con = category_word(Category::Consistency);
    match c {
        Category::Correctness => {},
        Category::Maintainability => {
            assert(w.len() != w_cor.len());
        },
        Category::Consistency => {
            assert(w[2] != w_cor[2]);
        },
        Category::Performance => {
            assert(w[0] != w_cor[0]);
            assert(w[0] != w_con[0]);
        },
        Category::Style => {
            assert(w.len() != w_cor.len());
            assert(w.len() != w_con.len());
        },
    }
}

proof fn lemma_impact_word(m: Impact)
    ensures
        spec_impact(impact_word(m)) == Some(m),
        impact_word(m).len() > 0,
        forall|k: int| 0 <= k < impact_word(m).len() ==> spec_is_ident_byte(#[trigger] impact_word(m)[k]),
{
    lemma_literal_words();
    let w = impact_word(m);
    match m {
        Impact::Critical => {},
        Impact::Major => {
            assert(w.len() != impact_word(Impact::Critical).len());
        },
        Impact::Minor => {
            assert(w.len() != impact_word(Impact::Critical).len());
            assert(w[1] != impact_word(Impact::Major)[1]);
        },
        Impact::Trivial => {
            assert(w.len() != impact_word(Impact::Critical).len());
            assert(w.len() != impact_word(Impact::Major).len());
            assert(w.len() != impact_word(Impact::Minor).len());
        },
    }
}

/// The head of a well-formed view is read back from any text that starts
/// with it and goes on with a byte outside identifiers or ends.
proof fn lemma_head_reads_back(v: PatternView, s: Seq<u8>)
    requires
        well_formed_view(v),
        head_text(v).len() <= s.len(),
        s.subrange(0, head_text(v).len() as int) == head_text(v),
        head_text(v).len() < s.len() ==> !spec_is_ident_byte(s[head_text(v).len() as int]),
    ensures
        spec_head(s) matches Ok((l, i, p)) && span_bytes(s, l) == v.linter && span_bytes(s, i)
            == v.issue && p == head_text(v).len(),
{
    let h = head_text(v);
    let hl = h.len() as int;
    assert forall|k: int| 0 <= k < hl implies s[k] == h[k] by {
        assert(s.subrange(0, hl)[k] == s[k]);
    }
    match v.linter {
        None => {
            assert(s[0] == h[0]);
        },
        Some(l) => {
            let e = l.len() as int;
            assert(s[0] == h[0]);
            assert forall|k: int| 0 <= k < e implies spec_is_ident_byte(#[trigger] s[k]) by {
                assert(s[k] == h[k]);
            }
            assert(s[e] == h[e]);
            lemma_ident_run(s, 0, e);
            assert(s.subrange(0, e) =~= l);
            match v.issue {
                None => {
                    assert(s[e + 1] == h[e + 1]);
                },
                Some(i) => {
                    let e2 = e + 1 + i.len();
                    assert(s[e + 1] == h[e + 1]);
                    assert forall|k: int| e + 1 <= k < e2 implies spec_is_ident_byte(#[trigger] s[k]) by {
                        assert(s[k] == h[k]);
                        assert(h[k] == i[k - e - 1]);
                    }
                    lemma_ident_run(s, e + 1, e2);
                    assert(s.subrange(e + 1, e2) =~= i);
                },
            }
        },
    }
}

/// A `::category` selector (or none) at `p` is read back, ending where
/// its text ends, when `>=` or one last byte outside identifiers follows.
proof fn lemma_category_reads_back(c: Option<Category>, s: Seq<u8>, p: int)
    requires
        0 <= p,
        p + category_text(c).len() <= s.len(),
        s.subrange(p, p + category_text(c).len()) == category_text(c),
        p + category_text(c).len() < s.len() ==> (s[p + category_text(c).len()] == GREATER || (p
            + category_text(c).len() + 1 == s.len() && !spec_is_ident_byte(
            s[p + category_text(c).len()],
        ))),
    ensures
        spec_category_sel(s, p) == Ok::<(Option<Category>, int), IssuePatternError>(
            (c, p + category_text(c).len()),
        ),
{
    let t = category_text(c);
    assert forall|k: int| 0 <= k < t.len() implies s[p + k] == t[k] by {
        assert(s.subrange(p, p + t.len())[k] == s[p + k]);
    }
    match c {
        Some(c) => {
            lemma_category_word(c);
            let w = category_word(c);
            let e = p + t.len();
            assert(s[p + 0] == t[0] && s[p + 1] == t[1]);
            assert forall|k: int| p + 2 <= k < e implies spec_is_ident_byte(#[trigger] s[k]) by {
                assert(s[p + (k - p)] == t[k - p]);
                assert(t[k - p] == w[k - p - 2]);
            }
            lemma_ident_run(s, p + 2, e);
            assert forall|k: int| 0 <= k < w.len() implies #[trigger] s.subrange(p + 2, e)[k] == w[k] by {
                assert(s[p + (2 + k)] == t[2 + k]);
            }
            assert(s.subrange(p + 2, e) =~= w);
        },
        None => {},
    }
}

/// A `>=impact` selector (or none) at `p` is read back, ending where its
/// text ends, when the text ends there or one last byte outside
/// identifiers follows.
proof fn lemma_impact_reads_back(m: Option<Impact>, s: Seq<u8>, p: int)
    requires
        0 <= p,
        p + impact_text(m).len() <= s.len(),
        p + impact_text(m).len() < s.len() ==> (p + impact_text(m).len() + 1 == s.len()
            && !spec_is_ident_byte(s[p + impact_text(m).len()])),
        s.subrange(p, p + impact_text(m).len()) == impact_text(m),
    ensures
        spec_impact_sel(s, p) == Ok::<(Option<Impact>, int), IssuePatternError>(
            (m, p + impact_text(m).len()),
        ),
{
    let t = impact_text(m);
    let e = p + t.len();
    assert forall|k: int| 0 <= k < t.len() implies s[p + k] == t[k] by {
        assert(s.subrange(p, e)[k] == s[p + k]);
    }
    match m {
        Some(m) => {
            lemma_impact_word(m);
            let w = impact_word(m);
            assert(s[p + 0] == t[0] && s[p + 1] == t[1]);
            assert forall|k: int| p + 2 <= k < e implies spec_is_ident_byte(#[trigger] s[k]) by {
                assert(s[p + (k - p)] == t[k - p]);
                assert(t[k - p] == w[k - p - 2]);
            }
            lemma_ident_run(s, p + 2, e);
            assert forall|k: int| 0 <= k < w.len() implies #[trigger] s.subrange(p + 2, e)[k]
                == w[k] by {
                assert(s[p + (2 + k)] == t[2 + k]);
            }
            assert(s.subrange(p + 2, e) =~= w);
        },
        None => {},
    }
}

/// Every well-formed pattern, written out as text, parses back to itself:
/// the head gives the linter and issue, and the optional `::category` and
/// `>=impact` selectors each apply whatever the head is.
pub proof fn lemma_parse_pattern_bytes(v: PatternView)
    requires
        well_formed_view(v),
    ensures
        spec_parse_issue_pattern(pattern_bytes(v)) == Ok::<PatternView, IssuePatternError>(v),
{
    let h = head_text(v);
    let c = category_text(v.category);
    let m = impact_text(v.impact_at_least);
    let s = pattern_bytes(v);
    let hl = h.len() as int;
    let cl = c.len() as int;
    assert(s.subrange(0, hl) =~= h);
    assert(s.subrange(hl, hl + cl) =~= c);
    assert(s.subrange(hl + cl, s.len() as int) =~= m);
    if hl < s.len() {
        if cl > 0 {
            assert(s[hl] == c[0]);
        } else {
            assert(s[hl] == m[0]);
        }
    }
    if hl + cl < s.len() {
        assert(s[hl + cl] == m[0]);
    }
    lemma_head_reads_back(v, s);
    lemma_category_reads_back(v.category, s, hl);
    lemma_impact_reads_back(v.impact_at_least, s, hl + cl);
    let (l, i, p) = spec_head(s)->Ok_0;
    assert(span_bytes(s, l) == v.linter);
    assert(span_bytes(s, i) == v.issue);
}


/// A well-formed pattern followed by one more byte that cannot continue an
/// identifier is refused as trailing junk, whatever the head and
/// selectors are.
pub proof fn lemma_parse_pattern_trailing(v: PatternView, t: u8)
    requires
        well_formed_view(v),
        !spec_is_ident_byte(t),
    ensures
        spec_parse_issue_pattern(pattern_bytes(v).push(t)) == Err::<PatternView, IssuePatternError>(
            IssuePatternError::TrailingJunk,
        ),
{
    let h = head_text(v);
    let c = category_text(v.category);
    let m = impact_text(v.impact_at_least);
    let b = pattern_bytes(v);
    let s = b.push(t);
    let hl = h.len() as int;
    let cl = c.len() as int;
    let ml = m.len() as int;
    assert(s.subrange(0, hl) =~= h);
    assert(s.subrange(hl, hl + cl) =~= c);
    assert(s.subrange(hl + cl, hl + cl + ml) =~= m);
    assert(s[hl + cl + ml] == t);
    if cl > 0 {
        assert(s[hl] == c[0]);
    } else if ml > 0 {
        assert(s[hl] == m[0]);
    }
    if ml > 0 {
        assert(s[hl + cl] == m[0]);
    }
    lemma_head_reads_back(v, s);
    lemma_category_reads_back(v.category, s, hl);
    lemma_impact_reads_back(v.impact_at_least, s, hl + cl);
}


/// After a well-formed head and category, `>=` followed by a word made of
/// identifier bytes that names no impact is refused as an unknown impact.
pub proof fn lemma_parse_unknown_impact(v: PatternView, w: Seq<u8>)
    requires
        well_formed_view(v),
        v.impact_at_least is None,
        w.len() > 0,
        forall|k: int| 0 <= k < w.len() ==> spec_is_ident_byte(#[trigger] w[k]),
        forall|m: Impact| impact_word(m) != w,
    ensures
        spec_parse_issue_pattern(pattern_bytes(v) + seq![GREATER, EQUALS] + w) == Err::<
            PatternView,
            IssuePatternError,
        >(IssuePatternError::UnknownImpact),
{
    let h = head_text(v);
    let c = category_text(v.category);
    let s = pattern_bytes(v) + seq![GREATER, EQUALS] + w;
    let hl = h.len() as int;
    let cl = c.len() as int;
    let p = hl + cl;
    assert(s.subrange(0, hl) =~= h);
    assert(s.subrange(hl, p) =~= c);
    assert(s[p] == GREATER && s[p + 1] == EQUALS);
    if cl > 0 {
        assert(s[hl] == c[0]);
    }
    lemma_head_reads_back(v, s);
    lemma_category_reads_back(v.category, s, hl);
    assert forall|k: int| p + 2 <= k < s.len() implies spec_is_ident_byte(#[trigger] s[k]) by {
        assert(s[k] == w[k - p - 2]);
    }
    lemma_ident_run(s, p + 2, s.len() as int);
    assert(s.subrange(p + 2, s.len() as int) =~= w);
    lemma_literal_words();
    assert(impact_word(Impact::Critical) != w);
    assert(impact_word(Impact::Major) != w);
    assert(impact_word(Impact::Minor) != w);
    assert(impact_word(Impact::Trivial) != w);
}

/// After a well-formed head, `::` followed by a word made of identifier
/// bytes that names no category is refused as an unknown category.
pub proof fn lemma_parse_unknown_category(v: PatternView, w: Seq<u8>)
    requires
        well_formed_view(v),
        v.category is None,
        v.impact_at_least is None,
        w.len() > 0,
        forall|k: int| 0 <= k < w.len() ==> spec_is_ident_byte(#[trigger] w[k]),
        forall|c: Category| category_word(c) != w,
    ensures
        spec_parse_issue_pattern(pattern_bytes(v) + seq![COLON, COLON] + w) == Err::<
            PatternView,
            IssuePatternError,
        >(IssuePatternError::UnknownCategory),
{
    let h = head_text(v);
    let s = pattern_bytes(v) + seq![COLON, COLON] + w;
    let p = h.len() as int;
    assert(s.subrange(0, p) =~= h);
    assert(s[p] == COLON && s[p + 1] == COLON);
    lemma_head_reads_back(v, s);
    assert forall|k: int| p + 2 <= k < s.len() implies spec_is_ident_byte(#[trigger] s[k]) by {
        assert(s[k] == w[k - p - 2]);
    }
    lemma_ident_run(s, p + 2, s.len() as int);
    assert(s.subrange(p + 2, s.len() as int) =~= w);
    lemma_literal_words();
    assert(category_word(Category::Correctness) != w);
    assert(category_word(Category::Maintainability) != w);
    assert(category_word(Category::Consistency) != w);
    assert(category_word(Category::Performance) != w);
    assert(category_word(Category::Style) != w);
}

/// A selector sign with no word after it (the text ends, or a byte outside
/// identifiers follows) is refused as a malformed selector: `>=` after a
/// well-formed head and category, or `::` after a well-formed head.
pub proof fn lemma_parse_selector_needs_word(v: PatternView, sign: u8, tail: Seq<u8>)
    requires
        well_formed_view(v),
        v.impact_at_least is None,
        sign == GREATER || (sign == COLON && v.category is None),
        tail.len() > 0 ==> !spec_is_ident_byte(tail[0]),
    ensures
        spec_parse_issue_pattern(
            pattern_bytes(v) + seq![sign, if sign == GREATER {
                EQUALS
            } else {
                COLON
            }] + tail,
        ) == Err::<PatternView, IssuePatternError>(IssuePatternError::MalformedSelector),
{
    let h = head_text(v);
    let c = category_text(v.category);
    let sign2 = if sign == GREATER {
        EQUALS
    } else {
        COLON
    };
    let s = pattern_bytes(v) + seq![sign, sign2] + tail;
    let hl = h.len() as int;
    let cl = c.len() as int;
    let p = hl + cl;
    assert(s.subrange(0, hl) =~= h);
    assert(s.subrange(hl, p) =~= c);
    assert(s[p] == sign && s[p + 1] == sign2);
    if tail.len() > 0 {
        assert(s[p + 2] == tail[0]);
    }
    if cl > 0 {
        assert(s[hl] == c[0]);
    }
    lemma_head_reads_back(v, s);
    if sign == GREATER {
        lemma_category_reads_back(v.category, s, hl);
    }
}


/// The empty text is refused as empty.
pub proof fn lemma_parse_empty()
    ensures
        spec_parse_issue_pattern(Seq::empty()) == Err::<PatternView, IssuePatternError>(
            IssuePatternError::Empty,
        ),
{
}

/// A text that starts with neither `*` nor an ASCII letter has no linter.
pub proof fn lemma_parse_bad_start(s: Seq<u8>)
    requires
        s.len() > 0,
        s[0] != STAR,
        !spec_is_ascii_alpha(s[0]),
    ensures
        spec_parse_issue_pattern(s) == Err::<PatternView, IssuePatternError>(
            IssuePatternError::InvalidLinter,
        ),
{
}

/// An identifier that is not followed by `/` is no head: the linter is
/// refused.
pub proof fn lemma_parse_linter_needs_slash(l: Seq<u8>, tail: Seq<u8>)
    requires
        valid_ident(l),
        tail.len() > 0 ==> (!spec_is_ident_byte(tail[0]) && tail[0] != SLASH),
    ensures
        spec_parse_issue_pattern(l + tail) == Err::<PatternView, IssuePatternError>(
            IssuePatternError::InvalidLinter,
        ),
{
    let s = l + tail;
    assert forall|k: int| 0 <= k < l.len() implies spec_is_ident_byte(#[trigger] s[k]) by {
        assert(s[k] == l[k]);
    }
    if tail.len() > 0 {
        assert(s[l.len() as int] == tail[0]);
    }
    lemma_ident_run(s, 0, l.len() as int);
    assert(s[0] == l[0]);
}

/// After `linter/`, anything but `*` or an identifier is refused as a
/// missing issue.
pub proof fn lemma_parse_issue_needs_ident(l: Seq<u8>, tail: Seq<u8>)
    requires
        valid_ident(l),
        tail.len() > 0 ==> (tail[0] != STAR && !spec_is_ascii_alpha(tail[0])),
    ensures
        spec_parse_issue_pattern(l + seq![SLASH] + tail) == Err::<PatternView, IssuePatternError>(
            IssuePatternError::InvalidIssue,
        ),
{
    let s = l + seq![SLASH] + tail;
    let e = l.len() as int;
    assert forall|k: int| 0 <= k < e implies spec_is_ident_byte(#[trigger] s[k]) by {
        assert(s[k] == l[k]);
    }
    assert(s[e] == SLASH);
    if tail.len() > 0 {
        assert(s[e + 1] == tail[0]);
    }
    lemma_ident_run(s, 0, e);
    assert(s[0] == l[0]);
}

} // verus!
