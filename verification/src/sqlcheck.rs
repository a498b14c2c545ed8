//! A light SQL syntax check: structural rules that need no database — a
//! `SELECT` without a `FROM`, unmatched parentheses — plus dialect hints.
//! Keyword matching is case-insensitive.

use vstd::prelude::*;

use crate::drivers::blank;
use crate::security::{contains_sub, fold_seq, fold_str, str_contains};

verus! {

/// How many times a character occurs.
pub open spec fn count_char(s: Seq<char>, c: char) -> int
    decreases s.len(),
{
    if s.len() == 0 {
        0
    } else {
        count_char(s.drop_last(), c) + (if s.last() == c {
            1int
        } else {
            0int
        })
    }
}

/// The query holds a `SELECT` with neither a `FROM` nor a `DUAL`.
pub open spec fn select_without_from(sql: Seq<char>) -> bool {
    &&& contains_sub(fold_seq(sql), "select"@)
    &&& !contains_sub(fold_seq(sql), "from"@)
    &&& !contains_sub(fold_seq(sql), "dual"@)
}

/// The query's parentheses do not pair up.
pub open spec fn unmatched_parens(sql: Seq<char>) -> bool {
    count_char(sql, '(') != count_char(sql, ')')
}

/// One finding of the syntax check.
#[derive(Debug, Clone)]
pub struct SyntaxIssue {
    /// Line of the finding.
    pub line: u32,
    /// Column of the finding.
    pub column: u32,
    /// How many characters it spans.
    pub length: usize,
    /// What was found.
    pub message: String,
    /// `error` or `warning`.
    pub severity: String,
}

/// The outcome of the syntax check.
#[derive(Debug, Clone)]
pub struct SyntaxValidation {
    /// No errors were found.
    pub is_valid: bool,
    /// The errors.
    pub errors: Vec<SyntaxIssue>,
    /// The warnings.
    pub warnings: Vec<SyntaxIssue>,
    /// Dialect-specific hints.
    pub suggestions: Vec<String>,
}

/// Count a character's occurrences in a string.
fn count_char_exec(s: &str, c: char) -> (r: usize)
    ensures
        r as int == count_char(s@, c),
{
    let n = s.unicode_len();
    let mut count: usize = 0;
    let mut i: usize = 0;
    while i < n
        invariant
            n == s@.len(),
            i <= n,
            count <= i,
            count as int == count_char(s@.subrange(0, i as int), c),
        decreases n - i,
    {
        let ghost pre = s@.subrange(0, i as int);
        let ghost cur = s@.subrange(0, i as int + 1);
        proof {
            assert(cur.drop_last() =~= pre);
            assert(cur.last() == s@[i as int]);
        }
        if s.get_char(i) == c {
            count = count + 1;
        }
        i = i + 1;
    }
    proof {
        assert(s@.subrange(0, n as int) =~= s@);
    }
    count
}

/// Whether a string is empty or all whitespace.
fn all_ws(s: &str) -> (r: bool)
    ensures
        r == blank(s@),
{
    let n = s.unicode_len();
    let mut i: usize = 0;
    while i < n
        invariant
            n == s@.len(),
            i <= n,
            forall|j: int| 0 <= j < i ==> crate::codec::is_ws(#[trigger] s@[j]),
        decreases n - i,
    {
        let c = s.get_char(i);
        if !(c == ' ' || c == '\t' || c == '\r' || c == '\n') {
            return false;
        }
        i = i + 1;
    }
    true
}

/// Check a query's structure.  A blank query is trivially valid with no
/// findings.  Otherwise: a `SELECT` without `FROM` or `DUAL` earns exactly
/// one warning, unmatched parentheses exactly one error, and the known
/// dialects exactly one hint each; the verdict is valid exactly when no
/// error was found.
pub fn validate_sql_syntax(sql: &str, dialect: &str) -> (r: SyntaxValidation)
    ensures
        blank(sql@) ==> r.is_valid && r.errors@.len() == 0 && r.warnings@.len() == 0
            && r.suggestions@.len() == 0,
        !blank(sql@) ==> {
            &&& r.is_valid <==> !unmatched_parens(sql@)
            &&& r.warnings@.len() == (if select_without_from(sql@) {
                1int
            } else {
                0int
            })
            &&& r.errors@.len() == (if unmatched_parens(sql@) {
                1int
            } else {
                0int
            })
            &&& r.suggestions@.len() == (if dialect@ == "postgresql"@ || dialect@ == "mysql"@
                || dialect@ == "sqlite"@ {
                1int
            } else {
                0int
            })
        },
{
    if all_ws(sql) {
        return SyntaxValidation {
            is_valid: true,
            errors: Vec::new(),
            warnings: Vec::new(),
            suggestions: Vec::new(),
        };
    }
    let folded = fold_str(sql);
    let mut warnings: Vec<SyntaxIssue> = Vec::new();
    if str_contains(folded.as_str(), "select") && !str_contains(folded.as_str(), "from")
        && !str_contains(folded.as_str(), "dual") {
        warnings.push(
            SyntaxIssue {
                line: 1,
                column: 1,
                length: 6,
                message: String::from_str("SELECT statement without FROM clause"),
                severity: String::from_str("warning"),
            },
        );
    }
    let mut errors: Vec<SyntaxIssue> = Vec::new();
    if count_char_exec(sql, '(') != count_char_exec(sql, ')') {
        errors.push(
            SyntaxIssue {
                line: 1,
                column: 1,
                length: sql.unicode_len(),
                message: String::from_str("Unmatched parentheses"),
                severity: String::from_str("error"),
            },
        );
    }
    let mut suggestions: Vec<String> = Vec::new();
    if str_eq(dialect, "postgresql") {
        suggestions.push(
            String::from_str("Consider using PostgreSQL-specific features like JSONB or arrays"),
        );
    } else if str_eq(dialect, "mysql") {
        suggestions.push(
            String::from_str("Consider using MySQL-specific functions like GROUP_CONCAT"),
        );
    } else if str_eq(dialect, "sqlite") {
        suggestions.push(String::from_str("Remember that SQLite has dynamic typing"));
    }
    let is_valid = errors.len() == 0;
    SyntaxValidation { is_valid, errors, warnings, suggestions }
}

/// Whether two strings are equal.
fn str_eq(a: &str, b: &str) -> (r: bool)
    ensures
        r == (a@ == b@),
{
    let na = a.unicode_len();
    let nb = b.unicode_len();
    if na != nb {
        proof {
            assert(a@ != b@);
        }
        return false;
    }
    let mut i: usize = 0;
    while i < na
        invariant
            na == a@.len(),
            na == b@.len(),
            i <= na,
            forall|j: int| 0 <= j < i ==> a@[j] == b@[j],
        decreases na - i,
    {
        if a.get_char(i) != b.get_char(i) {
            return false;
        }
        i = i + 1;
    }
    proof {
        assert(a@ =~= b@);
    }
    true
}

} // verus!
