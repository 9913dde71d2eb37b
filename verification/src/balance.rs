//! The bracket-balance check that the CSS and JavaScript plugins run before
//! minifying: brackets are counted outside string literals, a backslash
//! escapes the next character, and a closing bracket with no open partner,
//! or an unclosed bracket at the end, is an error.

use vstd::prelude::*;
use crate::minifier::MinifyError;
use crate::strings::string_of;
use crate::text::{append_str, decimal, push_decimal, string_from_str};

verus! {

/// The scanner's state after a prefix of the input.
pub struct BalanceScan {
    pub braces: nat,
    pub parens: nat,
    pub brackets: nat,
    pub in_string: bool,
    pub escape_next: bool,
    pub quote: char,
}

pub open spec fn initial_scan() -> BalanceScan {
    BalanceScan {
        braces: 0,
        parens: 0,
        brackets: 0,
        in_string: false,
        escape_next: false,
        quote: '\0',
    }
}

/// Characters that open a string literal: both quotes, and the backtick of
/// JavaScript template literals when `js` holds.
pub open spec fn opens_string(c: char, js: bool) -> bool {
    c == '"' || c == '\'' || (js && c == '`')
}

/// One character of the scan; `None` when a closing bracket has no open
/// partner. Square brackets are counted for JavaScript only.
pub open spec fn balance_step(st: BalanceScan, c: char, js: bool) -> Option<BalanceScan> {
    if st.escape_next {
        Some(BalanceScan { escape_next: false, ..st })
    } else if c == '\\' {
        Some(BalanceScan { escape_next: true, ..st })
    } else if st.in_string {
        if c == st.quote {
            Some(BalanceScan { in_string: false, ..st })
        } else {
            Some(st)
        }
    } else if opens_string(c, js) {
        Some(BalanceScan { in_string: true, quote: c, ..st })
    } else if c == '{' {
        Some(BalanceScan { braces: st.braces + 1, ..st })
    } else if c == '}' {
        if st.braces == 0 {
            None
        } else {
            Some(BalanceScan { braces: (st.braces - 1) as nat, ..st })
        }
    } else if c == '(' {
        Some(BalanceScan { parens: st.parens + 1, ..st })
    } else if c == ')' {
        if st.parens == 0 {
            None
        } else {
            Some(BalanceScan { parens: (st.parens - 1) as nat, ..st })
        }
    } else if js && c == '[' {
        Some(BalanceScan { brackets: st.brackets + 1, ..st })
    } else if js && c == ']' {
        if st.brackets == 0 {
            None
        } else {
            Some(BalanceScan { brackets: (st.brackets - 1) as nat, ..st })
        }
    } else {
        Some(st)
    }
}

pub open spec fn balance_scan(s: Seq<char>, js: bool) -> Option<BalanceScan>
    decreases s.len(),
{
    if s.len() == 0 {
        Some(initial_scan())
    } else {
        match balance_scan(s.drop_last(), js) {
            Some(st) => balance_step(st, s.last(), js),
            None => None,
        }
    }
}

/// The error message of the check, or `None` when the input is balanced.
pub open spec fn balance_error(s: Seq<char>, js: bool) -> Option<Seq<char>> {
    match balance_scan(s, js) {
        None => Some("Unbalanced brackets"@),
        Some(st) => if st.braces == 0 && st.parens == 0 && st.brackets == 0 {
            None
        } else if js {
            Some(
                "Unbalanced syntax: braces="@ + decimal(st.braces) + ", parens="@ + decimal(
                    st.parens,
                ) + ", brackets="@ + decimal(st.brackets),
            )
        } else {
            Some("Unbalanced syntax: braces="@ + decimal(st.braces) + ", parens="@ + decimal(st.parens))
        },
    }
}

pub proof fn lemma_scan_failure_persists(s: Seq<char>, i: int, js: bool)
    requires
        0 <= i <= s.len(),
        balance_scan(s.take(i), js) is None,
    ensures
        balance_scan(s, js) is None,
    decreases s.len() - i,
{
    if i < s.len() {
        assert(s.take(i + 1).drop_last() =~= s.take(i));
        lemma_scan_failure_persists(s, i + 1, js);
    } else {
        assert(s.take(i) =~= s);
    }
}

/// A closing bracket that stands outside string literals, unescaped, after
/// a prefix in which every bracket of its kind is already closed, makes the
/// check fail with "Unbalanced brackets", whatever follows it. This holds for
/// braces and parentheses in both languages, and for square brackets in
/// JavaScript.
pub proof fn lemma_unmatched_closer_fails(p: Seq<char>, c: char, r: Seq<char>, js: bool)
    requires
        balance_scan(p, js) matches Some(st) && !st.in_string && !st.escape_next && ((c == '}'
            && st.braces == 0) || (c == ')' && st.parens == 0) || (js && c == ']' && st.brackets
            == 0)),
    ensures
        balance_error(p + seq![c] + r, js) == Some("Unbalanced brackets"@),
{
    let s = p + seq![c] + r;
    let k: int = p.len() as int + 1;
    assert(s.take(k) =~= p.push(c));
    assert(p.push(c).drop_last() =~= p);
    assert(balance_scan(p.push(c), js) is None);
    lemma_scan_failure_persists(s, k, js);
}

/// Characters that the check passes over in either language: no quote,
/// backtick, backslash or bracket.
pub open spec fn bracket_neutral(c: char) -> bool {
    c != '"' && c != '\'' && c != '`' && c != '\\' && c != '{' && c != '}' && c != '(' && c != ')'
        && c != '[' && c != ']'
}

proof fn lemma_scan_neutral_suffix(x: Seq<char>, s: Seq<char>, js: bool)
    requires
        balance_scan(x, js) matches Some(st) && !st.in_string && !st.escape_next,
        forall|k: int| 0 <= k < s.len() ==> bracket_neutral(s[k]),
    ensures
        balance_scan(x + s, js) == balance_scan(x, js),
    decreases s.len(),
{
    if s.len() == 0 {
        assert(x + s =~= x);
    } else {
        lemma_scan_neutral_suffix(x, s.drop_last(), js);
        assert((x + s).drop_last() =~= x + s.drop_last());
        assert((x + s).last() == s.last());
    }
}

/// A text none of whose characters is a quote, backtick, backslash or
/// bracket passes the check, and so does that text between an opening
/// bracket and its closing partner: braces and parentheses in both
/// languages, square brackets in JavaScript.
pub proof fn lemma_bracketed_neutral_text_balances(s: Seq<char>, open: char, close: char, js: bool)
    requires
        forall|k: int| 0 <= k < s.len() ==> bracket_neutral(s[k]),
        (open == '{' && close == '}') || (open == '(' && close == ')') || (js && open == '['
            && close == ']'),
    ensures
        balance_error(s, js) is None,
        balance_error(seq![open] + s + seq![close], js) is None,
{
    let e = Seq::<char>::empty();
    lemma_scan_neutral_suffix(e, s, js);
    assert(e + s =~= s);
    let o = seq![open];
    assert(o.drop_last() =~= e);
    lemma_scan_neutral_suffix(o, s, js);
    let w = o + s + seq![close];
    assert(w.drop_last() =~= o + s);
    assert(w.last() == close);
}

proof fn lemma_scan_in_string_suffix(x: Seq<char>, t: Seq<char>, js: bool)
    requires
        balance_scan(x, js) matches Some(st) && st.in_string && !st.escape_next && forall|k: int|
            0 <= k < t.len() ==> t[k] != st.quote && t[k] != '\\',
    ensures
        balance_scan(x + t, js) == balance_scan(x, js),
    decreases t.len(),
{
    if t.len() == 0 {
        assert(x + t =~= x);
    } else {
        lemma_scan_in_string_suffix(x, t.drop_last(), js);
        assert((x + t).drop_last() =~= x + t.drop_last());
        assert((x + t).last() == t.last());
    }
}

/// Brackets inside a string literal are not counted: after any text `p`
/// that does not end inside a literal or on a backslash, a literal opened
/// and closed by the same quote character, with content `t` free of that
/// quote and of backslashes, leaves the check's verdict as it was after `p`.
pub proof fn lemma_string_literal_transparent(p: Seq<char>, q: char, t: Seq<char>, js: bool)
    requires
        balance_scan(p, js) matches Some(st) ==> !st.in_string && !st.escape_next,
        opens_string(q, js),
        forall|k: int| 0 <= k < t.len() ==> t[k] != q && t[k] != '\\',
    ensures
        balance_error(p + seq![q] + t + seq![q], js) == balance_error(p, js),
{
    let s = p + seq![q] + t + seq![q];
    match balance_scan(p, js) {
        None => {
            assert(s.take(p.len() as int) =~= p);
            lemma_scan_failure_persists(s, p.len() as int, js);
        },
        Some(st) => {
            let pq = p + seq![q];
            assert(pq.drop_last() =~= p);
            assert(pq.last() == q);
            let sq = BalanceScan { in_string: true, quote: q, ..st };
            assert(balance_scan(pq, js) == Some(sq));
            lemma_scan_in_string_suffix(pq, t, js);
            assert(s.drop_last() =~= pq + t);
            assert(s.last() == q);
            assert(balance_scan(s, js) == Some(BalanceScan { in_string: false, ..sq }));
        },
    }
}

/// Runs the check over a character sequence.
pub fn check_balance(input: &[char], js: bool) -> (r: Result<(), MinifyError>)
    ensures
        r is Ok <==> balance_error(input@, js) is None,
        r matches Err(e) ==> e matches MinifyError::ParseError(m) && Some(m@) == balance_error(
            input@,
            js,
        ),
{
    let mut braces: usize = 0;
    let mut parens: usize = 0;
    let mut brackets: usize = 0;
    let mut in_string = false;
    let mut escape_next = false;
    let mut quote: char = '\0';
    let mut i: usize = 0;
    assert(input@.take(0) =~= Seq::<char>::empty());
    while i < input.len()
        invariant
            i <= input.len(),
            braces + parens + brackets <= i,
            balance_scan(input@.take(i as int), js) == Some(
                BalanceScan {
                    braces: braces as nat,
                    parens: parens as nat,
                    brackets: brackets as nat,
                    in_string,
                    escape_next,
                    quote,
                },
            ),
        decreases input.len() - i,
    {
        let c = input[i];
        assert(input@.take(i + 1).drop_last() =~= input@.take(i as int));
        assert(input@.take(i + 1).last() == c);
        if escape_next {
            escape_next = false;
        } else if c == '\\' {
            escape_next = true;
        } else if in_string {
            if c == quote {
                in_string = false;
            }
        } else if c == '"' || c == '\'' || (js && c == '`') {
            in_string = true;
            quote = c;
        } else if c == '{' {
            braces += 1;
        } else if c == '}' {
            if braces == 0 {
                proof {
                    lemma_scan_failure_persists(input@, i + 1, js);
                }
                return Err(MinifyError::ParseError(string_from_str("Unbalanced brackets")));
            }
            braces -= 1;
        } else if c == '(' {
            parens += 1;
        } else if c == ')' {
            if parens == 0 {
                proof {
                    lemma_scan_failure_persists(input@, i + 1, js);
                }
                return Err(MinifyError::ParseError(string_from_str("Unbalanced brackets")));
            }
            parens -= 1;
        } else if js && c == '[' {
            brackets += 1;
        } else if js && c == ']' {
            if brackets == 0 {
                proof {
                    lemma_scan_failure_persists(input@, i + 1, js);
                }
                return Err(MinifyError::ParseError(string_from_str("Unbalanced brackets")));
            }
            brackets -= 1;
        }
        i += 1;
    }
    assert(input@.take(input.len() as int) =~= input@);
    if braces != 0 || parens != 0 || brackets != 0 {
        let mut msg: Vec<char> = Vec::new();
        append_str(&mut msg, "Unbalanced syntax: braces=");
        push_decimal(&mut msg, braces);
        append_str(&mut msg, ", parens=");
        push_decimal(&mut msg, parens);
        if js {
            append_str(&mut msg, ", brackets=");
            push_decimal(&mut msg, brackets);
        }
        let ghost expected = balance_error(input@, js);
        assert(Some(msg@) == expected);
        return Err(MinifyError::ParseError(string_of(msg.as_slice())));
    }
    Ok(())
}

} // verus!
