//! Reading CSS: lengths, declaration blocks and whole style sheets.

use crate::decimal::{number, parse_decimal, Decimal};
use crate::property::{applied, apply_css_property_to_rn_style};
use crate::text::{
    append_chars, append_str, copy_range, count_char, count_of, ends_with, find_char, from_chars,
    index_of, lemma_count_found, split, split_chars, texts, to_chars, trim, trim_chars,
};
use crate::text_map::{distinct_keys, inserted, lemma_inserted, lookup, TextMap};
use crate::types::{RnStyles, StyleModel};
use cssparser::{Parser, ToCss, Token};
use vstd::prelude::*;

verus! {

/// `s` with every trailing repetition of the two characters `a`, `b` taken
/// off.
pub open spec fn without_unit(s: Seq<char>, a: char, b: char) -> Seq<char>
    decreases s.len(),
{
    if ends_with(s, seq![a, b]) {
        without_unit(s.take(s.len() - 2), a, b)
    } else {
        s
    }
}

/// The number of a numeral, times `factor / 10^shift`.
pub open spec fn scaled_number(s: Seq<char>, factor: nat, shift: nat) -> Option<Decimal> {
    match number(s) {
        Some(d) => Some(d.spec_scaled(factor, shift)),
        None => None,
    }
}

/// The length that a CSS token stands for, in device-independent points:
/// `px` counts as it is, `em` sixteenfold, `pt` times 1.33, and a token
/// without one of these units is read as a bare number. A token whose number
/// cannot be read has no length.
pub open spec fn size_value(value: Seq<char>) -> Option<Decimal> {
    if ends_with(value, seq!['p', 'x']) {
        number(without_unit(value, 'p', 'x'))
    } else if ends_with(value, seq!['e', 'm']) {
        scaled_number(without_unit(value, 'e', 'm'), 16, 0)
    } else if ends_with(value, seq!['p', 't']) {
        scaled_number(without_unit(value, 'p', 't'), 133, 2)
    } else {
        number(value)
    }
}

/// Whether the first `end` characters of `s` end with `a`, `b`.
fn ends_with_unit(s: &Vec<char>, end: usize, a: char, b: char) -> (found: bool)
    requires
        end <= s.len(),
    ensures
        found == ends_with(s@.take(end as int), seq![a, b]),
{
    if end < 2 {
        return false;
    }
    let found = s[end - 2] == a && s[end - 1] == b;
    proof {
        let t = s@.take(end as int);
        let tail = t.skip(t.len() - 2);
        assert(tail.len() == 2);
        assert(tail[0] == s@[end - 2]);
        assert(tail[1] == s@[end - 1]);
        if found {
            assert(tail =~= seq![a, b]);
        } else {
            assert(seq![a, b][0] == a);
            assert(seq![a, b][1] == b);
        }
    }
    found
}

/// `s` with every trailing repetition of `a`, `b` taken off.
fn strip_unit(s: &Vec<char>, a: char, b: char) -> (out: Vec<char>)
    ensures
        out@ == without_unit(s@, a, b),
{
    let mut end: usize = s.len();
    assert(s@.take(end as int) == s@);
    while ends_with_unit(s, end, a, b)
        invariant
            end <= s.len(),
            without_unit(s@, a, b) == without_unit(s@.take(end as int), a, b),
        decreases end,
    {
        assert(s@.take(end as int).take(end - 2) == s@.take(end - 2));
        end -= 2;
    }
    assert(s@.take(end as int) == s@.subrange(0, end as int));
    copy_range(s, 0, end)
}

/// The length that the characters `value` stand for.
pub fn size_of_chars(value: &Vec<char>) -> (out: Option<Decimal>)
    ensures
        out == size_value(value@),
        out matches Some(d) ==> d.wf(),
{
    let n = value.len();
    assert(value@.take(n as int) == value@);
    if ends_with_unit(value, n, 'p', 'x') {
        parse_decimal(&strip_unit(value, 'p', 'x'))
    } else if ends_with_unit(value, n, 'e', 'm') {
        match parse_decimal(&strip_unit(value, 'e', 'm')) {
            Some(d) => Some(d.scaled(16, 0)),
            None => None,
        }
    } else if ends_with_unit(value, n, 'p', 't') {
        match parse_decimal(&strip_unit(value, 'p', 't')) {
            Some(d) => Some(d.scaled(133, 2)),
            None => None,
        }
    } else {
        parse_decimal(value)
    }
}

/// Converts a CSS length token to device-independent points.
pub fn parse_size_value(value: &str) -> (out: Option<Decimal>)
    ensures
        out == size_value(value@),
        out matches Some(d) ==> d.wf(),
{
    size_of_chars(&to_chars(value))
}

/// Whether a selector character is dropped from the style name.
pub open spec fn is_selector_mark(c: char) -> bool {
    c == '.' || c == '#'
}

/// The characters of a trimmed selector that make its key: all but `.` and
/// `#`, with `_` for each space.
pub open spec fn selector_key(selector: Seq<char>) -> Seq<char> {
    selector.filter(|c: char| !is_selector_mark(c)).map_values(
        |c: char|
            if c == ' ' {
                '_'
            } else {
                c
            },
    )
}

/// The key under which the rule of `selector` is kept: the trimmed selector
/// without the characters `.` and `#`, and with `_` for each space.
pub open spec fn style_name(selector: Seq<char>) -> Seq<char> {
    selector_key(trim(selector))
}

/// The style name of the selector `selector`.
pub fn style_name_chars(selector: &Vec<char>) -> (out: Vec<char>)
    ensures
        out@ == style_name(selector@),
{
    let trimmed = trim_chars(selector);
    let mut out: Vec<char> = Vec::new();
    let mut i: usize = 0;
    assert(trimmed@.take(0) == Seq::<char>::empty());
    while i < trimmed.len()
        invariant
            i <= trimmed.len(),
            trimmed@ == trim(selector@),
            out@ == selector_key(trimmed@.take(i as int)),
        decreases trimmed.len() - i,
    {
        let c = trimmed[i];
        let ghost prefix = trimmed@.take(i as int);
        let ghost next = trimmed@.take(i + 1);
        assert(next.drop_last() == prefix);
        assert(next.last() == c);
        reveal(Seq::filter);
        if c == '.' || c == '#' {
            assert(next.filter(|c: char| !is_selector_mark(c)) == prefix.filter(
                |c: char| !is_selector_mark(c),
            ));
        } else {
            let ghost kept = prefix.filter(|c: char| !is_selector_mark(c));
            assert(next.filter(|c: char| !is_selector_mark(c)) == kept.push(c));
            let m = if c == ' ' {
                '_'
            } else {
                c
            };
            out.push(m);
            assert(selector_key(next) =~= selector_key(prefix).push(m));
        }
        i += 1;
    }
    assert(trimmed@.take(trimmed@.len() as int) == trimmed@);
    out
}

/// Converts a CSS selector to the key of its style.
pub fn css_selector_to_style_name(selector: &str) -> (out: String)
    ensures
        out@ == style_name(selector@),
{
    from_chars(&style_name_chars(&to_chars(selector)))
}

/// What a list of text pairs holds.
pub open spec fn pairs_view(pairs: Seq<(String, String)>) -> Seq<(Seq<char>, Seq<char>)> {
    Seq::new(pairs.len(), |i: int| (pairs[i].0@, pairs[i].1@))
}

/// The state of a scan for rules.
pub struct RuleScan {
    /// The rules completed so far, each as selector and declarations.
    pub rules: Seq<(Seq<char>, Seq<char>)>,
    /// The text read since the last completed rule.
    pub current: Seq<char>,
    /// Opening braces read minus closing braces read.
    pub depth: int,
    /// Whether a rule has begun and is not completed.
    pub in_rule: bool,
}

/// The rule that the text `text` of one rule span spells: what stands
/// before its first `{` is the selector, what stands between that brace and
/// the last character the declarations, both trimmed. No rule where either
/// is empty.
pub open spec fn rule_of(text: Seq<char>) -> Option<(Seq<char>, Seq<char>)> {
    let open = index_of(text, '{');
    if open + 1 < text.len() {
        let selector = trim(text.take(open));
        let declarations = trim(text.subrange(open + 1, text.len() - 1));
        if selector.len() > 0 && declarations.len() > 0 {
            Some((selector, declarations))
        } else {
            None
        }
    } else {
        None
    }
}

/// The state after the character `c` is read in the state `state`.
pub open spec fn scan_step(state: RuleScan, c: char) -> RuleScan {
    let text = state.current.push(c);
    if c == '{' {
        RuleScan {
            current: text,
            depth: state.depth + 1,
            in_rule: state.in_rule || state.depth == 0,
            ..state
        }
    } else if c == '}' {
        if state.depth == 1 && state.in_rule {
            RuleScan {
                rules: match rule_of(text) {
                    Some(rule) => state.rules.push(rule),
                    None => state.rules,
                },
                current: Seq::empty(),
                depth: 0,
                in_rule: false,
            }
        } else {
            RuleScan { current: text, depth: state.depth - 1, ..state }
        }
    } else {
        RuleScan { current: text, ..state }
    }
}

/// The state in which a scan starts.
pub open spec fn scan_start() -> RuleScan {
    RuleScan { rules: Seq::empty(), current: Seq::empty(), depth: 0, in_rule: false }
}

/// The state after the text `text` is read in the state `state`.
pub open spec fn scan_from(state: RuleScan, text: Seq<char>) -> RuleScan
    decreases text.len(),
{
    if text.len() == 0 {
        state
    } else {
        scan_step(scan_from(state, text.drop_last()), text.last())
    }
}

/// The state after the text `css` is read from the start.
pub open spec fn scan(css: Seq<char>) -> RuleScan {
    scan_from(scan_start(), css)
}

/// The rules of the style sheet `css`, in source order. A rule begins where
/// the brace depth goes from 0 to 1 and is complete where it comes back to
/// 0, so a block nested in a rule belongs to that rule's declarations.
pub open spec fn css_rules(css: Seq<char>) -> Seq<(Seq<char>, Seq<char>)> {
    scan(css).rules
}

/// The depth of a scan is bounded by the number of characters read, and a
/// rule is open only at a depth of at least one.
pub proof fn lemma_scan_depth(css: Seq<char>)
    ensures
        -css.len() <= scan(css).depth <= css.len(),
        scan(css).in_rule ==> scan(css).depth >= 1,
    decreases css.len(),
{
    if css.len() > 0 {
        lemma_scan_depth(css.drop_last());
    }
}

/// Reading a text in two parts is reading it whole.
pub proof fn lemma_scan_parts(state: RuleScan, first: Seq<char>, second: Seq<char>)
    ensures
        scan_from(state, first + second) == scan_from(scan_from(state, first), second),
    decreases second.len(),
{
    if second.len() == 0 {
        assert(first + second == first);
    } else {
        lemma_scan_parts(state, first, second.drop_last());
        assert((first + second).drop_last() == first + second.drop_last());
        assert((first + second).last() == second.last());
    }
}

/// The rules found so far have no part in what is found later: a scan that
/// starts with the rules `found` ends with `found` and then the rules of
/// the same scan without them.
pub proof fn lemma_scan_keeps_rules(state: RuleScan, text: Seq<char>)
    ensures
        scan_from(state, text) == (RuleScan {
            rules: state.rules + scan_from(RuleScan { rules: Seq::empty(), ..state }, text).rules,
            ..scan_from(RuleScan { rules: Seq::empty(), ..state }, text)
        }),
    decreases text.len(),
{
    let bare = RuleScan { rules: Seq::empty(), ..state };
    if text.len() == 0 {
        assert(state.rules + bare.rules =~= state.rules);
    } else {
        lemma_scan_keeps_rules(state, text.drop_last());
        let with = scan_from(state, text.drop_last());
        let without = scan_from(bare, text.drop_last());
        let a = scan_step(with, text.last());
        let b = scan_step(without, text.last());
        assert(a.rules =~= state.rules + b.rules);
    }
}

/// Opening braces minus closing braces in `text`.
pub open spec fn brace_level(text: Seq<char>) -> int
    decreases text.len(),
{
    if text.len() == 0 {
        0
    } else {
        brace_level(text.drop_last()) + if text.last() == '{' {
            1int
        } else if text.last() == '}' {
            -1int
        } else {
            0int
        }
    }
}

/// Every closing brace of `text` closes a brace that `text` opened before.
pub open spec fn is_nested(text: Seq<char>) -> bool {
    forall|n: int| 0 <= n <= text.len() ==> brace_level(#[trigger] text.take(n)) >= 0
}

/// Inside a rule, a text whose braces are nested is read as part of the
/// rule.
pub proof fn lemma_scan_nested(state: RuleScan, text: Seq<char>)
    requires
        state.depth >= 1,
        is_nested(text),
    ensures
        scan_from(state, text) == (RuleScan {
            current: state.current + text,
            depth: state.depth + brace_level(text),
            ..state
        }),
    decreases text.len(),
{
    if text.len() == 0 {
        assert(state.current + text =~= state.current);
    } else {
        let front = text.drop_last();
        assert forall|n: int| 0 <= n <= front.len() implies brace_level(
            #[trigger] front.take(n),
        ) >= 0 by {
            assert(front.take(n) == text.take(n));
        }
        lemma_scan_nested(state, front);
        assert(text.take(text.len() as int) == text);
        assert(text.take(front.len() as int) == front);
        assert(brace_level(front) >= 0);
        assert(brace_level(text) >= 0);
        assert((state.current + front).push(text.last()) =~= state.current + text);
    }
}

/// A text without braces is read as it is.
pub proof fn lemma_scan_plain(state: RuleScan, text: Seq<char>)
    requires
        !text.contains('{'),
        !text.contains('}'),
    ensures
        scan_from(state, text) == (RuleScan { current: state.current + text, ..state }),
    decreases text.len(),
{
    if text.len() == 0 {
        assert(state.current + text =~= state.current);
    } else {
        let front = text.drop_last();
        assert(text[text.len() - 1] == text.last());
        assert forall|i: int| 0 <= i < front.len() implies front[i] != '{' && front[i] != '}' by {
            assert(front[i] == text[i]);
        }
        lemma_scan_plain(state, front);
        assert((state.current + front).push(text.last()) =~= state.current + text);
    }
}

/// Reading one character is one step.
pub proof fn lemma_scan_one(state: RuleScan, c: char)
    ensures
        scan_from(state, seq![c]) == scan_step(state, c),
{
    assert(seq![c].drop_last() == Seq::<char>::empty());
    assert(scan_from(state, Seq::<char>::empty()) == state);
    assert(seq![c].last() == c);
}

/// The rule of an optional rule: one rule, or none.
pub open spec fn rule_list(rule: Option<(Seq<char>, Seq<char>)>) -> Seq<(Seq<char>, Seq<char>)> {
    match rule {
        Some(r) => seq![r],
        None => Seq::empty(),
    }
}

/// Braces inside a rule do not end it, and what follows a rule is read as
/// if it stood alone. Let a style sheet consist of a text `before` that
/// leaves no brace open, then a selector without braces, then a block whose
/// inner braces are nested, and then a text `after`. Its rules are those of
/// `before`, then the rule of the span up to the closing brace of the
/// block, then the rules of `after`.
pub proof fn lemma_rule_boundary(
    before: Seq<char>,
    selector: Seq<char>,
    block: Seq<char>,
    after: Seq<char>,
)
    requires
        scan(before).depth == 0,
        !selector.contains('{'),
        !selector.contains('}'),
        is_nested(block),
        brace_level(block) == 0,
    ensures
        css_rules(before + selector + seq!['{'] + block + seq!['}'] + after) == css_rules(before)
            + rule_list(rule_of(scan(before).current + selector + seq!['{'] + block + seq!['}']))
            + css_rules(after),
{
    let start = scan_start();
    let s1 = scan(before);
    lemma_scan_depth(before);
    let s2 = scan_from(s1, selector);
    lemma_scan_plain(s1, selector);
    let s3 = scan_from(s2, seq!['{']);
    lemma_scan_one(s2, '{');
    let s4 = scan_from(s3, block);
    lemma_scan_nested(s3, block);
    let s5 = scan_from(s4, seq!['}']);
    lemma_scan_one(s4, '}');
    let span = s1.current + selector + seq!['{'] + block + seq!['}'];
    assert(s4.current.push('}') =~= span);
    assert(s5.rules =~= s1.rules + rule_list(rule_of(span)));
    let s6 = scan_from(s5, after);
    lemma_scan_keeps_rules(s5, after);
    assert((RuleScan { rules: Seq::empty(), ..s5 }) == start);
    lemma_scan_parts(start, before, selector);
    lemma_scan_parts(start, before + selector, seq!['{']);
    lemma_scan_parts(start, before + selector + seq!['{'], block);
    lemma_scan_parts(start, before + selector + seq!['{'] + block, seq!['}']);
    lemma_scan_parts(start, before + selector + seq!['{'] + block + seq!['}'], after);
}

/// The selector and declarations of the rule span `text`.
pub fn rule_of_chars(text: &Vec<char>) -> (out: Option<(String, String)>)
    ensures
        match out {
            Some(rule) => rule_of(text@) == Some((rule.0@, rule.1@)),
            None => rule_of(text@) is None,
        },
{
    let open = find_char(text, '{');
    if open >= text.len() || open + 1 >= text.len() {
        return None;
    }
    let selector = trim_chars(&copy_range(text, 0, open));
    let declarations = trim_chars(&copy_range(text, open + 1, text.len() - 1));
    assert(text@.take(open as int) == text@.subrange(0, open as int));
    if selector.len() > 0 && declarations.len() > 0 {
        Some((from_chars(&selector), from_chars(&declarations)))
    } else {
        None
    }
}

/// The rules of the characters `css`.
pub fn rules_of_chars(css: &Vec<char>) -> (out: Vec<(String, String)>)
    ensures
        pairs_view(out@) == css_rules(css@),
{
    let mut rules: Vec<(String, String)> = Vec::new();
    let mut current: Vec<char> = Vec::new();
    let mut depth: i128 = 0;
    let mut in_rule = false;
    let mut i: usize = 0;
    assert(css@.take(0) == Seq::<char>::empty());
    assert(pairs_view(rules@) =~= scan(css@.take(0)).rules);
    while i < css.len()
        invariant
            i <= css.len(),
            pairs_view(rules@) == scan(css@.take(i as int)).rules,
            current@ == scan(css@.take(i as int)).current,
            depth == scan(css@.take(i as int)).depth,
            in_rule == scan(css@.take(i as int)).in_rule,
        decreases css.len() - i,
    {
        let c = css[i];
        assert(css@.take(i + 1).drop_last() == css@.take(i as int));
        assert(css@.take(i + 1).last() == c);
        proof {
            lemma_scan_depth(css@.take(i as int));
        }
        current.push(c);
        if c == '{' {
            if depth == 0 {
                in_rule = true;
            }
            depth = depth + 1;
        } else if c == '}' {
            if depth == 1 && in_rule {
                match rule_of_chars(&current) {
                    Some(rule) => {
                        let ghost before = rules@;
                        rules.push(rule);
                        assert(pairs_view(rules@) =~= pairs_view(before).push((rule.0@, rule.1@)));
                    },
                    None => {},
                }
                current = Vec::new();
                depth = 0;
                in_rule = false;
            } else {
                depth = depth - 1;
            }
        }
        i += 1;
    }
    assert(css@.take(css@.len() as int) == css@);
    rules
}

/// Splits a style sheet into its rules: pairs of selector and declarations,
/// in source order.
pub fn extract_css_rules(css: &str) -> (out: Vec<(String, String)>)
    ensures
        pairs_view(out@) == css_rules(css@),
{
    rules_of_chars(&to_chars(css))
}

/// A token of a CSS value, as far as a declaration's value is rebuilt from
/// it.
#[derive(Debug, Clone, PartialEq, Eq)]
pub enum CssToken {
    /// An identifier, such as `bold`.
    Ident(String),
    /// A quoted string, without its quotes.
    Quoted(String),
    /// A number, written out in decimal.
    Number(String),
    /// A percentage as CSS writes it, with its `%` sign.
    Percentage(String),
    /// A number with a unit: the number written out in decimal, and the
    /// unit.
    Dimension(String, String),
    /// A hash token, without its `#`.
    Hash(String),
    /// The name of a function; its arguments are not tokens of the value.
    Function(String),
    /// Any other token.
    Other,
}

/// What a token holds, as mathematical values.
pub enum TokenModel {
    Ident(Seq<char>),
    Quoted(Seq<char>),
    Number(Seq<char>),
    Percentage(Seq<char>),
    Dimension(Seq<char>, Seq<char>),
    Hash(Seq<char>),
    Function(Seq<char>),
    Other,
}

impl View for CssToken {
    type V = TokenModel;

    open spec fn view(&self) -> TokenModel {
        match self {
            CssToken::Ident(s) => TokenModel::Ident(s@),
            CssToken::Quoted(s) => TokenModel::Quoted(s@),
            CssToken::Number(s) => TokenModel::Number(s@),
            CssToken::Percentage(s) => TokenModel::Percentage(s@),
            CssToken::Dimension(value, unit) => TokenModel::Dimension(value@, unit@),
            CssToken::Hash(s) => TokenModel::Hash(s@),
            CssToken::Function(s) => TokenModel::Function(s@),
            CssToken::Other => TokenModel::Other,
        }
    }
}

/// What a list of tokens holds.
pub open spec fn token_models(tokens: Seq<CssToken>) -> Seq<TokenModel> {
    Seq::new(tokens.len(), |i: int| tokens[i]@)
}

/// The tokens that the CSS tokenizer reads from `text`, white space and
/// comments left out and the contents of functions and blocks skipped.
pub uninterp spec fn css_tokens(text: Seq<char>) -> Seq<TokenModel>;

/// Runs `cssparser::Parser::next` on `text` until the input is exhausted and
/// hands out each token it returned, in order. A number is written out by
/// its `to_string`, a percentage by the token's `to_css_string`; `Hash` and
/// `IDHash` both come out as a hash token. The contract names the result,
/// which depends on `text` alone, and claims nothing of what it holds.
#[verifier::external_body]
fn tokenize(text: &str) -> (tokens: Vec<CssToken>)
    ensures
        token_models(tokens@) == css_tokens(text@),
{
    let mut parser = Parser::new(text);
    let mut tokens = Vec::new();
    while let Ok(token) = parser.next() {
        tokens.push(match token {
            Token::Ident(s) => CssToken::Ident(s.to_string()),
            Token::QuotedString(s) => CssToken::Quoted(s.to_string()),
            Token::Number { value, .. } => CssToken::Number(value.to_string()),
            Token::Percentage { .. } => CssToken::Percentage(token.to_css_string()),
            Token::Dimension { value, unit, .. } => CssToken::Dimension(value.to_string(), unit.to_string()),
            Token::Hash(s) | Token::IDHash(s) => CssToken::Hash(s.to_string()),
            Token::Function(name) => CssToken::Function(name.to_string()),
            _ => CssToken::Other,
        });
    }
    tokens
}

/// The text that a token adds to a declaration's value: an identifier, a
/// number or a percentage as it is, a string between double quotes, a
/// dimension as number and unit, a hash token after `#`, a function as its
/// name and `(...)`. Other tokens add nothing.
pub open spec fn value_text(token: TokenModel) -> Option<Seq<char>> {
    match token {
        TokenModel::Ident(s) => Some(s),
        TokenModel::Quoted(s) => Some(seq!['"'] + s + seq!['"']),
        TokenModel::Number(s) => Some(s),
        TokenModel::Percentage(s) => Some(s),
        TokenModel::Dimension(value, unit) => Some(value + unit),
        TokenModel::Hash(s) => Some(seq!['#'] + s),
        TokenModel::Function(name) => Some(name + seq!['(', '.', '.', '.', ')']),
        TokenModel::Other => None,
    }
}

/// The texts of the tokens, joined by single spaces; none where no token
/// has a text.
pub open spec fn joined_values(tokens: Seq<TokenModel>) -> Option<Seq<char>>
    decreases tokens.len(),
{
    if tokens.len() == 0 {
        None
    } else {
        match (joined_values(tokens.drop_last()), value_text(tokens.last())) {
            (Some(before), Some(text)) => Some(before + seq![' '] + text),
            (Some(before), None) => Some(before),
            (None, Some(text)) => Some(text),
            (None, None) => None,
        }
    }
}

/// The property and value that the tokens of a declaration spell: the
/// property where the tokens before the colon are one identifier, the value
/// as the tokens after the colon join. None where there is no such
/// identifier or no value.
pub open spec fn declaration_of(name_tokens: Seq<TokenModel>, value_tokens: Seq<TokenModel>)
    -> Option<(Seq<char>, Seq<char>)> {
    if name_tokens.len() == 1 && name_tokens[0] is Ident {
        match joined_values(value_tokens) {
            Some(value) => Some((name_tokens[0]->Ident_0, value)),
            None => None,
        }
    } else {
        None
    }
}

/// The property and value of the declaration `text`, which must hold
/// exactly one colon: the tokens before it name the property, the tokens
/// after it make the value.
pub open spec fn declaration(text: Seq<char>) -> Option<(Seq<char>, Seq<char>)> {
    if count_char(text, ':') == 1 {
        declaration_of(
            css_tokens(text.take(index_of(text, ':'))),
            css_tokens(text.skip(index_of(text, ':') + 1)),
        )
    } else {
        None
    }
}

/// What an optional pair of strings holds.
pub open spec fn pair_view(pair: Option<(String, String)>) -> Option<(Seq<char>, Seq<char>)> {
    match pair {
        Some(p) => Some((p.0@, p.1@)),
        None => None,
    }
}

/// The text that `token` adds to a value.
fn value_of_token(token: &CssToken) -> (out: Option<Vec<char>>)
    ensures
        match out {
            Some(text) => value_text(token@) == Some(text@),
            None => value_text(token@) is None,
        },
{
    let mut text: Vec<char> = Vec::new();
    match token {
        CssToken::Ident(s) => {
            append_str(&mut text, s.as_str());
        },
        CssToken::Quoted(s) => {
            text.push('"');
            append_str(&mut text, s.as_str());
            text.push('"');
            assert(text@ =~= seq!['"'] + s@ + seq!['"']);
        },
        CssToken::Number(s) => {
            append_str(&mut text, s.as_str());
        },
        CssToken::Percentage(s) => {
            append_str(&mut text, s.as_str());
        },
        CssToken::Dimension(value, unit) => {
            append_str(&mut text, value.as_str());
            append_str(&mut text, unit.as_str());
        },
        CssToken::Hash(s) => {
            text.push('#');
            append_str(&mut text, s.as_str());
            assert(text@ =~= seq!['#'] + s@);
        },
        CssToken::Function(name) => {
            append_str(&mut text, name.as_str());
            text.push('(');
            text.push('.');
            text.push('.');
            text.push('.');
            text.push(')');
            assert(text@ =~= name@ + seq!['(', '.', '.', '.', ')']);
        },
        CssToken::Other => {
            return None;
        },
    }
    assert(text@ =~= value_text(token@)->0);
    Some(text)
}

/// The texts of `tokens`, joined by single spaces.
fn join_values(tokens: &Vec<CssToken>) -> (out: Option<Vec<char>>)
    ensures
        match out {
            Some(text) => joined_values(token_models(tokens@)) == Some(text@),
            None => joined_values(token_models(tokens@)) is None,
        },
{
    let mut joined: Vec<char> = Vec::new();
    let mut any = false;
    let mut i: usize = 0;
    let ghost models = token_models(tokens@);
    assert(models.take(0) == Seq::<TokenModel>::empty());
    while i < tokens.len()
        invariant
            i <= tokens.len(),
            models == token_models(tokens@),
            any ==> joined_values(models.take(i as int)) == Some(joined@),
            !any ==> joined_values(models.take(i as int)) is None && joined@.len() == 0,
        decreases tokens.len() - i,
    {
        assert(models.take(i + 1).drop_last() == models.take(i as int));
        assert(models.take(i + 1).last() == tokens@[i as int]@);
        match value_of_token(&tokens[i]) {
            Some(text) => {
                if any {
                    joined.push(' ');
                }
                append_chars(&mut joined, &text);
                proof {
                    if any {
                        let before = joined_values(models.take(i as int))->0;
                        assert(joined@ =~= before + seq![' '] + text@);
                    } else {
                        assert(joined@ =~= text@);
                    }
                }
                any = true;
            },
            None => {},
        }
        i += 1;
    }
    assert(models.take(models.len() as int) == models);
    if any {
        Some(joined)
    } else {
        None
    }
}

/// The property and value that the tokens of one declaration spell, given
/// the tokens before its colon and the tokens after it.
pub fn declaration_from_tokens(name_tokens: &Vec<CssToken>, value_tokens: &Vec<CssToken>) -> (out:
    Option<(String, String)>)
    ensures
        pair_view(out) == declaration_of(token_models(name_tokens@), token_models(value_tokens@)),
{
    if name_tokens.len() != 1 {
        return None;
    }
    match &name_tokens[0] {
        CssToken::Ident(name) => match join_values(value_tokens) {
            Some(value) => Some((name.clone(), from_chars(&value))),
            None => None,
        },
        _ => None,
    }
}

/// Reads one declaration, `property: value`, into its property and its
/// value. None where the text does not hold exactly one colon, where no
/// single identifier stands before the colon, or where no value follows it.
pub fn parse_css_declaration_simple(declaration: &str) -> (out: Option<(String, String)>)
    ensures
        pair_view(out) == self::declaration(declaration@),
{
    let chars = to_chars(declaration);
    if count_of(&chars, ':') != 1 {
        return None;
    }
    let colon = find_char(&chars, ':');
    proof {
        lemma_count_found(chars@, ':');
    }
    let name_part = from_chars(&copy_range(&chars, 0, colon));
    let value_part = from_chars(&copy_range(&chars, colon + 1, chars.len()));
    assert(chars@.take(colon as int) == chars@.subrange(0, colon as int));
    assert(chars@.skip(colon + 1) == chars@.subrange(colon + 1, chars@.len() as int));
    let name_tokens = tokenize(name_part.as_str());
    let value_tokens = tokenize(value_part.as_str());
    declaration_from_tokens(&name_tokens, &value_tokens)
}

/// The record `style` after one segment of a declaration block: an empty
/// segment and one that is no declaration leave it as it is.
pub open spec fn after_segment(style: StyleModel, segment: Seq<char>) -> StyleModel {
    if trim(segment).len() == 0 {
        style
    } else {
        match declaration(trim(segment)) {
            Some((property, value)) => applied(style, property, value),
            None => style,
        }
    }
}

/// The record that the segments of a declaration block make, applied in
/// order to the empty record.
pub open spec fn style_of_segments(segments: Seq<Seq<char>>) -> StyleModel
    decreases segments.len(),
{
    if segments.len() == 0 {
        StyleModel::empty()
    } else {
        after_segment(style_of_segments(segments.drop_last()), segments.last())
    }
}

/// The record that the declaration block `text` makes: its declarations,
/// which semicolons separate, applied in order to the empty record.
pub open spec fn declared_style(text: Seq<char>) -> StyleModel {
    style_of_segments(split(text, ';'))
}

/// Reads a declaration block into a style record. A declaration that cannot
/// be read, or that names a property without a field, has no effect; the
/// result is always `Ok`.
pub fn parse_css_declarations_with_cssparser(declarations: &str) -> (out: Result<RnStyles, String>)
    ensures
        out matches Ok(style) && style@ == declared_style(declarations@),
{
    let mut style = RnStyles::default();
    let segments = split_chars(&to_chars(declarations), ';');
    let ghost all = texts(segments@);
    let mut i: usize = 0;
    assert(all.take(0) == Seq::<Seq<char>>::empty());
    while i < segments.len()
        invariant
            i <= segments.len(),
            all == texts(segments@),
            style@ == style_of_segments(all.take(i as int)),
        decreases segments.len() - i,
    {
        assert(all.take(i + 1).drop_last() == all.take(i as int));
        assert(all.take(i + 1).last() == segments@[i as int]@);
        let trimmed = trim_chars(&segments[i]);
        if trimmed.len() > 0 {
            let text = from_chars(&trimmed);
            match parse_css_declaration_simple(text.as_str()) {
                Some((property, value)) => {
                    apply_css_property_to_rn_style(&mut style, property.as_str(), value.as_str());
                },
                None => {},
            }
        }
        i += 1;
    }
    assert(all.take(all.len() as int) == all);
    Ok(style)
}

/// Reads a declaration block, such as the value of a `style` attribute,
/// into a style record.
pub fn parse_css_declarations(declarations: &str) -> (out: RnStyles)
    ensures
        out@ == declared_style(declarations@),
{
    match parse_css_declarations_with_cssparser(declarations) {
        Ok(style) => style,
        Err(_) => RnStyles::default(),
    }
}

/// A style sheet: style records under the names of their selectors.
pub type StyleSheet = TextMap<RnStyles>;

/// What a style sheet holds: its entries, in order.
pub type SheetModel = Seq<(Seq<char>, StyleModel)>;

/// The built-in style of the page body: 16-point serif text in black, line height 1.5, 16 points of padding.
pub open spec fn default_body() -> StyleModel {
    StyleModel {
        font_size: Some(Decimal::spec_whole(16)),
        font_family: Some("serif"@),
        color: Some("#000000"@),
        line_height: Some(Decimal::of(false, 15, 1)),
        padding_top: Some(Decimal::spec_whole(16)),
        padding_bottom: Some(Decimal::spec_whole(16)),
        padding_left: Some(Decimal::spec_whole(16)),
        padding_right: Some(Decimal::spec_whole(16)),
        ..StyleModel::empty()
    }
}

/// The built-in style of a first-level heading.
pub open spec fn default_h1() -> StyleModel {
    StyleModel {
        font_size: Some(Decimal::spec_whole(28)),
        font_weight: Some("bold"@),
        margin_top: Some(Decimal::spec_whole(24)),
        margin_bottom: Some(Decimal::spec_whole(16)),
        ..StyleModel::empty()
    }
}

/// The built-in style of a second-level heading.
pub open spec fn default_h2() -> StyleModel {
    StyleModel {
        font_size: Some(Decimal::spec_whole(24)),
        font_weight: Some("bold"@),
        margin_top: Some(Decimal::spec_whole(20)),
        margin_bottom: Some(Decimal::spec_whole(14)),
        ..StyleModel::empty()
    }
}

/// The built-in style of a third-level heading.
pub open spec fn default_h3() -> StyleModel {
    StyleModel {
        font_size: Some(Decimal::spec_whole(20)),
        font_weight: Some("bold"@),
        margin_top: Some(Decimal::spec_whole(16)),
        margin_bottom: Some(Decimal::spec_whole(12)),
        ..StyleModel::empty()
    }
}

/// The built-in style of a paragraph.
pub open spec fn default_p() -> StyleModel {
    StyleModel {
        font_size: Some(Decimal::spec_whole(16)),
        text_align: Some("justify"@),
        margin_bottom: Some(Decimal::spec_whole(12)),
        ..StyleModel::empty()
    }
}

/// The built-in style of emphasis.
pub open spec fn default_em() -> StyleModel {
    StyleModel {
        font_style: Some("italic"@),
        ..StyleModel::empty()
    }
}

/// The built-in style of strong emphasis.
pub open spec fn default_strong() -> StyleModel {
    StyleModel {
        font_weight: Some("bold"@),
        ..StyleModel::empty()
    }
}

/// The built-in style of a block quotation.
pub open spec fn default_blockquote() -> StyleModel {
    StyleModel {
        font_style: Some("italic"@),
        margin_top: Some(Decimal::spec_whole(16)),
        margin_bottom: Some(Decimal::spec_whole(16)),
        margin_left: Some(Decimal::spec_whole(24)),
        margin_right: Some(Decimal::spec_whole(24)),
        padding_left: Some(Decimal::spec_whole(16)),
        border_left_width: Some(Decimal::spec_whole(3)),
        border_left_color: Some("#cccccc"@),
        ..StyleModel::empty()
    }
}

/// The built-in style of centred text.
pub open spec fn default_center() -> StyleModel {
    StyleModel {
        text_align: Some("center"@),
        ..StyleModel::empty()
    }
}

/// The built-in styles, which a style sheet starts from: one entry for each
/// of `body`, `h1`, `h2`, `h3`, `p`, `em`, `strong`, `blockquote` and
/// `center`, in this order.
pub open spec fn default_sheet() -> SheetModel {
    seq![
        ("body"@, default_body()),
        ("h1"@, default_h1()),
        ("h2"@, default_h2()),
        ("h3"@, default_h3()),
        ("p"@, default_p()),
        ("em"@, default_em()),
        ("strong"@, default_strong()),
        ("blockquote"@, default_blockquote()),
        ("center"@, default_center()),
    ]
}

/// Builds the built-in style of the page body.
fn make_default_body() -> (out: RnStyles)
    ensures
        out@ == default_body(),
{
    let mut style = RnStyles::default();
    style.font_size = Some(Decimal::whole(16));
    style.font_family = Some("serif".to_owned());
    style.color = Some("#000000".to_owned());
    style.line_height = Some(Decimal::new(false, 15, 1));
    style.padding_top = Some(Decimal::whole(16));
    style.padding_bottom = Some(Decimal::whole(16));
    style.padding_left = Some(Decimal::whole(16));
    style.padding_right = Some(Decimal::whole(16));
    style
}

/// Builds the built-in style of a first-level heading.
fn make_default_h1() -> (out: RnStyles)
    ensures
        out@ == default_h1(),
{
    let mut style = RnStyles::default();
    style.font_size = Some(Decimal::whole(28));
    style.font_weight = Some("bold".to_owned());
    style.margin_top = Some(Decimal::whole(24));
    style.margin_bottom = Some(Decimal::whole(16));
    style
}

/// Builds the built-in style of a second-level heading.
fn make_default_h2() -> (out: RnStyles)
    ensures
        out@ == default_h2(),
{
    let mut style = RnStyles::default();
    style.font_size = Some(Decimal::whole(24));
    style.font_weight = Some("bold".to_owned());
    style.margin_top = Some(Decimal::whole(20));
    style.margin_bottom = Some(Decimal::whole(14));
    style
}

/// Builds the built-in style of a third-level heading.
fn make_default_h3() -> (out: RnStyles)
    ensures
        out@ == default_h3(),
{
    let mut style = RnStyles::default();
    style.font_size = Some(Decimal::whole(20));
    style.font_weight = Some("bold".to_owned());
    style.margin_top = Some(Decimal::whole(16));
    style.margin_bottom = Some(Decimal::whole(12));
    style
}

/// Builds the built-in style of a paragraph.
fn make_default_p() -> (out: RnStyles)
    ensures
        out@ == default_p(),
{
    let mut style = RnStyles::default();
    style.font_size = Some(Decimal::whole(16));
    style.text_align = Some("justify".to_owned());
    style.margin_bottom = Some(Decimal::whole(12));
    style
}

/// Builds the built-in style of emphasis.
fn make_default_em() -> (out: RnStyles)
    ensures
        out@ == default_em(),
{
    let mut style = RnStyles::default();
    style.font_style = Some("italic".to_owned());
    style
}

/// Builds the built-in style of strong emphasis.
fn make_default_strong() -> (out: RnStyles)
    ensures
        out@ == default_strong(),
{
    let mut style = RnStyles::default();
    style.font_weight = Some("bold".to_owned());
    style
}

/// Builds the built-in style of a block quotation.
fn make_default_blockquote() -> (out: RnStyles)
    ensures
        out@ == default_blockquote(),
{
    let mut style = RnStyles::default();
    style.font_style = Some("italic".to_owned());
    style.margin_top = Some(Decimal::whole(16));
    style.margin_bottom = Some(Decimal::whole(16));
    style.margin_left = Some(Decimal::whole(24));
    style.margin_right = Some(Decimal::whole(24));
    style.padding_left = Some(Decimal::whole(16));
    style.border_left_width = Some(Decimal::whole(3));
    style.border_left_color = Some("#cccccc".to_owned());
    style
}

/// Builds the built-in style of centred text.
fn make_default_center() -> (out: RnStyles)
    ensures
        out@ == default_center(),
{
    let mut style = RnStyles::default();
    style.text_align = Some("center".to_owned());
    style
}

/// The built-in styles that every style sheet starts from.
pub fn create_default_epub_styles() -> (out: StyleSheet)
    ensures
        out@ == default_sheet(),
        out.wf(),
{
    let mut entries: Vec<(String, RnStyles)> = Vec::new();
    entries.push(("body".to_owned(), make_default_body()));
    entries.push(("h1".to_owned(), make_default_h1()));
    entries.push(("h2".to_owned(), make_default_h2()));
    entries.push(("h3".to_owned(), make_default_h3()));
    entries.push(("p".to_owned(), make_default_p()));
    entries.push(("em".to_owned(), make_default_em()));
    entries.push(("strong".to_owned(), make_default_strong()));
    entries.push(("blockquote".to_owned(), make_default_blockquote()));
    entries.push(("center".to_owned(), make_default_center()));
    let out = TextMap { entries };
    assert(out@ =~= default_sheet());
    proof {
        lemma_default_sheet_keys();
    }
    out
}

/// The built-in styles have nine keys, and no two of them are equal.
pub proof fn lemma_default_sheet_keys()
    ensures
        default_sheet().len() == 9,
        distinct_keys(default_sheet()),
{
    reveal_strlit("body");
    reveal_strlit("h1");
    reveal_strlit("h2");
    reveal_strlit("h3");
    reveal_strlit("p");
    reveal_strlit("em");
    reveal_strlit("strong");
    reveal_strlit("blockquote");
    reveal_strlit("center");
    let sheet = default_sheet();
    assert forall|i: int, j: int| 0 <= i < sheet.len() && 0 <= j < sheet.len() && i != j implies (
    #[trigger] sheet[i]).0 != (#[trigger] sheet[j]).0 by {
        let a = sheet[i].0;
        let b = sheet[j].0;
        if a.len() == b.len() {
            assert(a[0] != b[0] || a[1] != b[1]);
        }
    }
}

/// The sheet `sheet` after the rules `rules` are entered in order: each
/// under the style name of its selector, with the record of its
/// declarations. A later rule replaces an earlier entry of the same name.
pub open spec fn sheet_with_rules(sheet: SheetModel, rules: Seq<(Seq<char>, Seq<char>)>)
    -> SheetModel
    decreases rules.len(),
{
    if rules.len() == 0 {
        sheet
    } else {
        inserted(
            sheet_with_rules(sheet, rules.drop_last()),
            style_name(rules.last().0),
            declared_style(rules.last().1),
        )
    }
}

/// The index of the last of the rules `rules` whose selector has the style
/// name `name`; -1 where there is none.
pub open spec fn last_rule_named(rules: Seq<(Seq<char>, Seq<char>)>, name: Seq<char>) -> int
    decreases rules.len(),
{
    if rules.len() == 0 {
        -1
    } else if style_name(rules.last().0) == name {
        rules.len() - 1
    } else {
        last_rule_named(rules.drop_last(), name)
    }
}

/// The last rule wins: after rules are entered into a sheet, a name maps to
/// the record of the last rule of that name, and a name that no rule has
/// maps to what it did before. Entering rules keeps the keys distinct.
pub proof fn lemma_last_rule_wins(
    sheet: SheetModel,
    rules: Seq<(Seq<char>, Seq<char>)>,
    name: Seq<char>,
)
    ensures
        -1 <= last_rule_named(rules, name) < rules.len(),
        lookup(sheet_with_rules(sheet, rules), name) == if last_rule_named(rules, name) >= 0 {
            Some(declared_style(rules[last_rule_named(rules, name)].1))
        } else {
            lookup(sheet, name)
        },
        distinct_keys(sheet) ==> distinct_keys(sheet_with_rules(sheet, rules)),
    decreases rules.len(),
{
    if rules.len() > 0 {
        lemma_last_rule_wins(sheet, rules.drop_last(), name);
        lemma_inserted(
            sheet_with_rules(sheet, rules.drop_last()),
            style_name(rules.last().0),
            declared_style(rules.last().1),
            name,
        );
    }
}

/// The style sheet that the CSS text `css` makes: the built-in styles, and
/// over them the rules of `css`.
pub open spec fn style_sheet(css: Seq<char>) -> SheetModel {
    sheet_with_rules(default_sheet(), css_rules(css))
}

/// Enters the rules `rules` into `sheet`, in order.
pub fn add_rules(sheet: &mut StyleSheet, rules: &Vec<(String, String)>)
    ensures
        final(sheet)@ == sheet_with_rules(old(sheet)@, pairs_view(rules@)),
        old(sheet).wf() ==> final(sheet).wf(),
{
    let ghost all = pairs_view(rules@);
    let mut i: usize = 0;
    assert(all.take(0) == Seq::<(Seq<char>, Seq<char>)>::empty());
    while i < rules.len()
        invariant
            i <= rules.len(),
            all == pairs_view(rules@),
            sheet@ == sheet_with_rules(old(sheet)@, all.take(i as int)),
            old(sheet).wf() ==> sheet.wf(),
        decreases rules.len() - i,
    {
        assert(all.take(i + 1).drop_last() == all.take(i as int));
        assert(all.take(i + 1).last() == (rules@[i as int].0@, rules@[i as int].1@));
        let style = parse_css_declarations(rules[i].1.as_str());
        let name = css_selector_to_style_name(rules[i].0.as_str());
        sheet.insert(name, style);
        i += 1;
    }
    assert(all.take(all.len() as int) == all);
}

/// Reads a style sheet: the built-in styles, and over them one entry for
/// each rule of `css`, in source order.
pub fn parse_css_to_rn_styles(css: &str) -> (out: StyleSheet)
    ensures
        out@ == style_sheet(css@),
        out.wf(),
{
    let mut styles = create_default_epub_styles();
    let rules = extract_css_rules(css);
    add_rules(&mut styles, &rules);
    styles
}

} // verus!
