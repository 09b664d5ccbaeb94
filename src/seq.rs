use vstd::prelude::*;

use crate::decimal::{decimal, push_decimal, decimal_string};
use crate::token::{
    copy_stream, copy_tree, lemma_group_stream, lemma_view_stream_concat, lemma_view_stream_push, make_group, view_stream, Delimiter,
    Ident, Tok, TokenTree,
};

verus! {

/// What went wrong in a range template.
#[derive(Clone, Copy, Debug, PartialEq, Eq, Structural)]
pub enum SeqErrorKind {
    /// The template does not start with the name of its variable.
    ExpectedIdent,
    /// The variable is not followed by the keyword `in`.
    ExpectedIn,
    /// A range bound is not an integer literal.
    ExpectedInteger,
    /// A range bound is a literal that is no integer literal, or whose value
    /// does not fit in `i64`.
    InvalidInteger,
    /// The bounds are not separated by `..` or `..=`.
    ExpectedRange,
    /// The range is not followed by a body in braces.
    ExpectedBody,
    /// Something follows the body.
    UnexpectedToken,
    /// A repetition marker in the body is malformed: `#( ... )` not followed
    /// by `*`, or `#` followed by a bracket, brace or invisible group and `*`.
    MalformedRepetition,
}

/// A positioned error: its kind and the source-position handle of the
/// offending token, or `None` where the input ended too early.
#[derive(Clone, Copy, Debug, PartialEq, Eq, Structural)]
pub struct Diagnostic {
    pub kind: SeqErrorKind,
    pub span: Option<usize>,
}

/// The mathematical value of a parsed range template.
pub struct TemplateView {
    pub var: Seq<char>,
    pub var_span: usize,
    pub start: int,
    pub end: int,
    pub inclusive: bool,
    pub body: Seq<Tok>,
}

/// `s` starts with `prefix # var`.
pub open spec fn starts_concat(s: Seq<Tok>, var: Seq<char>) -> bool {
    &&& s.len() >= 3
    &&& s[0] is Ident
    &&& s[1].is_punct('#')
    &&& s[2].is_ident_named(var)
}

/// `s` starts with a repetition group `# ( ... ) *`.
pub open spec fn starts_repetition(s: Seq<Tok>) -> bool {
    &&& s.len() >= 3
    &&& s[0].is_punct('#')
    &&& s[1].is_group_with(Delimiter::Parenthesis)
    &&& s[2].is_punct('*')
}

/// `s` starts with a malformed repetition marker: `# ( ... )` that is not
/// followed by `*`, or `#` followed by a group in other delimiters and `*`.
pub open spec fn starts_bad_marker(s: Seq<Tok>) -> bool {
    &&& s.len() >= 2
    &&& s[0].is_punct('#')
    &&& s[1] is Group
    &&& if s[1].is_group_with(Delimiter::Parenthesis) {
        !(s.len() >= 3 && s[2].is_punct('*'))
    } else {
        s.len() >= 3 && s[2].is_punct('*')
    }
}

/// The stream `s` with `value` substituted for `var`, scanning left to right:
/// `prefix # var` becomes the identifier `prefix` followed by the decimal digits
/// of `value`; a remaining `var` becomes the unsuffixed literal `value`; groups
/// are rewritten inside; all else is kept.
pub open spec fn subst(var: Seq<char>, value: int, s: Seq<Tok>) -> Seq<Tok>
    decreases s,
{
    if s.len() == 0 {
        Seq::empty()
    } else if starts_concat(s, var) {
        seq![Tok::Ident { name: s[0]->name + decimal(value), span: s[0].span() }] + subst(
            var,
            value,
            s.skip(3),
        )
    } else {
        let head = match s[0] {
            Tok::Group { delimiter, stream, span } => Tok::Group {
                delimiter,
                stream: subst(var, value, stream),
                span,
            },
            Tok::Ident { name, span } => if name == var {
                Tok::Literal { text: decimal(value), span }
            } else {
                s[0]
            },
            _ => s[0],
        };
        seq![head] + subst(var, value, s.skip(1))
    }
}

/// The number of values in the range from `start` to `end`.
pub open spec fn range_len(start: int, end: int, inclusive: bool) -> nat {
    let stop = if inclusive { end + 1 } else { end };
    if stop > start { (stop - start) as nat } else { 0 }
}

/// `n` copies of `body`, the `k`-th with `start + k` substituted for `var`.
pub open spec fn copies(var: Seq<char>, body: Seq<Tok>, start: int, n: nat) -> Seq<Tok>
    decreases n,
{
    if n == 0 {
        Seq::empty()
    } else {
        copies(var, body, start, (n - 1) as nat) + subst(var, start + n - 1, body)
    }
}

/// `s` holds a repetition group, at any depth.
pub open spec fn has_repetition(s: Seq<Tok>) -> bool
    decreases s,
{
    if s.len() == 0 {
        false
    } else if starts_repetition(s) {
        true
    } else {
        let inside = match s[0] {
            Tok::Group { stream, .. } => has_repetition(stream),
            _ => false,
        };
        inside || has_repetition(s.skip(1))
    }
}

/// The source position of the `#` of the first malformed repetition marker,
/// searching depth first, if any.
pub open spec fn first_malformed(s: Seq<Tok>) -> Option<usize>
    decreases s,
{
    if s.len() == 0 {
        None
    } else if starts_bad_marker(s) {
        Some(s[0].span())
    } else {
        let inside = match s[0] {
            Tok::Group { stream, .. } => first_malformed(stream),
            _ => None,
        };
        if inside is Some {
            inside
        } else {
            first_malformed(s.skip(1))
        }
    }
}

/// `s` with every repetition group `# ( inner ) *` replaced by the `n` copies
/// of `inner` over the range, and everything else kept once.
pub open spec fn local(var: Seq<char>, start: int, n: nat, s: Seq<Tok>) -> Seq<Tok>
    decreases s,
{
    if s.len() == 0 {
        Seq::empty()
    } else if starts_repetition(s) {
        copies(var, s[1]->stream, start, n) + local(var, start, n, s.skip(3))
    } else {
        let head = match s[0] {
            Tok::Group { delimiter, stream, span } => Tok::Group {
                delimiter,
                stream: local(var, start, n, stream),
                span,
            },
            _ => s[0],
        };
        seq![head] + local(var, start, n, s.skip(1))
    }
}

/// The position handle of `s[k]`, or `None` past the end of `s`.
pub open spec fn span_at(s: Seq<Tok>, k: int) -> Option<usize> {
    if 0 <= k < s.len() {
        Some(s[k].span())
    } else {
        None
    }
}

pub open spec fn error_at(kind: SeqErrorKind, s: Seq<Tok>, k: int) -> Diagnostic {
    Diagnostic { kind, span: span_at(s, k) }
}

/// The value of the integer literal spelled `text` (with a leading `-` for a
/// negated literal), or `None` where it is no integer literal that fits in
/// `i64`.
pub uninterp spec fn int_literal_value(text: Seq<char>) -> Option<i64>;

/// `t` is a non-empty run of ASCII decimal digits.
pub open spec fn is_digits(t: Seq<char>) -> bool {
    t.len() > 0 && forall|i: int| 0 <= i < t.len() ==> '0' <= #[trigger] t[i] <= '9'
}

/// The number that the decimal digits `t` spell.
pub open spec fn digits_value(t: Seq<char>) -> int
    decreases t.len(),
{
    if t.len() == 0 {
        0
    } else {
        digits_value(t.drop_last()) * 10 + (t.last() as int - '0' as int)
    }
}

/// `c` is a digit of `base`, which is 2, 8, 10 or 16.
pub open spec fn is_base_digit(c: char, base: u32) -> bool {
    if base == 16 {
        ('0' <= c <= '9') || ('a' <= c <= 'f') || ('A' <= c <= 'F')
    } else if base == 8 {
        '0' <= c <= '7'
    } else if base == 2 {
        c == '0' || c == '1'
    } else {
        '0' <= c <= '9'
    }
}

pub open spec fn is_run_char(c: char, base: u32) -> bool {
    is_base_digit(c, base) || c == '_'
}

/// The number of leading characters of `t` that are digits of `base` or
/// underscores.
pub open spec fn run_len(t: Seq<char>, base: u32) -> nat
    decreases t.len(),
{
    if t.len() > 0 && is_run_char(t[0], base) {
        1 + run_len(t.skip(1), base)
    } else {
        0
    }
}

pub open spec fn is_ascii_letter(c: char) -> bool {
    ('a' <= c <= 'z') || ('A' <= c <= 'Z')
}

/// `t` is a type suffix of a literal in `base`: an ASCII letter that is no
/// digit of `base` (and, in base 10, no exponent mark `e`), then ASCII
/// letters, digits and underscores.
pub open spec fn is_suffix(t: Seq<char>, base: u32) -> bool {
    &&& t.len() > 0
    &&& is_ascii_letter(t[0])
    &&& !is_base_digit(t[0], base)
    &&& !(base == 10 && (t[0] == 'e' || t[0] == 'E'))
    &&& forall|i: int|
        1 <= i < t.len() ==> is_ascii_letter(#[trigger] t[i]) || ('0' <= t[i] <= '9') || t[i]
            == '_'
}

/// `t` is a digit of `base`, then digits of `base` and underscores, then
/// possibly a type suffix.
pub open spec fn is_suffixed_run(t: Seq<char>, base: u32) -> bool {
    let n = run_len(t, base);
    &&& t.len() > 0
    &&& is_base_digit(t[0], base)
    &&& (n == t.len() || is_suffix(t.skip(n as int), base))
}

/// `t` starts with the base prefix `0x`, `0o` or `0b`.
pub open spec fn has_base_prefix(t: Seq<char>) -> bool {
    t.len() >= 2 && t[0] == '0' && (t[1] == 'x' || t[1] == 'o' || t[1] == 'b')
}

/// `t` has the base prefix `0` then `p`, followed by a suffixed run of `base`.
pub open spec fn is_prefixed_run(t: Seq<char>, p: char, base: u32) -> bool {
    t.len() >= 2 && t[0] == '0' && t[1] == p && is_suffixed_run(t.skip(2), base)
}

/// The integer literals read as range bounds: decimal digits, or `0x`, `0o`,
/// `0b` followed by digits of that base, with underscores after the first
/// digit, and possibly a type suffix such as `u8`.
pub open spec fn is_unsigned_int_form(t: Seq<char>) -> bool {
    (is_suffixed_run(t, 10) && !has_base_prefix(t)) || is_prefixed_run(t, 'x', 16)
        || is_prefixed_run(t, 'o', 8) || is_prefixed_run(t, 'b', 2)
}

/// `t` is such a literal, possibly after a `-`.
pub open spec fn is_int_form(t: Seq<char>) -> bool {
    is_unsigned_int_form(t) || (t.len() > 0 && t[0] == '-' && is_unsigned_int_form(t.skip(1)))
}

/// `t` is decimal digits without underscores, possibly followed by a type
/// suffix.
pub open spec fn is_plain_decimal(t: Seq<char>) -> bool {
    let n = run_len(t, 10);
    &&& n > 0
    &&& is_digits(t.take(n as int))
    &&& !has_base_prefix(t)
    &&& (n == t.len() || is_suffix(t.skip(n as int), 10))
}

/// The number that the digits of a plain decimal literal spell.
pub open spec fn plain_decimal_value(t: Seq<char>) -> int {
    digits_value(t.take(run_len(t, 10) as int))
}

fn base_digit(c: char, base: u32) -> (r: bool)
    ensures
        r == is_base_digit(c, base),
{
    if base == 16 {
        ('0' <= c && c <= '9') || ('a' <= c && c <= 'f') || ('A' <= c && c <= 'F')
    } else if base == 8 {
        '0' <= c && c <= '7'
    } else if base == 2 {
        c == '0' || c == '1'
    } else {
        '0' <= c && c <= '9'
    }
}

/// The index after the run of digits of `base` and underscores that starts
/// at `from`.
fn run_end(t: &str, from: usize, base: u32) -> (r: usize)
    requires
        from <= t@.len(),
    ensures
        from <= r <= t@.len(),
        r - from == run_len(t@.skip(from as int), base),
{
    let n = t.unicode_len();
    let mut i: usize = from;
    while i < n
        invariant
            n == t@.len(),
            from <= i <= n,
            run_len(t@.skip(from as int), base) == (i - from) + run_len(t@.skip(i as int), base),
        decreases n - i,
    {
        let c = t.get_char(i);
        assert(t@.skip(i as int)[0] == c);
        if !(base_digit(c, base) || c == '_') {
            return i;
        }
        assert(t@.skip(i as int).skip(1) =~= t@.skip(i + 1));
        i = i + 1;
    }
    assert(t@.skip(i as int).len() == 0);
    i
}

/// Whether `t` from index `from` on is a type suffix of a literal in `base`.
fn suffix_at(t: &str, from: usize, base: u32) -> (r: bool)
    requires
        from <= t@.len(),
    ensures
        r == is_suffix(t@.skip(from as int), base),
{
    let ghost u = t@.skip(from as int);
    let n = t.unicode_len();
    if from >= n {
        return false;
    }
    let c = t.get_char(from);
    assert(u[0] == c);
    let letter = ('a' <= c && c <= 'z') || ('A' <= c && c <= 'Z');
    if !letter || base_digit(c, base) || (base == 10 && (c == 'e' || c == 'E')) {
        return false;
    }
    let mut i: usize = from + 1;
    while i < n
        invariant
            n == t@.len(),
            from < i <= n,
            u == t@.skip(from as int),
            forall|j: int|
                1 <= j < i - from ==> is_ascii_letter(#[trigger] u[j]) || ('0' <= u[j] <= '9')
                    || u[j] == '_',
        decreases n - i,
    {
        let d = t.get_char(i);
        assert(u[i - from] == d);
        if !(('a' <= d && d <= 'z') || ('A' <= d && d <= 'Z') || ('0' <= d && d <= '9') || d
            == '_') {
            return false;
        }
        i = i + 1;
    }
    true
}

/// Whether `t` from index `from` on is a suffixed run of `base`.
fn suffixed_run(t: &str, from: usize, base: u32) -> (r: bool)
    requires
        from <= t@.len(),
    ensures
        r == is_suffixed_run(t@.skip(from as int), base),
{
    let ghost u = t@.skip(from as int);
    let n = t.unicode_len();
    if from >= n || !base_digit(t.get_char(from), base) {
        return false;
    }
    assert(u[0] == t@[from as int]);
    let e = run_end(t, from, base);
    assert(u.skip((e - from) as int) =~= t@.skip(e as int));
    e == n || suffix_at(t, e, base)
}

/// Whether `t` from index `from` on starts with a base prefix.
fn base_prefix(t: &str, from: usize) -> (r: bool)
    requires
        from <= t@.len(),
    ensures
        r == has_base_prefix(t@.skip(from as int)),
{
    let n = t.unicode_len();
    if n - from < 2 || t.get_char(from) != '0' {
        return false;
    }
    let p = t.get_char(from + 1);
    p == 'x' || p == 'o' || p == 'b'
}

/// Whether `t` from index `from` on is an unsigned integer literal form.
fn unsigned_int_form(t: &str, from: usize) -> (r: bool)
    requires
        from <= t@.len(),
    ensures
        r == is_unsigned_int_form(t@.skip(from as int)),
{
    let ghost u = t@.skip(from as int);
    let n = t.unicode_len();
    if base_prefix(t, from) {
        assert(n - from >= 2);
        let p = t.get_char(from + 1);
        assert(u[0] == '0' && u[1] == p);
        assert(u.skip(2) =~= t@.skip(from + 2));
        if p == 'x' {
            suffixed_run(t, from + 2, 16)
        } else if p == 'o' {
            suffixed_run(t, from + 2, 8)
        } else {
            suffixed_run(t, from + 2, 2)
        }
    } else {
        suffixed_run(t, from, 10)
    }
}

/// Whether `t` is an integer literal form, possibly after a `-`.
fn int_form(t: &str) -> (r: bool)
    ensures
        r == is_int_form(t@),
{
    assert(t@.skip(0) =~= t@);
    if unsigned_int_form(t, 0) {
        return true;
    }
    let n = t.unicode_len();
    if n > 0 && t.get_char(0) == '-' {
        unsigned_int_form(t, 1)
    } else {
        false
    }
}

/// Relies on `syn::parse_str::<syn::LitInt>` followed by
/// `syn::LitInt::base10_parse::<i64>`: the value of an integer literal. For
/// decimal digits, with or without a type suffix, that is their number, and
/// its negation after a leading `-`; there is no value where the number does
/// not fit in `i64`. The text is of a form that syn reads as an integer
/// literal, so that syn never meets a literal it cannot classify.
#[verifier::external_body]
fn lit_int_value(text: &str) -> (r: Option<i64>)
    requires
        is_int_form(text@),
    ensures
        r == int_literal_value(text@),
        is_plain_decimal(text@) ==> r == (if plain_decimal_value(text@) <= i64::MAX {
            Some(plain_decimal_value(text@) as i64)
        } else {
            None
        }),
        text@.len() > 0 && text@[0] == '-' && is_plain_decimal(text@.skip(1)) ==> r == (
        if plain_decimal_value(text@.skip(1)) <= i64::MAX + 1 {
            Some((-plain_decimal_value(text@.skip(1))) as i64)
        } else {
            None
        }),
{
    match syn::parse_str::<syn::LitInt>(text) {
        Ok(lit) => lit.base10_parse::<i64>().ok(),
        Err(_) => None,
    }
}

/// The value of the bound spelled `text`: an error at `span` where `text`
/// is no integer literal form or its value does not fit in `i64`. Decimal
/// digits, with or without a suffix and a leading `-`, mean their number.
pub open spec fn literal_bound(text: Seq<char>, span: usize) -> Result<i64, Diagnostic> {
    let invalid = Diagnostic { kind: SeqErrorKind::InvalidInteger, span: Some(span) };
    if !is_int_form(text) {
        Err(invalid)
    } else if is_plain_decimal(text) {
        if plain_decimal_value(text) <= i64::MAX {
            Ok(plain_decimal_value(text) as i64)
        } else {
            Err(invalid)
        }
    } else if text.len() > 0 && text[0] == '-' && is_plain_decimal(text.skip(1)) {
        if plain_decimal_value(text.skip(1)) <= i64::MAX + 1 {
            Ok((-plain_decimal_value(text.skip(1))) as i64)
        } else {
            Err(invalid)
        }
    } else {
        match int_literal_value(text) {
            Some(v) => Ok(v),
            None => Err(invalid),
        }
    }
}

fn read_literal_bound(text: &str, span: usize) -> (r: Result<i64, Diagnostic>)
    ensures
        r == literal_bound(text@, span),
{
    if !int_form(text) {
        return Err(Diagnostic { kind: SeqErrorKind::InvalidInteger, span: Some(span) });
    }
    match lit_int_value(text) {
        Some(v) => Ok(v),
        None => Err(Diagnostic { kind: SeqErrorKind::InvalidInteger, span: Some(span) }),
    }
}

/// A range bound starting at `s[k]`: an integer literal, or `-` and one.
/// Gives its value and the index after it.
pub open spec fn bound_at(s: Seq<Tok>, k: int) -> Result<(i64, int), Diagnostic> {
    if 0 <= k && k + 1 < s.len() && s[k].is_punct('-') && s[k + 1] is Literal {
        match literal_bound(seq!['-'] + s[k + 1]->text, s[k + 1].span()) {
            Ok(v) => Ok((v, k + 2)),
            Err(e) => Err(e),
        }
    } else if 0 <= k < s.len() && s[k] is Literal {
        match literal_bound(s[k]->text, s[k].span()) {
            Ok(v) => Ok((v, k + 1)),
            Err(e) => Err(e),
        }
    } else {
        Err(error_at(SeqErrorKind::ExpectedInteger, s, k))
    }
}

/// `t` is the punctuation character `c`, joined to the next one.
pub open spec fn is_joint(t: Tok, c: char) -> bool {
    t matches Tok::Punct { ch, joint, .. } && ch == c && joint
}

/// The range operator starting at `s[k]`: `..=` (inclusive) or `..`.
/// Gives whether it is inclusive and the index after it.
pub open spec fn range_op_at(s: Seq<Tok>, k: int) -> Result<(bool, int), Diagnostic> {
    if 0 <= k && k + 2 < s.len() && is_joint(s[k], '.') && is_joint(s[k + 1], '.') && s[k
        + 2].is_punct('=') {
        Ok((true, k + 3))
    } else if 0 <= k && k + 1 < s.len() && is_joint(s[k], '.') && s[k + 1].is_punct('.') {
        Ok((false, k + 2))
    } else {
        Err(error_at(SeqErrorKind::ExpectedRange, s, k))
    }
}

/// The template that `s` spells, `var in start..end { body }` (or `..=`),
/// or the first error in it.
pub open spec fn parse_template(s: Seq<Tok>) -> Result<TemplateView, Diagnostic> {
    if !(s.len() > 0 && s[0] is Ident) {
        Err(error_at(SeqErrorKind::ExpectedIdent, s, 0))
    } else if !(s.len() > 1 && s[1].is_ident_named("in"@)) {
        Err(error_at(SeqErrorKind::ExpectedIn, s, 1))
    } else {
        match bound_at(s, 2) {
            Err(e) => Err(e),
            Ok((start, k1)) => match range_op_at(s, k1) {
                Err(e) => Err(e),
                Ok((inclusive, k2)) => match bound_at(s, k2) {
                    Err(e) => Err(e),
                    Ok((end, k3)) => if !(k3 < s.len() && s[k3].is_group_with(
                        Delimiter::Brace,
                    )) {
                        Err(error_at(SeqErrorKind::ExpectedBody, s, k3))
                    } else if k3 + 1 < s.len() {
                        Err(error_at(SeqErrorKind::UnexpectedToken, s, k3 + 1))
                    } else {
                        Ok(
                            TemplateView {
                                var: s[0]->name,
                                var_span: s[0].span(),
                                start: start as int,
                                end: end as int,
                                inclusive,
                                body: s[k3]->stream,
                            },
                        )
                    },
                },
            },
        }
    }
}

/// What a range-template invocation spelled `s` expands to.
pub open spec fn seq_output(s: Seq<Tok>) -> Result<Seq<Tok>, Diagnostic> {
    match parse_template(s) {
        Err(e) => Err(e),
        Ok(t) => expansion(t),
    }
}

fn span_of(tokens: &Vec<TokenTree>, k: usize) -> (r: Option<usize>)
    ensures
        r == span_at(view_stream(tokens@), k as int),
{
    if k < tokens.len() {
        Some(tokens[k].span())
    } else {
        None
    }
}

fn joint_at(tokens: &Vec<TokenTree>, k: usize, c: char) -> (r: bool)
    requires
        k < tokens@.len(),
    ensures
        r == is_joint(view_stream(tokens@)[k as int], c),
{
    match &tokens[k] {
        TokenTree::Punct { ch, joint, .. } => *ch == c && *joint,
        _ => false,
    }
}

/// Reads the range bound at `tokens[k]`.
fn parse_bound(tokens: &Vec<TokenTree>, k: usize) -> (r: Result<(i64, usize), Diagnostic>)
    requires
        k <= tokens@.len(),
    ensures
        match r {
            Ok((v, next)) => bound_at(view_stream(tokens@), k as int) == Ok::<(i64, int), Diagnostic>((v, next as int)) && next <= tokens@.len(),
            Err(e) => bound_at(view_stream(tokens@), k as int) == Err::<(i64, int), Diagnostic>(e),
        },
{
    let ghost s = view_stream(tokens@);
    if tokens.len() - k > 1 && tokens[k].is_punct('-') {
        if let TokenTree::Literal { text, span } = &tokens[k + 1] {
            proof {
                reveal_strlit("-");
            }
            let mut neg = String::from_str("-");
            neg.append(text.as_str());
            assert(neg@ =~= seq!['-'] + s[k + 1]->text);
            return match read_literal_bound(neg.as_str(), *span) {
                Ok(v) => Ok((v, k + 2)),
                Err(e) => Err(e),
            };
        }
    }
    if k < tokens.len() {
        if let TokenTree::Literal { text, span } = &tokens[k] {
            return match read_literal_bound(text.as_str(), *span) {
                Ok(v) => Ok((v, k + 1)),
                Err(e) => Err(e),
            };
        }
    }
    Err(Diagnostic { kind: SeqErrorKind::ExpectedInteger, span: span_of(tokens, k) })
}

/// Reads the range operator at `tokens[k]`.
fn parse_range_op(tokens: &Vec<TokenTree>, k: usize) -> (r: Result<(bool, usize), Diagnostic>)
    requires
        k <= tokens@.len(),
    ensures
        match r {
            Ok((inclusive, next)) => range_op_at(view_stream(tokens@), k as int) == Ok::<(bool, int), Diagnostic>((inclusive, next as int)) && next <= tokens@.len(),
            Err(e) => range_op_at(view_stream(tokens@), k as int) == Err::<(bool, int), Diagnostic>(e),
        },
{
    if tokens.len() - k > 2 && joint_at(tokens, k, '.') && joint_at(tokens, k + 1, '.')
        && tokens[k + 2].is_punct('=') {
        Ok((true, k + 3))
    } else if tokens.len() - k > 1 && joint_at(tokens, k, '.') && tokens[k + 1].is_punct('.') {
        Ok((false, k + 2))
    } else {
        Err(Diagnostic { kind: SeqErrorKind::ExpectedRange, span: span_of(tokens, k) })
    }
}

/// A parsed range template: `var in start..end { body }`, or `..=` when
/// `inclusive`.
#[derive(Debug)]
pub struct SeqTemplate {
    pub var: Ident,
    pub start: i64,
    pub end: i64,
    pub inclusive: bool,
    pub body: Vec<TokenTree>,
}

proof fn lemma_skip_step(s: Seq<Tok>, i: int, k: int)
    requires
        0 <= i,
        0 < k,
        i + k <= s.len(),
    ensures
        s.skip(i).skip(k) == s.skip(i + k),
        s.skip(i)[0] == s[i],
        k >= 2 ==> s.skip(i)[1] == s[i + 1],
        k >= 3 ==> s.skip(i)[2] == s[i + 2],
        s.skip(i).len() == s.len() - i,
{
    assert(s.skip(i).skip(k) =~= s.skip(i + k));
}

proof fn lemma_stream_index(tokens: Seq<TokenTree>, i: int)
    requires
        0 <= i < tokens.len(),
    ensures
        view_stream(tokens)[i] == tokens[i]@,
        view_stream(tokens).len() == tokens.len(),
{
}

impl SeqTemplate {
    /// Parses `var in start..end { body }` (or `..=`), reporting the first
    /// token that breaks that form.
    pub fn parse(tokens: &Vec<TokenTree>) -> (r: Result<SeqTemplate, Diagnostic>)
        ensures
            match r {
                Ok(t) => parse_template(view_stream(tokens@)) == Ok::<TemplateView, Diagnostic>(t@),
                Err(e) => parse_template(view_stream(tokens@)) == Err::<TemplateView, Diagnostic>(e),
            },
    {
        let ghost s = view_stream(tokens@);
        if tokens.len() == 0 || !matches!(tokens[0], TokenTree::Ident(_)) {
            return Err(Diagnostic { kind: SeqErrorKind::ExpectedIdent, span: span_of(tokens, 0) });
        }
        proof {
            reveal_strlit("in");
        }
        let keyword = String::from_str("in");
        if tokens.len() < 2 || !tokens[1].is_ident_named(&keyword) {
            return Err(Diagnostic { kind: SeqErrorKind::ExpectedIn, span: span_of(tokens, 1) });
        }
        let (start, k1) = match parse_bound(tokens, 2) {
            Ok(b) => b,
            Err(e) => return Err(e),
        };
        let (inclusive, k2) = match parse_range_op(tokens, k1) {
            Ok(b) => b,
            Err(e) => return Err(e),
        };
        let (end, k3) = match parse_bound(tokens, k2) {
            Ok(b) => b,
            Err(e) => return Err(e),
        };
        if k3 >= tokens.len() || !tokens[k3].is_group_with(Delimiter::Brace) {
            return Err(Diagnostic { kind: SeqErrorKind::ExpectedBody, span: span_of(tokens, k3) });
        }
        if tokens.len() - k3 > 1 {
            return Err(
                Diagnostic { kind: SeqErrorKind::UnexpectedToken, span: Some(tokens[k3 + 1].span()) },
            );
        }
        let var = match &tokens[0] {
            TokenTree::Ident(id) => id.copy(),
            _ => Ident { name: String::new(), span: 0 },
        };
        let body = match &tokens[k3] {
            TokenTree::Group { stream, .. } => {
                proof {
                    lemma_group_stream(tokens@[k3 as int]);
                }
                copy_stream(stream)
            },
            _ => Vec::new(),
        };
        Ok(SeqTemplate { var, start, end, inclusive, body })
    }

    pub open spec fn view(&self) -> TemplateView {
        TemplateView {
            var: self.var.name@,
            var_span: self.var.span,
            start: self.start as int,
            end: self.end as int,
            inclusive: self.inclusive,
            body: view_stream(self.body@),
        }
    }

    /// Substitutes `value` for the template's variable in `tokens`.
    pub fn inner_expand(&self, value: i64, tokens: &Vec<TokenTree>) -> (r: Vec<TokenTree>)
        ensures
            view_stream(r@) == subst(self.var.name@, value as int, view_stream(tokens@)),
        decreases view_stream(tokens@),
    {
        let ghost var = self.var.name@;
        let ghost s = view_stream(tokens@);
        let mut out: Vec<TokenTree> = Vec::new();
        let mut i: usize = 0;
        assert(s.skip(0) =~= s);
        while i < tokens.len()
            invariant
                s == view_stream(tokens@),
                var == self.var.name@,
                i <= tokens@.len(),
                view_stream(out@) + subst(var, value as int, s.skip(i as int)) == subst(
                    var,
                    value as int,
                    s,
                ),
            decreases tokens@.len() - i,
        {
            let ghost rest = s.skip(i as int);
            let ghost before = out@;
            if tokens.len() - i > 2 && matches!(tokens[i], TokenTree::Ident(_)) && tokens[i
                + 1].is_punct('#') && tokens[i + 2].is_ident_named(&self.var.name) {
                proof {
                    lemma_skip_step(s, i as int, 3);
                    lemma_stream_index(tokens@, i as int);
                    lemma_stream_index(tokens@, i + 1);
                    lemma_stream_index(tokens@, i + 2);
                }
                if let TokenTree::Ident(prefix) = &tokens[i] {
                    let mut name = prefix.name.clone();
                    push_decimal(&mut name, value);
                    let t = TokenTree::Ident(Ident { name, span: prefix.span });
                    out.push(t);
                    proof {
                        lemma_view_stream_push(before, t);
                        assert(starts_concat(rest, var));
                        assert(seq![t@] + subst(var, value as int, s.skip(i + 3)) =~= subst(
                            var,
                            value as int,
                            rest,
                        ));
                        assert(view_stream(out@) + subst(var, value as int, s.skip(i + 3))
                            =~= view_stream(before) + subst(var, value as int, rest));
                    }
                }
                i = i + 3;
            } else {
                proof {
                    lemma_skip_step(s, i as int, 1);
                    lemma_stream_index(tokens@, i as int);
                    if tokens.len() - i > 2 {
                        lemma_stream_index(tokens@, i + 1);
                        lemma_stream_index(tokens@, i + 2);
                        lemma_skip_step(s, i as int, 3);
                    }
                    assert(!starts_concat(rest, var));
                }
                let t = match &tokens[i] {
                    TokenTree::Group { delimiter, stream, span } => {
                        proof {
                            lemma_group_stream(tokens@[i as int]);
                            assert(decreases_to!(s => s[i as int]));
                        }
                        let inner = self.inner_expand(value, stream);
                        make_group(*delimiter, inner, *span)
                    },
                    TokenTree::Ident(id) => {
                        if id.name == self.var.name {
                            TokenTree::Literal { text: decimal_string(value), span: id.span }
                        } else {
                            copy_tree(&tokens[i])
                        }
                    },
                    _ => copy_tree(&tokens[i]),
                };
                out.push(t);
                proof {
                    lemma_view_stream_push(before, t);
                    assert(seq![t@] + subst(var, value as int, s.skip(i + 1)) =~= subst(
                        var,
                        value as int,
                        rest,
                    ));
                    assert(view_stream(out@) + subst(var, value as int, s.skip(i + 1))
                        =~= view_stream(before) + subst(var, value as int, rest));
                }
                i = i + 1;
            }
        }
        assert(s.skip(i as int) =~= Seq::<Tok>::empty());
        assert(view_stream(out@) =~= view_stream(out@) + subst(var, value as int, s.skip(i as int)));
        out
    }

    /// The body copies over the whole range, in ascending order of value.
    pub fn expand_range(&self, tokens: &Vec<TokenTree>) -> (r: Vec<TokenTree>)
        ensures
            view_stream(r@) == copies(
                self.var.name@,
                view_stream(tokens@),
                self.start as int,
                range_len(self.start as int, self.end as int, self.inclusive),
            ),
    {
        let ghost var = self.var.name@;
        let ghost body = view_stream(tokens@);
        let stop: i128 = if self.inclusive { self.end as i128 + 1 } else { self.end as i128 };
        let mut value: i128 = self.start as i128;
        let mut out: Vec<TokenTree> = Vec::new();
        while value < stop
            invariant
                var == self.var.name@,
                body == view_stream(tokens@),
                stop == (if self.inclusive { self.end as int + 1 } else { self.end as int }),
                self.start <= value,
                value <= stop || value == self.start,
                view_stream(out@) == copies(var, body, self.start as int, (value - self.start) as nat),
            decreases stop - value,
        {
            let ghost before = out@;
            let mut piece = self.inner_expand(value as i64, tokens);
            let ghost p = piece@;
            out.append(&mut piece);
            proof {
                lemma_view_stream_concat(before, p);
            }
            value = value + 1;
        }
        out
    }

    /// Whether `tokens` holds a repetition group `# ( ... ) *`, at any depth.
    pub fn has_repetition(tokens: &Vec<TokenTree>) -> (r: bool)
        ensures
            r == has_repetition(view_stream(tokens@)),
        decreases view_stream(tokens@),
    {
        let ghost s = view_stream(tokens@);
        let mut i: usize = 0;
        assert(s.skip(0) =~= s);
        while i < tokens.len()
            invariant
                s == view_stream(tokens@),
                i <= tokens@.len(),
                has_repetition(s) == has_repetition(s.skip(i as int)),
            decreases tokens@.len() - i,
        {
            let ghost rest = s.skip(i as int);
            proof {
                lemma_skip_step(s, i as int, 1);
                lemma_stream_index(tokens@, i as int);
                if tokens.len() - i > 2 {
                    lemma_stream_index(tokens@, i + 1);
                    lemma_stream_index(tokens@, i + 2);
                    lemma_skip_step(s, i as int, 3);
                }
            }
            if tokens.len() - i > 2 && tokens[i].is_punct('#') && tokens[i + 1].is_group_with(
                Delimiter::Parenthesis,
            ) && tokens[i + 2].is_punct('*') {
                return true;
            }
            assert(!starts_repetition(rest));
            if let TokenTree::Group { stream, .. } = &tokens[i] {
                proof {
                    lemma_group_stream(tokens@[i as int]);
                    assert(decreases_to!(s => s[i as int]));
                }
                if Self::has_repetition(stream) {
                    return true;
                }
            }
            i = i + 1;
        }
        assert(s.skip(i as int) =~= Seq::<Tok>::empty());
        false
    }

    /// The position of the `#` of the first malformed repetition marker in
    /// `tokens`, searching depth first.
    pub fn first_malformed(tokens: &Vec<TokenTree>) -> (r: Option<usize>)
        ensures
            r == first_malformed(view_stream(tokens@)),
        decreases view_stream(tokens@),
    {
        let ghost s = view_stream(tokens@);
        let mut i: usize = 0;
        assert(s.skip(0) =~= s);
        while i < tokens.len()
            invariant
                s == view_stream(tokens@),
                i <= tokens@.len(),
                first_malformed(s) == first_malformed(s.skip(i as int)),
            decreases tokens@.len() - i,
        {
            let ghost rest = s.skip(i as int);
            proof {
                lemma_skip_step(s, i as int, 1);
                lemma_stream_index(tokens@, i as int);
                if tokens.len() - i > 1 {
                    lemma_stream_index(tokens@, i + 1);
                    lemma_skip_step(s, i as int, 2);
                }
                if tokens.len() - i > 2 {
                    lemma_stream_index(tokens@, i + 2);
                    lemma_skip_step(s, i as int, 3);
                }
            }
            if tokens.len() - i > 1 && tokens[i].is_punct('#') && matches!(
                tokens[i + 1],
                TokenTree::Group { .. },
            ) {
                let star = tokens.len() - i > 2 && tokens[i + 2].is_punct('*');
                if tokens[i + 1].is_group_with(Delimiter::Parenthesis) != star {
                    return Some(tokens[i].span());
                }
            }
            assert(!starts_bad_marker(rest));
            if let TokenTree::Group { stream, .. } = &tokens[i] {
                proof {
                    lemma_group_stream(tokens@[i as int]);
                    assert(decreases_to!(s => s[i as int]));
                }
                let inside = Self::first_malformed(stream);
                if inside.is_some() {
                    return inside;
                }
            }
            i = i + 1;
        }
        assert(s.skip(i as int) =~= Seq::<Tok>::empty());
        None
    }

    /// `tokens` with each repetition group `# ( inner ) *` replaced by the
    /// copies of `inner` over the range; all else is kept once.
    pub fn expand_repetitions(&self, tokens: &Vec<TokenTree>) -> (r: Vec<TokenTree>)
        requires
            first_malformed(view_stream(tokens@)) is None,
        ensures
            view_stream(r@) == local(
                self.var.name@,
                self.start as int,
                range_len(self.start as int, self.end as int, self.inclusive),
                view_stream(tokens@),
            ),
        decreases view_stream(tokens@),
    {
        let ghost var = self.var.name@;
        let ghost n = range_len(self.start as int, self.end as int, self.inclusive);
        let ghost s = view_stream(tokens@);
        let mut out: Vec<TokenTree> = Vec::new();
        let mut i: usize = 0;
        assert(s.skip(0) =~= s);
        while i < tokens.len()
            invariant
                s == view_stream(tokens@),
                var == self.var.name@,
                n == range_len(self.start as int, self.end as int, self.inclusive),
                i <= tokens@.len(),
                first_malformed(s.skip(i as int)) is None,
                view_stream(out@) + local(var, self.start as int, n, s.skip(i as int)) == local(
                    var,
                    self.start as int,
                    n,
                    s,
                ),
            decreases tokens@.len() - i,
        {
            let ghost rest = s.skip(i as int);
            let ghost before = out@;
            proof {
                lemma_skip_step(s, i as int, 1);
                lemma_stream_index(tokens@, i as int);
                if tokens.len() - i > 2 {
                    lemma_stream_index(tokens@, i + 1);
                    lemma_stream_index(tokens@, i + 2);
                    lemma_skip_step(s, i as int, 3);
                }
            }
            if tokens.len() - i > 2 && tokens[i].is_punct('#') && tokens[i + 1].is_group_with(
                Delimiter::Parenthesis,
            ) && tokens[i + 2].is_punct('*') {
                if let TokenTree::Group { stream, .. } = &tokens[i + 1] {
                    proof {
                        lemma_group_stream(tokens@[i + 1]);
                    }
                    proof {
                        let t1 = rest.skip(1);
                        let t2 = t1.skip(1);
                        assert(t1 =~= s.skip(i + 1));
                        assert(t2 =~= s.skip(i + 2));
                        assert(t2.skip(1) =~= s.skip(i + 3));
                        assert(!starts_bad_marker(rest));
                        assert(first_malformed(t1) is None);
                        assert(!starts_bad_marker(t1));
                        assert(first_malformed(t2) is None);
                        assert(!starts_bad_marker(t2));
                        assert(first_malformed(s.skip(i + 3)) is None);
                    }
                    let mut piece = self.expand_range(stream);
                    let ghost p = piece@;
                    out.append(&mut piece);
                    proof {
                        lemma_view_stream_concat(before, p);
                        assert(starts_repetition(rest));
                        assert(view_stream(out@) + local(var, self.start as int, n, s.skip(i + 3))
                            =~= view_stream(before) + local(var, self.start as int, n, rest));
                    }
                }
                i = i + 3;
            } else {
                assert(!starts_repetition(rest));
                assert(first_malformed(s.skip(i + 1)) is None);
                let t = match &tokens[i] {
                    TokenTree::Group { delimiter, stream, span } => {
                        proof {
                            lemma_group_stream(tokens@[i as int]);
                            assert(decreases_to!(s => s[i as int]));
                        }
                        assert(first_malformed(s[i as int]->stream) is None);
                        let inner = self.expand_repetitions(stream);
                        make_group(*delimiter, inner, *span)
                    },
                    _ => copy_tree(&tokens[i]),
                };
                out.push(t);
                proof {
                    lemma_view_stream_push(before, t);
                    assert(seq![t@] + local(var, self.start as int, n, s.skip(i + 1)) =~= local(
                        var,
                        self.start as int,
                        n,
                        rest,
                    ));
                    assert(view_stream(out@) + local(var, self.start as int, n, s.skip(i + 1))
                        =~= view_stream(before) + local(var, self.start as int, n, rest));
                }
                i = i + 1;
            }
        }
        assert(s.skip(i as int) =~= Seq::<Tok>::empty());
        assert(view_stream(out@) =~= view_stream(out@) + local(
            var,
            self.start as int,
            n,
            s.skip(i as int),
        ));
        out
    }

    /// Expands the template: an error at the first malformed repetition
    /// marker; else, where the body holds a repetition group, only such groups
    /// are repeated; else the whole body is repeated once per value.
    pub fn expand(&self) -> (r: Result<Vec<TokenTree>, Diagnostic>)
        ensures
            match r {
                Ok(out) => expansion(self@) == Ok::<Seq<Tok>, Diagnostic>(view_stream(out@)),
                Err(e) => expansion(self@) == Err::<Seq<Tok>, Diagnostic>(e),
            },
    {
        match Self::first_malformed(&self.body) {
            Some(span) => Err(Diagnostic { kind: SeqErrorKind::MalformedRepetition, span: Some(span) }),
            None => {
                if Self::has_repetition(&self.body) {
                    Ok(self.expand_repetitions(&self.body))
                } else {
                    Ok(self.expand_range(&self.body))
                }
            },
        }
    }
}

/// The output of a parsed template: an error at the first malformed
/// repetition marker, else the localized or the whole-body expansion.
pub open spec fn expansion(t: TemplateView) -> Result<Seq<Tok>, Diagnostic> {
    let n = range_len(t.start, t.end, t.inclusive);
    match first_malformed(t.body) {
        Some(p) => Err(Diagnostic { kind: SeqErrorKind::MalformedRepetition, span: Some(p) }),
        None => Ok(
            if has_repetition(t.body) {
                local(t.var, t.start, n, t.body)
            } else {
                copies(t.var, t.body, t.start, n)
            },
        ),
    }
}

/// The substituted copies of the body, one per value of the range, in
/// ascending order of value.
pub open spec fn body_copies(t: TemplateView) -> Seq<Seq<Tok>> {
    Seq::new(range_len(t.start, t.end, t.inclusive), |k: int| subst(t.var, t.start + k, t.body))
}

proof fn lemma_copies_flatten(var: Seq<char>, body: Seq<Tok>, start: int, n: nat)
    ensures
        copies(var, body, start, n) == Seq::new(n, |k: int| subst(var, start + k, body)).flatten_alt(),
    decreases n,
{
    let all = Seq::new(n, |k: int| subst(var, start + k, body));
    if n > 0 {
        lemma_copies_flatten(var, body, start, (n - 1) as nat);
        assert(all.drop_last() =~= Seq::new((n - 1) as nat, |k: int| subst(var, start + k, body)));
    }
}

/// Whole-body mode: a body without repetition groups or malformed markers
/// expands to one substituted copy of the whole body per value of the range,
/// in ascending order; there are `end - start` values with `..` and
/// `end - start + 1` with `..=`, and none where that is not positive.
pub proof fn law_whole_body_copies(t: TemplateView)
    requires
        first_malformed(t.body) is None,
        !has_repetition(t.body),
    ensures
        expansion(t) == Ok::<Seq<Tok>, Diagnostic>(body_copies(t).flatten()),
        forall|k: int|
            0 <= k < body_copies(t).len() ==> #[trigger] body_copies(t)[k] == subst(
                t.var,
                t.start + k,
                t.body,
            ),
        body_copies(t).len() == (if t.inclusive {
            if t.start <= t.end { t.end - t.start + 1 } else { 0 }
        } else {
            if t.start <= t.end { t.end - t.start } else { 0 }
        }),
{
    let n = range_len(t.start, t.end, t.inclusive);
    lemma_copies_flatten(t.var, t.body, t.start, n);
    body_copies(t).lemma_flatten_and_flatten_alt_are_equivalent();
}

/// Concatenation: in `prefix # var`, the three tokens become the one
/// identifier `prefix` followed by the decimal digits of the value.
pub proof fn law_concatenation(
    var: Seq<char>,
    value: int,
    prefix: Seq<char>,
    s0: usize,
    joint: bool,
    s1: usize,
    s2: usize,
)
    ensures
        subst(
            var,
            value,
            seq![
                Tok::Ident { name: prefix, span: s0 },
                Tok::Punct { ch: '#', joint, span: s1 },
                Tok::Ident { name: var, span: s2 },
            ],
        ) == seq![Tok::Ident { name: prefix + decimal(value), span: s0 }],
{
    let s = seq![
        Tok::Ident { name: prefix, span: s0 },
        Tok::Punct { ch: '#', joint, span: s1 },
        Tok::Ident { name: var, span: s2 },
    ];
    assert(starts_concat(s, var));
    assert(s.skip(3) =~= Seq::<Tok>::empty());
    assert(subst(var, value, s.skip(3)) =~= Seq::<Tok>::empty());
    assert(subst(var, value, s) =~= seq![Tok::Ident { name: prefix + decimal(value), span: s0 }]);
}

/// Bare substitution: the variable alone becomes the unsuffixed integer
/// literal of the value.
pub proof fn law_bare_substitution(var: Seq<char>, value: int, span: usize)
    ensures
        subst(var, value, seq![Tok::Ident { name: var, span }]) == seq![
            Tok::Literal { text: decimal(value), span },
        ],
{
    let s = seq![Tok::Ident { name: var, span }];
    assert(s.skip(1) =~= Seq::<Tok>::empty());
    assert(subst(var, value, s.skip(1)) =~= Seq::<Tok>::empty());
    assert(subst(var, value, s) =~= seq![Tok::Literal { text: decimal(value), span }]);
}

proof fn lemma_local_identity(var: Seq<char>, start: int, n: nat, s: Seq<Tok>)
    requires
        !has_repetition(s),
    ensures
        local(var, start, n, s) == s,
    decreases s,
{
    if s.len() > 0 {
        lemma_local_identity(var, start, n, s.skip(1));
        if let Tok::Group { stream, .. } = s[0] {
            lemma_local_identity(var, start, n, stream);
        }
        assert(local(var, start, n, s) =~= s);
    }
}

proof fn lemma_local_prefix(var: Seq<char>, start: int, n: nat, pre: Seq<Tok>, rest: Seq<Tok>)
    requires
        !has_repetition(pre),
        rest.len() > 0,
        rest[0].is_punct('#'),
    ensures
        local(var, start, n, pre + rest) == pre + local(var, start, n, rest),
    decreases pre.len(),
{
    let s = pre + rest;
    if pre.len() > 0 {
        assert(!starts_repetition(s)) by {
            if pre.len() >= 3 {
                assert(s.subrange(0, 3) =~= pre.subrange(0, 3));
            }
        }
        assert(s.skip(1) =~= pre.skip(1) + rest);
        lemma_local_prefix(var, start, n, pre.skip(1), rest);
        if let Tok::Group { stream, .. } = pre[0] {
            lemma_local_identity(var, start, n, stream);
        }
        assert(local(var, start, n, s) =~= pre + local(var, start, n, rest));
    } else {
        assert(s =~= rest);
    }
}

proof fn lemma_has_repetition_suffix(pre: Seq<Tok>, rest: Seq<Tok>)
    requires
        starts_repetition(rest),
    ensures
        has_repetition(pre + rest),
    decreases pre.len(),
{
    let s = pre + rest;
    if pre.len() == 0 {
        assert(s =~= rest);
    } else if !starts_repetition(s) {
        assert(s.skip(1) =~= pre.skip(1) + rest);
        lemma_has_repetition_suffix(pre.skip(1), rest);
    }
}

proof fn lemma_first_malformed_prefix(pre: Seq<Tok>, rest: Seq<Tok>)
    requires
        first_malformed(pre) is None,
        rest.len() > 0,
        rest[0].is_punct('#'),
    ensures
        first_malformed(pre + rest) == first_malformed(rest),
    decreases pre.len(),
{
    let s = pre + rest;
    if pre.len() > 0 {
        assert(!starts_bad_marker(s)) by {
            if pre.len() >= 3 {
                assert(s.subrange(0, 3) =~= pre.subrange(0, 3));
                assert(s[0] == pre[0] && s[1] == pre[1] && s[2] == pre[2]);
            } else if pre.len() == 2 {
                assert(s[0] == pre[0] && s[1] == pre[1] && s[2] == rest[0]);
            }
        }
        assert(s.skip(1) =~= pre.skip(1) + rest);
        lemma_first_malformed_prefix(pre.skip(1), rest);
    } else {
        assert(s =~= rest);
    }
}

proof fn lemma_first_malformed_repetition(
    inner: Seq<Tok>,
    after: Seq<Tok>,
    j0: bool,
    j2: bool,
    s0: usize,
    s1: usize,
    s2: usize,
)
    requires
        first_malformed(inner) is None,
        first_malformed(after) is None,
    ensures
        first_malformed(repetition(inner, j0, j2, s0, s1, s2) + after) is None,
{
    let s = repetition(inner, j0, j2, s0, s1, s2) + after;
    let t1 = s.skip(1);
    let t2 = t1.skip(1);
    assert(t2.skip(1) =~= after);
    assert(!starts_bad_marker(t2));
    assert(first_malformed(t2) == first_malformed(after));
    assert(!starts_bad_marker(t1));
    assert(first_malformed(t1) is None);
    assert(!starts_bad_marker(s));
}

/// The repetition group `# ( inner ) *`; `j0` and `j2` tell whether `#`
/// and `*` are joined to what follows them.
pub open spec fn repetition(
    inner: Seq<Tok>,
    j0: bool,
    j2: bool,
    s0: usize,
    s1: usize,
    s2: usize,
) -> Seq<Tok> {
    seq![
        Tok::Punct { ch: '#', joint: j0, span: s0 },
        Tok::Group { delimiter: Delimiter::Parenthesis, stream: inner, span: s1 },
        Tok::Punct { ch: '*', joint: j2, span: s2 },
    ]
}

/// Localized-group mode: in a body `before # ( inner ) * after`, where
/// `before` and `after` hold no repetition group and no part holds a
/// malformed marker, only `inner` is repeated, once per value of the range;
/// `before` and `after` appear exactly once, unchanged, whatever the length
/// of the range.
pub proof fn law_localized_group(
    t: TemplateView,
    before: Seq<Tok>,
    inner: Seq<Tok>,
    after: Seq<Tok>,
    j0: bool,
    j2: bool,
    s0: usize,
    s1: usize,
    s2: usize,
)
    requires
        t.body == before + repetition(inner, j0, j2, s0, s1, s2) + after,
        !has_repetition(before),
        !has_repetition(after),
        first_malformed(before) is None,
        first_malformed(inner) is None,
        first_malformed(after) is None,
    ensures
        expansion(t) == Ok::<Seq<Tok>, Diagnostic>(
            before + copies(t.var, inner, t.start, range_len(t.start, t.end, t.inclusive)) + after,
        ),
{
    let n = range_len(t.start, t.end, t.inclusive);
    let rest = repetition(inner, j0, j2, s0, s1, s2) + after;
    assert(t.body =~= before + rest);
    assert(starts_repetition(rest));
    lemma_first_malformed_repetition(inner, after, j0, j2, s0, s1, s2);
    lemma_first_malformed_prefix(before, rest);
    lemma_has_repetition_suffix(before, rest);
    lemma_local_prefix(t.var, t.start, n, before, rest);
    assert(rest.skip(3) =~= after);
    lemma_local_identity(t.var, t.start, n, after);
    assert(local(t.var, t.start, n, rest) == copies(t.var, inner, t.start, n) + after);
    assert(before + (copies(t.var, inner, t.start, n) + after) =~= before + copies(
        t.var,
        inner,
        t.start,
        n,
    ) + after);
}

/// Diagnostics are deterministic: the same invocation always gives the
/// same result, and so the same error at the same position.
pub proof fn law_diagnostics_deterministic(a: Seq<Tok>, b: Seq<Tok>)
    requires
        a == b,
    ensures
        seq_output(a) == seq_output(b),
        seq_output(a) is Err ==> seq_output(b) is Err && seq_output(a)->Err_0.span == seq_output(
            b,
        )->Err_0.span,
{
}

/// Expands the range-template invocation `input`: `var in start..end { body }`
/// (or `..=`). The result is what `seq_output` gives: the first parse error,
/// else the expansion of the parsed template.
pub fn seq(input: &Vec<TokenTree>) -> (r: Result<Vec<TokenTree>, Diagnostic>)
    ensures
        match r {
            Ok(out) => seq_output(view_stream(input@)) == Ok::<Seq<Tok>, Diagnostic>(view_stream(out@)),
            Err(e) => seq_output(view_stream(input@)) == Err::<Seq<Tok>, Diagnostic>(e),
        },
{
    match SeqTemplate::parse(input) {
        Ok(t) => t.expand(),
        Err(e) => Err(e),
    }
}

} // verus!
