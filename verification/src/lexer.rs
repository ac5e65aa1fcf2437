use vstd::prelude::*;

use crate::constants::{BOM, CARRIAGE_RETURN, NEW_LINE, SPACE, TAB};
use crate::helpers::{spec_is_line_terminator, spec_is_name_continue, spec_is_name_start};
use crate::lexer::types::{
    char_to_punctuator, spec_char_to_punctuator, spec_is_punctuator_char, LexicalToken,
    LexicalTokenType, Punctuator, SpecToken, SpecTokenType,
};
use crate::lsp_types::{
    Diagnostic, DiagnosticSeverity, Position, Range, SpecDiagnostic, SpecPos, SpecRange,
};

pub mod types;

verus! {

/// An ASCII decimal digit.
pub open spec fn spec_is_digit(c: char) -> bool {
    '0' <= c && c <= '9'
}

/// Characters the scanner consumes silently: space, tab, byte-order mark,
/// comma.
pub open spec fn spec_is_ignored(c: char) -> bool {
    c == ' ' || c == '\u{0009}' || c == '\u{FEFF}' || c == ','
}

/// The length of the run of ASCII digits starting at `i`.
pub open spec fn digit_run(src: Seq<char>, i: int) -> nat
    decreases src.len() - i,
{
    if 0 <= i < src.len() && spec_is_digit(src[i]) {
        1 + digit_run(src, i + 1)
    } else {
        0
    }
}

/// The length of the run of name characters starting at `i`.
pub open spec fn name_run(src: Seq<char>, i: int) -> nat
    decreases src.len() - i,
{
    if 0 <= i < src.len() && spec_is_name_continue(src[i]) {
        1 + name_run(src, i + 1)
    } else {
        0
    }
}

/// The length of the run of non-terminator characters starting at `i`: what
/// a comment discards after its `#`.
pub open spec fn comment_run(src: Seq<char>, i: int) -> nat
    decreases src.len() - i,
{
    if 0 <= i < src.len() && !spec_is_line_terminator(src[i]) {
        1 + comment_run(src, i + 1)
    } else {
        0
    }
}

pub proof fn lemma_digit_run_le(src: Seq<char>, i: int)
    requires
        0 <= i <= src.len(),
    ensures
        i + digit_run(src, i) <= src.len(),
    decreases src.len() - i,
{
    if i < src.len() && spec_is_digit(src[i]) {
        lemma_digit_run_le(src, i + 1);
    }
}

pub proof fn lemma_name_run_le(src: Seq<char>, i: int)
    requires
        0 <= i <= src.len(),
    ensures
        i + name_run(src, i) <= src.len(),
    decreases src.len() - i,
{
    if i < src.len() && spec_is_name_continue(src[i]) {
        lemma_name_run_le(src, i + 1);
    }
}

pub proof fn lemma_comment_run_le(src: Seq<char>, i: int)
    requires
        0 <= i <= src.len(),
    ensures
        i + comment_run(src, i) <= src.len(),
    decreases src.len() - i,
{
    if i < src.len() && !spec_is_line_terminator(src[i]) {
        lemma_comment_run_le(src, i + 1);
    }
}

/// The numeric value of a sequence of ASCII digits read in base ten.
pub open spec fn digits_val(s: Seq<char>) -> int
    decreases s.len(),
{
    if s.len() == 0 {
        0
    } else {
        digits_val(s.subrange(0, s.len() - 1)) * 10 + (s[s.len() - 1] as int - '0' as int)
    }
}

/// The message of the error raised when a specific character was expected.
pub open spec fn spec_expect_msg(expected: char, found: Option<char>) -> Seq<char> {
    match found {
        Some(c) => "Expected \""@ + seq![expected] + "\", found \""@ + seq![c] + "\""@,
        None => "Expected \""@ + seq![expected] + "\", found EOF"@,
    }
}

/// A single-line range from character `ch` to character `ch2`.
pub open spec fn spec_line_range(line: nat, ch: nat, ch2: nat) -> SpecRange {
    SpecRange {
        start: SpecPos { line, character: ch },
        end: SpecPos { line, character: ch2 },
    }
}

pub open spec fn spec_error(message: Seq<char>, range: SpecRange) -> SpecDiagnostic {
    SpecDiagnostic { range, severity: DiagnosticSeverity::Error, message }
}

/// Scanning a string literal's body from just after the opening quote:
/// characters are copied until the closing quote, two-character escapes are
/// decoded in place, and a line terminator or the end of the source before
/// the closing quote is an error. Returns the decoded value, the index past
/// the closing quote, and the character column past the closing quote.
pub open spec fn spec_scan_string(
    src: Seq<char>,
    i: int,
    line: nat,
    ch: nat,
    acc: Seq<char>,
) -> Result<(Seq<char>, int, nat), SpecDiagnostic>
    decreases src.len() - i,
{
    if i < 0 || i >= src.len() {
        Err(spec_error("Unterminated string."@, spec_line_range(line, ch, ch + 1)))
    } else {
        let c = src[i];
        if c == '"' {
            Ok((acc, i + 1, ch + 1))
        } else if c == '\\' {
            if i + 1 < src.len() && (src[i + 1] == 'n' || src[i + 1] == 'r' || src[i + 1] == 't'
                || src[i + 1] == '\\' || src[i + 1] == '"') {
                let decoded = if src[i + 1] == 'n' {
                    '\u{000A}'
                } else if src[i + 1] == 'r' {
                    '\u{000D}'
                } else if src[i + 1] == 't' {
                    '\u{0009}'
                } else {
                    src[i + 1]
                };
                spec_scan_string(src, i + 2, line, ch + 2, acc.push(decoded))
            } else {
                Err(
                    spec_error(
                        "Invalid character escape sequence."@,
                        spec_line_range(line, ch + 1, ch + 2),
                    ),
                )
            }
        } else if spec_is_line_terminator(c) {
            Err(spec_error("Unterminated string."@, spec_line_range(line, ch, ch + 1)))
        } else {
            spec_scan_string(src, i + 1, line, ch + 1, acc.push(c))
        }
    }
}

/// Scanning a string token whose opening quote stands at `i`.
pub open spec fn spec_tokenize_string(src: Seq<char>, i: int, line: nat, ch: nat) -> Result<
    (SpecToken, int, nat),
    SpecDiagnostic,
> {
    match spec_scan_string(src, i + 1, line, ch + 1, Seq::empty()) {
        Ok((value, j, ch2)) => Ok(
            (
                SpecToken {
                    token_type: SpecTokenType::StringValue(value),
                    position: spec_line_range(line, ch, ch2),
                },
                j,
                ch2,
            ),
        ),
        Err(d) => Err(d),
    }
}

/// Scanning a number token starting at `i`: an optional leading minus, one
/// or more digits, and, after a dot, one or more further digits. A float
/// token carries the exact literal text; an int token carries the decoded
/// value, and a value outside the signed 32-bit range is an error. The
/// token's range covers the whole literal, sign and dot included.
pub open spec fn spec_tokenize_number(src: Seq<char>, i: int, line: nat, ch: nat) -> Result<
    (SpecToken, int, nat),
    SpecDiagnostic,
> {
    let sign = 0 <= i < src.len() && src[i] == '-';
    let i1 = if sign {
        i + 1
    } else {
        i
    };
    let ch1 = if sign {
        ch + 1
    } else {
        ch
    };
    let n1 = digit_run(src, i1);
    if n1 == 0 {
        Err(
            spec_error(
                "Invalid number, expected digit"@,
                spec_line_range(line, ch1, ch1 + 1),
            ),
        )
    } else {
        let i2 = i1 + n1;
        let ch2 = (ch1 + n1) as nat;
        if i2 < src.len() && src[i2] == '.' {
            let n2 = digit_run(src, i2 + 1);
            if n2 == 0 {
                Err(
                    spec_error(
                        "Invalid number, expected digit"@,
                        spec_line_range(line, ch2 + 1, ch2 + 2),
                    ),
                )
            } else {
                let i4 = i2 + 1 + n2;
                let ch4 = (ch2 + 1 + n2) as nat;
                Ok(
                    (
                        SpecToken {
                            token_type: SpecTokenType::FloatValue(src.subrange(i, i4)),
                            position: spec_line_range(line, ch, ch4),
                        },
                        i4,
                        ch4,
                    ),
                )
            }
        } else {
            let v = digits_val(src.subrange(i1, i2));
            let value = if sign {
                -v
            } else {
                v
            };
            if -2147483648 <= value <= 2147483647 {
                Ok(
                    (
                        SpecToken {
                            token_type: SpecTokenType::IntValue(value),
                            position: spec_line_range(line, ch, ch2),
                        },
                        i2,
                        ch2,
                    ),
                )
            } else {
                Err(spec_error("Invalid number"@, spec_line_range(line, ch2, ch2 + 1)))
            }
        }
    }
}

/// Prepends one token to the outcome of scanning the rest of the source.
pub open spec fn spec_prepend_token(t: SpecToken, r: Result<Seq<SpecToken>, SpecDiagnostic>) -> Result<
    Seq<SpecToken>,
    SpecDiagnostic,
> {
    match r {
        Ok(s) => Ok(seq![t] + s),
        Err(d) => Err(d),
    }
}

/// The whole scan from state `(i, line, ch)`: at each position the first
/// matching rule applies — ignored characters, line terminators, comments,
/// punctuators, the ellipsis, string literals, numbers, names — and any
/// other character is an error. A synthetic zero-width `EOF` token closes
/// the sequence. The two arms guarded on consumption are outside every run:
/// a scan step that reports success always consumes at least one character.
pub open spec fn spec_lex_from(src: Seq<char>, i: int, line: nat, ch: nat) -> Result<
    Seq<SpecToken>,
    SpecDiagnostic,
>
    decreases src.len() - i,
{
    if i < 0 {
        Err(spec_error(Seq::empty(), spec_line_range(line, ch, ch)))
    } else if i >= src.len() {
        Ok(
            seq![
                SpecToken {
                    token_type: SpecTokenType::EOF,
                    position: spec_line_range(line, ch, ch),
                },
            ],
        )
    } else {
        let c = src[i];
        if spec_is_ignored(c) {
            spec_lex_from(src, i + 1, line, ch + 1)
        } else if spec_is_line_terminator(c) {
            spec_lex_from(src, i + 1, line + 1, 0)
        } else if c == '#' {
            let n = comment_run(src, i);
            if i + n <= src.len() && n > 0 {
                spec_lex_from(src, i + n, line, ch + n)
            } else {
                Err(spec_error(Seq::empty(), spec_line_range(line, ch, ch)))
            }
        } else if spec_is_punctuator_char(c) {
            spec_prepend_token(
                SpecToken {
                    token_type: SpecTokenType::Punctuator(spec_char_to_punctuator(c)),
                    position: spec_line_range(line, ch, ch + 1),
                },
                spec_lex_from(src, i + 1, line, ch + 1),
            )
        } else if c == '.' {
            if i + 1 >= src.len() {
                Err(spec_error(spec_expect_msg('.', None), spec_line_range(line, ch + 1, ch + 2)))
            } else if src[i + 1] != '.' {
                Err(
                    spec_error(
                        spec_expect_msg('.', Some(src[i + 1])),
                        spec_line_range(line, ch + 1, ch + 2),
                    ),
                )
            } else if i + 2 >= src.len() {
                Err(spec_error(spec_expect_msg('.', None), spec_line_range(line, ch + 2, ch + 3)))
            } else if src[i + 2] != '.' {
                Err(
                    spec_error(
                        spec_expect_msg('.', Some(src[i + 2])),
                        spec_line_range(line, ch + 2, ch + 3),
                    ),
                )
            } else {
                spec_prepend_token(
                    SpecToken {
                        token_type: SpecTokenType::Punctuator(Punctuator::Ellipsis),
                        position: spec_line_range(line, ch, ch + 3),
                    },
                    spec_lex_from(src, i + 3, line, ch + 3),
                )
            }
        } else if c == '"' {
            match spec_tokenize_string(src, i, line, ch) {
                Ok((t, j, ch2)) => if i < j <= src.len() {
                    spec_prepend_token(t, spec_lex_from(src, j, line, ch2))
                } else {
                    Err(spec_error(Seq::empty(), spec_line_range(line, ch, ch)))
                },
                Err(d) => Err(d),
            }
        } else if c == '-' || spec_is_digit(c) {
            match spec_tokenize_number(src, i, line, ch) {
                Ok((t, j, ch2)) => if i < j <= src.len() {
                    spec_prepend_token(t, spec_lex_from(src, j, line, ch2))
                } else {
                    Err(spec_error(Seq::empty(), spec_line_range(line, ch, ch)))
                },
                Err(d) => Err(d),
            }
        } else if spec_is_name_start(c) {
            let n = name_run(src, i);
            if i + n <= src.len() && n > 0 {
                spec_prepend_token(
                    SpecToken {
                        token_type: SpecTokenType::Name(src.subrange(i, i + n)),
                        position: spec_line_range(line, ch, ch + n),
                    },
                    spec_lex_from(src, i + n, line, ch + n),
                )
            } else {
                Err(spec_error(Seq::empty(), spec_line_range(line, ch, ch)))
            }
        } else {
            Err(
                spec_error(
                    "Unexpected character: "@ + seq![c],
                    spec_line_range(line, ch, ch + 1),
                ),
            )
        }
    }
}

/// What tokenizing a whole source yields: the token sequence, or the first
/// lexical error.
pub open spec fn spec_lex(src: Seq<char>) -> Result<Seq<SpecToken>, SpecDiagnostic> {
    spec_lex_from(src, 0, 0, 0)
}

/// The model of a token buffer.
pub open spec fn spec_tokens(ts: Seq<LexicalToken>) -> Seq<SpecToken> {
    ts.map_values(|t: LexicalToken| t@)
}

/// Tokenizing the same source twice yields the same outcome: the scan is a
/// function of the source text alone.
pub proof fn lemma_lexer_deterministic(src1: Seq<char>, src2: Seq<char>)
    requires
        src1 == src2,
    ensures
        spec_lex(src1) == spec_lex(src2),
{
}


/// Point order over (line, character), lexicographically.
pub open spec fn spec_pos_le(a: SpecPos, b: SpecPos) -> bool {
    a.line < b.line || (a.line == b.line && a.character <= b.character)
}

/// Positional well-formedness of a token sequence scanned from the point
/// `p`: every token starts no earlier than `p`, no token ends before it
/// starts, and each token ends no later than the next one starts.
pub open spec fn spec_tokens_ordered_from(ts: Seq<SpecToken>, p: SpecPos) -> bool {
    &&& forall|k: int|
        0 <= k < ts.len() ==> spec_pos_le(p, #[trigger] ts[k].position.start)
    &&& forall|k: int|
        0 <= k < ts.len() ==> spec_pos_le(
            #[trigger] ts[k].position.start,
            ts[k].position.end,
        )
    &&& forall|k1: int, k2: int|
        0 <= k1 < k2 < ts.len() ==> spec_pos_le(
            #[trigger] ts[k1].position.end,
            #[trigger] ts[k2].position.start,
        )
}

proof fn lemma_ordered_weaken(ts: Seq<SpecToken>, p: SpecPos, p2: SpecPos)
    requires
        spec_pos_le(p, p2),
        spec_tokens_ordered_from(ts, p2),
    ensures
        spec_tokens_ordered_from(ts, p),
{
}

proof fn lemma_ordered_prepend(t: SpecToken, ts: Seq<SpecToken>, p: SpecPos, p2: SpecPos)
    requires
        spec_pos_le(p, t.position.start),
        spec_pos_le(t.position.start, t.position.end),
        spec_pos_le(t.position.end, p2),
        spec_tokens_ordered_from(ts, p2),
    ensures
        spec_tokens_ordered_from(seq![t] + ts, p),
{
    let all = seq![t] + ts;
    assert forall|k: int| 0 <= k < all.len() implies spec_pos_le(
        p,
        #[trigger] all[k].position.start,
    ) by {
        if k > 0 {
            assert(all[k] == ts[k - 1]);
        }
    }
    assert forall|k: int| 0 <= k < all.len() implies spec_pos_le(
        #[trigger] all[k].position.start,
        all[k].position.end,
    ) by {
        if k > 0 {
            assert(all[k] == ts[k - 1]);
        }
    }
    assert forall|k1: int, k2: int| 0 <= k1 < k2 < all.len() implies spec_pos_le(
        #[trigger] all[k1].position.end,
        #[trigger] all[k2].position.start,
    ) by {
        assert(all[k2] == ts[k2 - 1]);
        if k1 > 0 {
            assert(all[k1] == ts[k1 - 1]);
        }
    }
}

/// A string-literal scan only moves the column forward.
proof fn lemma_scan_string_advances(src: Seq<char>, i: int, line: nat, ch: nat, acc: Seq<char>)
    requires
        0 <= i <= src.len(),
    ensures
        spec_scan_string(src, i, line, ch, acc) matches Ok((v, j, ch2)) ==> ch < ch2,
    decreases src.len() - i,
{
    if i < src.len() {
        let c = src[i];
        if c == '"' {
        } else if c == '\\' {
            if i + 1 < src.len() && (src[i + 1] == 'n' || src[i + 1] == 'r' || src[i + 1] == 't'
                || src[i + 1] == '\\' || src[i + 1] == '"') {
                let decoded = if src[i + 1] == 'n' {
                    '\u{000A}'
                } else if src[i + 1] == 'r' {
                    '\u{000D}'
                } else if src[i + 1] == 't' {
                    '\u{0009}'
                } else {
                    src[i + 1]
                };
                lemma_scan_string_advances(src, i + 2, line, ch + 2, acc.push(decoded));
            }
        } else if !spec_is_line_terminator(c) {
            lemma_scan_string_advances(src, i + 1, line, ch + 1, acc.push(c));
        }
    }
}

/// The positional half of the token model: whenever the scan succeeds, its
/// tokens start at or after the scan point, cover a forward range each, and
/// stand in source order.
pub proof fn lemma_lex_tokens_ordered(src: Seq<char>, i: int, line: nat, ch: nat)
    requires
        0 <= i <= src.len(),
    ensures
        spec_lex_from(src, i, line, ch) matches Ok(ts) ==> spec_tokens_ordered_from(
            ts,
            SpecPos { line, character: ch },
        ),
    decreases src.len() - i,
{
    let p = SpecPos { line, character: ch };
    if i >= src.len() {
    } else {
        let c = src[i];
        if spec_is_ignored(c) {
            lemma_lex_tokens_ordered(src, i + 1, line, ch + 1);
            if spec_lex_from(src, i, line, ch) is Ok {
                lemma_ordered_weaken(
                    spec_lex_from(src, i + 1, line, ch + 1)->Ok_0,
                    p,
                    SpecPos { line, character: ch + 1 },
                );
            }
        } else if spec_is_line_terminator(c) {
            lemma_lex_tokens_ordered(src, i + 1, line + 1, 0);
            if spec_lex_from(src, i, line, ch) is Ok {
                lemma_ordered_weaken(
                    spec_lex_from(src, i + 1, line + 1, 0)->Ok_0,
                    p,
                    SpecPos { line: line + 1, character: 0 },
                );
            }
        } else if c == '#' {
            let n = comment_run(src, i);
            lemma_comment_run_le(src, i);
            lemma_lex_tokens_ordered(src, i + n, line, ch + n);
            if spec_lex_from(src, i, line, ch) is Ok {
                lemma_ordered_weaken(
                    spec_lex_from(src, i + n, line, ch + n)->Ok_0,
                    p,
                    SpecPos { line, character: ch + n },
                );
            }
        } else if spec_is_punctuator_char(c) {
            lemma_lex_tokens_ordered(src, i + 1, line, ch + 1);
            match spec_lex_from(src, i + 1, line, ch + 1) {
                Ok(rest) => {
                    lemma_ordered_prepend(
                        SpecToken {
                            token_type: SpecTokenType::Punctuator(spec_char_to_punctuator(c)),
                            position: spec_line_range(line, ch, ch + 1),
                        },
                        rest,
                        p,
                        SpecPos { line, character: ch + 1 },
                    );
                },
                Err(_) => {},
            }
        } else if c == '.' {
            if i + 2 < src.len() && src[i + 1] == '.' && src[i + 2] == '.' {
                lemma_lex_tokens_ordered(src, i + 3, line, ch + 3);
                match spec_lex_from(src, i + 3, line, ch + 3) {
                    Ok(rest) => {
                        lemma_ordered_prepend(
                            SpecToken {
                                token_type: SpecTokenType::Punctuator(Punctuator::Ellipsis),
                                position: spec_line_range(line, ch, ch + 3),
                            },
                            rest,
                            p,
                            SpecPos { line, character: ch + 3 },
                        );
                    },
                    Err(_) => {},
                }
            }
        } else if c == '"' {
            match spec_tokenize_string(src, i, line, ch) {
                Ok((t, j, ch2)) => if i < j <= src.len() {
                    lemma_scan_string_advances(src, i + 1, line, ch + 1, Seq::empty());
                    lemma_lex_tokens_ordered(src, j, line, ch2);
                    match spec_lex_from(src, j, line, ch2) {
                        Ok(rest) => {
                            lemma_ordered_prepend(
                                t,
                                rest,
                                p,
                                SpecPos { line, character: ch2 },
                            );
                        },
                        Err(_) => {},
                    }
                },
                Err(_) => {},
            }
        } else if c == '-' || spec_is_digit(c) {
            match spec_tokenize_number(src, i, line, ch) {
                Ok((t, j, ch2)) => if i < j <= src.len() {
                    lemma_lex_tokens_ordered(src, j, line, ch2);
                    match spec_lex_from(src, j, line, ch2) {
                        Ok(rest) => {
                            lemma_ordered_prepend(
                                t,
                                rest,
                                p,
                                SpecPos { line, character: ch2 },
                            );
                        },
                        Err(_) => {},
                    }
                },
                Err(_) => {},
            }
        } else if spec_is_name_start(c) {
            let n = name_run(src, i);
            if i + n <= src.len() {
                lemma_lex_tokens_ordered(src, i + n, line, ch + n);
                match spec_lex_from(src, i + n, line, ch + n) {
                    Ok(rest) => {
                        lemma_ordered_prepend(
                            SpecToken {
                                token_type: SpecTokenType::Name(src.subrange(i, i + n)),
                                position: spec_line_range(line, ch, ch + n),
                            },
                            rest,
                            p,
                            SpecPos { line, character: ch + n },
                        );
                    },
                    Err(_) => {},
                }
            }
        }
    }
}

/// What tokenizing a whole source yields positionally: the tokens cover
/// forward ranges and stand in source order from the origin.
pub proof fn lemma_lex_ordered(src: Seq<char>)
    ensures
        spec_lex(src) matches Ok(ts) ==> spec_tokens_ordered_from(
            ts,
            SpecPos { line: 0, character: 0 },
        ),
{
    lemma_lex_tokens_ordered(src, 0, 0, 0);
}

proof fn lemma_spec_tokens_push(ts: Seq<LexicalToken>, t: LexicalToken)
    ensures
        spec_tokens(ts.push(t)) == spec_tokens(ts).push(t@),
{
    assert(spec_tokens(ts.push(t)) =~= spec_tokens(ts).push(t@));
}

proof fn lemma_prepend_assoc(
    pre: Seq<SpecToken>,
    t: SpecToken,
    r: Result<Seq<SpecToken>, SpecDiagnostic>,
)
    ensures
        spec_prepend_tokens(pre, spec_prepend_token(t, r)) == spec_prepend_tokens(pre.push(t), r),
{
    match r {
        Ok(s) => {
            assert(pre + (seq![t] + s) =~= pre.push(t) + s);
        },
        Err(_) => {},
    }
}

/// Prepends already-built tokens to the outcome of scanning the rest.
pub open spec fn spec_prepend_tokens(
    pre: Seq<SpecToken>,
    r: Result<Seq<SpecToken>, SpecDiagnostic>,
) -> Result<Seq<SpecToken>, SpecDiagnostic> {
    match r {
        Ok(s) => Ok(pre + s),
        Err(d) => Err(d),
    }
}

/// The digits of a digit run really are digits.
proof fn lemma_digit_run_chars(src: Seq<char>, i: int, k: int)
    requires
        0 <= i <= k < i + digit_run(src, i),
    ensures
        spec_is_digit(src[k]),
    decreases k - i,
{
    if k > i {
        lemma_digit_run_chars(src, i + 1, k);
    }
}

proof fn lemma_digits_val_nonneg(s: Seq<char>)
    requires
        forall|k: int| 0 <= k < s.len() ==> spec_is_digit(#[trigger] s[k]),
    ensures
        digits_val(s) >= 0,
    decreases s.len(),
{
    if s.len() > 0 {
        lemma_digits_val_nonneg(s.subrange(0, s.len() - 1));
    }
}

/// Tokenizes a whole source text: a single forward scan that never
/// backtracks and stops at the first lexical error.
pub fn lex(source: String) -> (r: Result<Vec<LexicalToken>, Diagnostic>)
    requires
        source@.len() < usize::MAX / 2,
    ensures
        match r {
            Ok(v) => spec_lex(source@) == Ok::<_, SpecDiagnostic>(spec_tokens(v@)),
            Err(d) => spec_lex(source@) == Err::<Seq<SpecToken>, _>(d@),
        },
{
    let mut lexer = Lexer::new(source);
    lexer.lex()
}

#[verifier::loop_isolation(false)]
fn chars_of(s: &str) -> (r: Vec<char>)
    ensures
        r@ == s@,
{
    let n = s.unicode_len();
    let mut v: Vec<char> = Vec::new();
    let mut i: usize = 0;
    while i < n
        invariant
            i <= n,
            n == s@.len(),
            v@ =~= s@.subrange(0, i as int),
        decreases n - i,
    {
        v.push(s.get_char(i));
        i = i + 1;
    }
    proof {
        assert(v@ =~= s@);
    }
    v
}

/// The scanner: the source as a character sequence, the absolute scan
/// pointer, and the current zero-based line and character column.
pub struct Lexer {
    source: Vec<char>,
    ptr: usize,
    character: usize,
    line: usize,
}

impl Lexer {
    pub closed spec fn src(&self) -> Seq<char> {
        self.source@
    }

    pub closed spec fn idx(&self) -> int {
        self.ptr as int
    }

    pub closed spec fn line_no(&self) -> nat {
        self.line as nat
    }

    pub closed spec fn col(&self) -> nat {
        self.character as nat
    }

    pub closed spec fn wf(&self) -> bool {
        &&& self.source@.len() < usize::MAX / 2
        &&& self.ptr <= self.source@.len() + 1
        &&& self.character <= self.ptr
        &&& self.line <= self.ptr
    }

    pub fn new(source: String) -> (r: Lexer)
        requires
            source@.len() < usize::MAX / 2,
        ensures
            r.wf(),
            r.src() == source@,
            r.idx() == 0,
            r.line_no() == 0,
            r.col() == 0,
    {
        Lexer { source: chars_of(source.as_str()), ptr: 0, character: 0, line: 0 }
    }

    fn peek(&self) -> (r: Option<char>)
        ensures
            r == (if 0 <= self.idx() < self.src().len() {
                Some(self.src()[self.idx()])
            } else {
                None::<char>
            }),
    {
        if self.ptr < self.source.len() {
            Some(self.source[self.ptr])
        } else {
            None
        }
    }

    fn next(&mut self) -> (r: Option<char>)
        requires
            old(self).wf(),
            old(self).idx() <= old(self).src().len(),
        ensures
            final(self).wf(),
            final(self).src() == old(self).src(),
            final(self).idx() == old(self).idx() + 1,
            final(self).col() == old(self).col() + 1,
            final(self).line_no() == old(self).line_no(),
            r == (if old(self).idx() < old(self).src().len() {
                Some(old(self).src()[old(self).idx()])
            } else {
                None::<char>
            }),
    {
        let next_char = self.peek();
        self.ptr = self.ptr + 1;
        self.character = self.character + 1;
        next_char
    }

    fn expect_peek(&self, expected: char) -> (r: Result<char, Diagnostic>)
        requires
            self.wf(),
        ensures
            match r {
                Ok(c) => 0 <= self.idx() < self.src().len() && self.src()[self.idx()] == expected
                    && c == expected,
                Err(d) => (self.idx() >= self.src().len() || self.src()[self.idx()] != expected)
                    && d@ == spec_error(
                    spec_expect_msg(
                        expected,
                        if self.idx() < self.src().len() {
                            Some(self.src()[self.idx()])
                        } else {
                            None
                        },
                    ),
                    spec_line_range(self.line_no(), self.col(), self.col() + 1),
                ),
            },
    {
        let next = self.peek();
        match next {
            Some(c) => {
                if c == expected {
                    Ok(c)
                } else {
                    Err(
                        Diagnostic::new(
                            DiagnosticSeverity::Error,
                            expect_msg(expected, Some(c)),
                            Range::new(
                                Position::new(self.line, self.character),
                                Position::new(self.line, self.character + 1),
                            ),
                        ),
                    )
                }
            },
            None => Err(
                Diagnostic::new(
                    DiagnosticSeverity::Error,
                    expect_msg(expected, None),
                    Range::new(
                        Position::new(self.line, self.character),
                        Position::new(self.line, self.character + 1),
                    ),
                ),
            ),
        }
    }

    fn expect_next(&mut self, expected: char) -> (r: Result<char, Diagnostic>)
        requires
            old(self).wf(),
            old(self).idx() <= old(self).src().len(),
        ensures
            final(self).wf(),
            final(self).src() == old(self).src(),
            final(self).idx() == old(self).idx() + 1,
            final(self).col() == old(self).col() + 1,
            final(self).line_no() == old(self).line_no(),
            match r {
                Ok(c) => old(self).idx() < old(self).src().len() && old(self).src()[old(
                    self,
                ).idx()] == expected && c == expected,
                Err(d) => (old(self).idx() >= old(self).src().len() || old(self).src()[old(
                    self,
                ).idx()] != expected) && d@ == spec_error(
                    spec_expect_msg(
                        expected,
                        if old(self).idx() < old(self).src().len() {
                            Some(old(self).src()[old(self).idx()])
                        } else {
                            None
                        },
                    ),
                    spec_line_range(old(self).line_no(), old(self).col() + 1, old(self).col() + 2),
                ),
            },
    {
        let next = self.next();
        match next {
            Some(c) => {
                if c == expected {
                    Ok(c)
                } else {
                    Err(
                        Diagnostic::new(
                            DiagnosticSeverity::Error,
                            expect_msg(expected, Some(c)),
                            Range::new(
                                Position::new(self.line, self.character),
                                Position::new(self.line, self.character + 1),
                            ),
                        ),
                    )
                }
            },
            None => Err(
                Diagnostic::new(
                    DiagnosticSeverity::Error,
                    expect_msg(expected, None),
                    Range::new(
                        Position::new(self.line, self.character),
                        Position::new(self.line, self.character + 1),
                    ),
                ),
            ),
        }
    }
}

fn expect_msg(expected: char, found: Option<char>) -> (r: String)
    ensures
        r@ == spec_expect_msg(expected, found),
{
    let mut m = String::from_str("Expected \"");
    m.push(expected);
    match found {
        Some(c) => {
            m.append("\", found \"");
            m.push(c);
            m.append("\"");
        },
        None => {
            m.append("\", found EOF");
        },
    }
    proof {
        match found {
            Some(c) => {
                assert(m@ =~= "Expected \""@ + seq![expected] + "\", found \""@ + seq![c] + "\""@);
            },
            None => {
                assert(m@ =~= "Expected \""@ + seq![expected] + "\", found EOF"@);
            },
        }
    }
    m
}

impl Lexer {
    /// Whether the cursor stands on an ASCII digit.
    fn at_digit(&self) -> (r: bool)
        ensures
            r == (0 <= self.idx() < self.src().len() && spec_is_digit(self.src()[self.idx()])),
    {
        if self.ptr < self.source.len() {
            let c = self.source[self.ptr];
            '0' <= c && c <= '9'
        } else {
            false
        }
    }

    /// Whether the cursor stands on a name character.
    fn at_name_char(&self) -> (r: bool)
        ensures
            r == (0 <= self.idx() < self.src().len() && spec_is_name_continue(
                self.src()[self.idx()],
            )),
    {
        if self.ptr < self.source.len() {
            let c = self.source[self.ptr];
            ('a' <= c && c <= 'z') || ('A' <= c && c <= 'Z') || ('0' <= c && c <= '9') || c == '_'
        } else {
            false
        }
    }

    /// Whether the cursor stands on a character a comment still swallows.
    fn at_comment_char(&self) -> (r: bool)
        ensures
            r == (0 <= self.idx() < self.src().len() && !spec_is_line_terminator(
                self.src()[self.idx()],
            )),
    {
        if self.ptr < self.source.len() {
            let c = self.source[self.ptr];
            !(c == NEW_LINE || c == CARRIAGE_RETURN)
        } else {
            false
        }
    }

    /// Consumes the run of ASCII digits at the cursor and returns it.
    #[verifier::loop_isolation(false)]
    fn consume_digits(&mut self) -> (r: String)
        requires
            old(self).wf(),
            old(self).idx() <= old(self).src().len(),
        ensures
            final(self).wf(),
            final(self).src() == old(self).src(),
            final(self).line_no() == old(self).line_no(),
            final(self).idx() == old(self).idx() + digit_run(old(self).src(), old(self).idx()),
            final(self).col() == old(self).col() + digit_run(old(self).src(), old(self).idx()),
            r@ == old(self).src().subrange(old(self).idx(), final(self).idx()),
    {
        let ghost src = self.src();
        let ghost i0 = self.idx();
        let ghost c0 = self.col();
        let mut result = String::new();
        while self.at_digit()
            invariant
                self.wf(),
                self.src() == src,
                i0 <= self.idx() <= src.len(),
                self.col() == c0 + (self.idx() - i0),
                self.line_no() == old(self).line_no(),
                digit_run(src, i0) == (self.idx() - i0) + digit_run(src, self.idx()),
                result@ =~= src.subrange(i0, self.idx()),
            decreases src.len() - self.idx(),
        {
            let c = self.source[self.ptr];
            result.push(c);
            let ghost before = self.idx();
            self.next();
            proof {
                assert(result@ =~= src.subrange(i0, before + 1));
            }
        }
        result
    }

    /// Consumes the run of name characters at the cursor and returns it.
    #[verifier::loop_isolation(false)]
    fn consume_name(&mut self) -> (r: String)
        requires
            old(self).wf(),
            old(self).idx() <= old(self).src().len(),
        ensures
            final(self).wf(),
            final(self).src() == old(self).src(),
            final(self).line_no() == old(self).line_no(),
            final(self).idx() == old(self).idx() + name_run(old(self).src(), old(self).idx()),
            final(self).col() == old(self).col() + name_run(old(self).src(), old(self).idx()),
            r@ == old(self).src().subrange(old(self).idx(), final(self).idx()),
    {
        let ghost src = self.src();
        let ghost i0 = self.idx();
        let ghost c0 = self.col();
        let mut result = String::new();
        while self.at_name_char()
            invariant
                self.wf(),
                self.src() == src,
                i0 <= self.idx() <= src.len(),
                self.col() == c0 + (self.idx() - i0),
                self.line_no() == old(self).line_no(),
                name_run(src, i0) == (self.idx() - i0) + name_run(src, self.idx()),
                result@ =~= src.subrange(i0, self.idx()),
            decreases src.len() - self.idx(),
        {
            let c = self.source[self.ptr];
            result.push(c);
            let ghost before = self.idx();
            self.next();
            proof {
                assert(result@ =~= src.subrange(i0, before + 1));
            }
        }
        result
    }

    /// Discards the remainder of the line after a `#`, leaving the cursor on
    /// the terminator itself.
    #[verifier::loop_isolation(false)]
    fn skip_comment(&mut self)
        requires
            old(self).wf(),
            old(self).idx() <= old(self).src().len(),
        ensures
            final(self).wf(),
            final(self).src() == old(self).src(),
            final(self).line_no() == old(self).line_no(),
            final(self).idx() == old(self).idx() + comment_run(old(self).src(), old(self).idx()),
            final(self).col() == old(self).col() + comment_run(old(self).src(), old(self).idx()),
    {
        let ghost src = self.src();
        let ghost i0 = self.idx();
        let ghost c0 = self.col();
        while self.at_comment_char()
            invariant
                self.wf(),
                self.src() == src,
                i0 <= self.idx() <= src.len(),
                self.col() == c0 + (self.idx() - i0),
                self.line_no() == old(self).line_no(),
                comment_run(src, i0) == (self.idx() - i0) + comment_run(src, self.idx()),
            decreases src.len() - self.idx(),
        {
            self.next();
        }
    }
}

impl Lexer {
    /// Scans one string literal token; the cursor stands on the opening
    /// quote. The stored value holds the decoded characters, not the raw
    /// escape sequences.
    fn tokenize_string(&mut self) -> (r: Result<LexicalToken, Diagnostic>)
        requires
            old(self).wf(),
            0 <= old(self).idx() < old(self).src().len(),
            old(self).src()[old(self).idx()] == '"',
        ensures
            final(self).wf(),
            final(self).src() == old(self).src(),
            final(self).line_no() == old(self).line_no(),
            match r {
                Ok(t) => spec_tokenize_string(
                    old(self).src(),
                    old(self).idx(),
                    old(self).line_no(),
                    old(self).col(),
                ) == Ok::<_, SpecDiagnostic>((t@, final(self).idx(), final(self).col())) && old(
                    self,
                ).idx() < final(self).idx() <= old(self).src().len(),
                Err(d) => spec_tokenize_string(
                    old(self).src(),
                    old(self).idx(),
                    old(self).line_no(),
                    old(self).col(),
                ) == Err::<(SpecToken, int, nat), _>(d@),
            },
    {
        let ghost src = self.src();
        let ghost i0 = self.idx();
        let ghost l0 = self.line_no();
        let ghost c0 = self.col();
        let start_position = Position::new(self.line, self.character);
        match self.expect_next('"') {
            Ok(_) => {},
            Err(d) => {
                proof {
                    assert(false);
                }
                return Err(d);
            },
        }
        let mut result = String::new();
        loop
            invariant
                self.wf(),
                self.src() == src,
                self.line_no() == l0,
                i0 + 1 <= self.idx() <= src.len(),
                src == old(self).src(),
                i0 == old(self).idx(),
                l0 == old(self).line_no(),
                c0 == old(self).col(),
                0 <= i0 < src.len(),
                src[i0] == '"',
                start_position@.line == l0,
                start_position@.character == c0,
                spec_scan_string(src, i0 + 1, l0, c0 + 1, Seq::empty()) == spec_scan_string(
                    src,
                    self.idx(),
                    l0,
                    self.col(),
                    result@,
                ),
            ensures
                self.idx() >= src.len() || spec_is_line_terminator(src[self.idx()]),
            decreases src.len() - self.idx(),
        {
            match self.peek() {
                None => {
                    break ;
                },
                Some(c) => {
                    if c == '"' {
                        self.next();
                        return Ok(
                            LexicalToken::new(
                                LexicalTokenType::StringValue(result),
                                Range::new(
                                    start_position,
                                    Position::new(self.line, self.character),
                                ),
                            ),
                        );
                    }
                    if c == '\\' {
                        self.next();
                        let escaped = self.peek();
                        match escaped {
                            Some('n') => result.push('\u{000A}'),
                            Some('r') => result.push('\u{000D}'),
                            Some('t') => result.push('\u{0009}'),
                            Some('\\') => result.push('\\'),
                            Some('"') => result.push('"'),
                            _ => {
                                return Err(
                                    Diagnostic::new(
                                        DiagnosticSeverity::Error,
                                        String::from_str("Invalid character escape sequence."),
                                        Range::new(
                                            Position::new(self.line, self.character),
                                            Position::new(self.line, self.character + 1),
                                        ),
                                    ),
                                );
                            },
                        }
                        self.next();
                        continue ;
                    }
                    if c == NEW_LINE || c == CARRIAGE_RETURN {
                        break ;
                    }
                    result.push(c);
                    self.next();
                },
            }
        }
        Err(
            Diagnostic::new(
                DiagnosticSeverity::Error,
                String::from_str("Unterminated string."),
                Range::new(
                    Position::new(self.line, self.character),
                    Position::new(self.line, self.character + 1),
                ),
            ),
        )
    }

    /// Scans one number token; the cursor stands on the leading minus or the
    /// first digit.
    fn tokenize_number(&mut self) -> (r: Result<LexicalToken, Diagnostic>)
        requires
            old(self).wf(),
            0 <= old(self).idx() < old(self).src().len(),
            old(self).src()[old(self).idx()] == '-' || spec_is_digit(
                old(self).src()[old(self).idx()],
            ),
        ensures
            final(self).wf(),
            final(self).src() == old(self).src(),
            final(self).line_no() == old(self).line_no(),
            match r {
                Ok(t) => spec_tokenize_number(
                    old(self).src(),
                    old(self).idx(),
                    old(self).line_no(),
                    old(self).col(),
                ) == Ok::<_, SpecDiagnostic>((t@, final(self).idx(), final(self).col())) && old(
                    self,
                ).idx() < final(self).idx() <= old(self).src().len(),
                Err(d) => spec_tokenize_number(
                    old(self).src(),
                    old(self).idx(),
                    old(self).line_no(),
                    old(self).col(),
                ) == Err::<(SpecToken, int, nat), _>(d@),
            },
    {
        let ghost src = self.src();
        let ghost i0 = self.idx();
        let ghost l0 = self.line_no();
        let ghost c0 = self.col();
        let start_position = Position::new(self.line, self.character);
        let sign: bool = match self.peek() {
            Some(c) => c == '-',
            None => false,
        };
        if sign {
            self.next();
        }
        let ghost i1 = self.idx();
        let ghost ch1 = self.col();
        proof {
            lemma_digit_run_le(src, i1);
        }
        let number_value = self.consume_digits();
        let n1 = number_value.as_str().unicode_len();
        if n1 == 0 {
            return Err(
                Diagnostic::new(
                    DiagnosticSeverity::Error,
                    String::from_str("Invalid number, expected digit"),
                    Range::new(
                        Position::new(self.line, self.character),
                        Position::new(self.line, self.character + 1),
                    ),
                ),
            );
        }
        proof {
            assert forall|k: int| 0 <= k < number_value@.len() implies spec_is_digit(
                #[trigger] number_value@[k],
            ) by {
                lemma_digit_run_chars(src, i1, i1 + k);
            }
        }
        let is_dot: bool = match self.peek() {
            Some(c) => c == '.',
            None => false,
        };
        if is_dot {
            self.next();
            proof {
                lemma_digit_run_le(src, self.idx());
            }
            let decimal_value = self.consume_digits();
            let n2 = decimal_value.as_str().unicode_len();
            if n2 == 0 {
                return Err(
                    Diagnostic::new(
                        DiagnosticSeverity::Error,
                        String::from_str("Invalid number, expected digit"),
                        Range::new(
                            Position::new(self.line, self.character),
                            Position::new(self.line, self.character + 1),
                        ),
                    ),
                );
            }
            let mut text = String::new();
            if sign {
                text.push('-');
            }
            text.append(number_value.as_str());
            text.push('.');
            text.append(decimal_value.as_str());
            proof {
                assert(text@ =~= src.subrange(i0, self.idx()));
            }
            return Ok(
                LexicalToken::new(
                    LexicalTokenType::FloatValue(text),
                    Range::new(start_position, Position::new(self.line, self.character)),
                ),
            );
        }
        let value_opt = eval_digits(&number_value);
        let parsed: Option<i32> = match value_opt {
            Some(v) => {
                if sign {
                    if v == 2147483648 {
                        Some(i32::MIN)
                    } else {
                        Some(-(v as i32))
                    }
                } else {
                    if v <= 2147483647 {
                        Some(v as i32)
                    } else {
                        None
                    }
                }
            },
            None => None,
        };
        match parsed {
            Some(value) => Ok(
                LexicalToken::new(
                    LexicalTokenType::IntValue(value),
                    Range::new(start_position, Position::new(self.line, self.character)),
                ),
            ),
            None => Err(
                Diagnostic::new(
                    DiagnosticSeverity::Error,
                    String::from_str("Invalid number"),
                    Range::new(
                        Position::new(self.line, self.character),
                        Position::new(self.line, self.character + 1),
                    ),
                ),
            ),
        }
    }

    /// Runs the whole scan, returning the token sequence closed by a
    /// zero-width `EOF` token, or the first lexical error.
    pub fn lex(&mut self) -> (r: Result<Vec<LexicalToken>, Diagnostic>)
        requires
            old(self).wf(),
        ensures
            final(self).wf(),
            match r {
                Ok(v) => spec_lex_from(
                    old(self).src(),
                    old(self).idx(),
                    old(self).line_no(),
                    old(self).col(),
                ) == Ok::<_, SpecDiagnostic>(spec_tokens(v@)),
                Err(d) => spec_lex_from(
                    old(self).src(),
                    old(self).idx(),
                    old(self).line_no(),
                    old(self).col(),
                ) == Err::<Seq<SpecToken>, _>(d@),
            },
    {
        let ghost src = self.src();
        let ghost i0 = self.idx();
        let ghost l0 = self.line_no();
        let ghost c0 = self.col();
        let mut tokens: Vec<LexicalToken> = Vec::new();
        loop
            invariant
                self.wf(),
                self.src() == src,
                src == old(self).src(),
                i0 == old(self).idx(),
                l0 == old(self).line_no(),
                c0 == old(self).col(),
                spec_lex_from(src, i0, l0, c0) == spec_prepend_tokens(
                    spec_tokens(tokens@),
                    spec_lex_from(src, self.idx(), self.line_no(), self.col()),
                ),
            ensures
                self.wf(),
                self.src() == src,
                self.idx() >= src.len(),
                spec_lex_from(src, i0, l0, c0) == spec_prepend_tokens(
                    spec_tokens(tokens@),
                    spec_lex_from(src, self.idx(), self.line_no(), self.col()),
                ),
            decreases src.len() + 1 - self.idx(),
        {
            let c = match self.peek() {
                Some(c) => c,
                None => {
                    break ;
                },
            };
            let ghost toks_before = tokens@;
            let ghost ic = self.idx();
            let ghost lc = self.line_no();
            let ghost cc = self.col();
            if c == SPACE || c == TAB || c == BOM || c == ',' {
                self.next();
            } else if c == NEW_LINE || c == CARRIAGE_RETURN {
                self.next();
                self.line = self.line + 1;
                self.character = 0;
            } else if c == '#' {
                self.skip_comment();
                proof {
                    lemma_comment_run_le(src, ic);
                }
            } else if c == '!' || c == '$' || c == '&' || c == '(' || c == ')' || c == ':' || c
                == '=' || c == '@' || c == '[' || c == ']' || c == '{' || c == '}' || c == '|' {
                let punctuator = char_to_punctuator(c);
                let character = self.character;
                self.next();
                let t = LexicalToken::new(
                    LexicalTokenType::Punctuator(punctuator),
                    Range::new(
                        Position::new(self.line, character),
                        Position::new(self.line, self.character),
                    ),
                );
                proof {
                    lemma_spec_tokens_push(tokens@, t);
                    lemma_prepend_assoc(
                        spec_tokens(toks_before),
                        t@,
                        spec_lex_from(src, self.idx(), self.line_no(), self.col()),
                    );
                }
                tokens.push(t);
            } else if c == '.' {
                let start_position = Position::new(self.line, self.character);
                self.next();
                match self.expect_peek('.') {
                    Ok(_) => {},
                    Err(d) => {
                        return Err(d);
                    },
                }
                self.next();
                match self.expect_peek('.') {
                    Ok(_) => {},
                    Err(d) => {
                        return Err(d);
                    },
                }
                self.next();
                let t = LexicalToken::new(
                    LexicalTokenType::Punctuator(Punctuator::Ellipsis),
                    Range::new(start_position, Position::new(self.line, self.character)),
                );
                proof {
                    lemma_spec_tokens_push(tokens@, t);
                    lemma_prepend_assoc(
                        spec_tokens(toks_before),
                        t@,
                        spec_lex_from(src, self.idx(), self.line_no(), self.col()),
                    );
                }
                tokens.push(t);
            } else if c == '"' {
                match self.tokenize_string() {
                    Ok(t) => {
                        proof {
                            lemma_spec_tokens_push(tokens@, t);
                            lemma_prepend_assoc(
                                spec_tokens(toks_before),
                                t@,
                                spec_lex_from(src, self.idx(), self.line_no(), self.col()),
                            );
                        }
                        tokens.push(t);
                    },
                    Err(d) => {
                        return Err(d);
                    },
                }
            } else if c == '-' || ('0' <= c && c <= '9') {
                match self.tokenize_number() {
                    Ok(t) => {
                        proof {
                            lemma_spec_tokens_push(tokens@, t);
                            lemma_prepend_assoc(
                                spec_tokens(toks_before),
                                t@,
                                spec_lex_from(src, self.idx(), self.line_no(), self.col()),
                            );
                        }
                        tokens.push(t);
                    },
                    Err(d) => {
                        return Err(d);
                    },
                }
            } else if ('a' <= c && c <= 'z') || ('A' <= c && c <= 'Z') || c == '_' {
                let character = self.character;
                let line = self.line;
                proof {
                    lemma_name_run_le(src, ic);
                }
                let value = self.consume_name();
                let t = LexicalToken::new(
                    LexicalTokenType::Name(value),
                    Range::new(
                        Position::new(line, character),
                        Position::new(self.line, self.character),
                    ),
                );
                proof {
                    lemma_spec_tokens_push(tokens@, t);
                    lemma_prepend_assoc(
                        spec_tokens(toks_before),
                        t@,
                        spec_lex_from(src, self.idx(), self.line_no(), self.col()),
                    );
                }
                tokens.push(t);
            } else {
                let mut m = String::from_str("Unexpected character: ");
                m.push(c);
                proof {
                    assert(m@ =~= "Unexpected character: "@ + seq![c]);
                }
                return Err(
                    Diagnostic::new(
                        DiagnosticSeverity::Error,
                        m,
                        Range::new(
                            Position::new(self.line, self.character),
                            Position::new(self.line, self.character + 1),
                        ),
                    ),
                );
            }
        }
        let t = LexicalToken::new(
            LexicalTokenType::EOF,
            Range::new(
                Position::new(self.line, self.character),
                Position::new(self.line, self.character),
            ),
        );
        let ghost pre = tokens@;
        tokens.push(t);
        proof {
            lemma_spec_tokens_push(pre, t);
            assert(spec_tokens(pre).push(t@) =~= spec_tokens(pre) + seq![t@]);
            assert(spec_lex_from(src, self.idx(), self.line_no(), self.col()) == Ok::<
                _,
                SpecDiagnostic,
            >(seq![t@]));
        }
        Ok(tokens)
    }
}

/// The step digits take when one more is read.
proof fn lemma_digits_val_step(s: Seq<char>, k: int)
    requires
        0 <= k < s.len(),
    ensures
        digits_val(s.subrange(0, k + 1)) == digits_val(s.subrange(0, k)) * 10 + (s[k] as int
            - '0' as int),
{
    assert(s.subrange(0, k + 1).subrange(0, k) =~= s.subrange(0, k));
    assert(digits_val(s.subrange(0, k + 1)) == digits_val(s.subrange(0, k + 1).subrange(0, k)) * 10
        + (s[k] as int - '0' as int));
}

/// Reads the numeric value of a string of ASCII digits; `None` when the
/// value exceeds 2^31, the magnitude past which no signed 32-bit literal
/// exists.
#[verifier::loop_isolation(false)]
fn eval_digits(s: &String) -> (r: Option<u32>)
    requires
        forall|k: int| 0 <= k < s@.len() ==> spec_is_digit(#[trigger] s@[k]),
    ensures
        match r {
            Some(v) => v as int == digits_val(s@) && digits_val(s@) <= 2147483648,
            None => digits_val(s@) > 2147483648,
        },
{
    let st = s.as_str();
    let n = st.unicode_len();
    let mut acc: u32 = 0;
    let mut overflowed = false;
    let mut i: usize = 0;
    proof {
        assert(s@.subrange(0, 0) =~= Seq::<char>::empty());
    }
    while i < n
        invariant
            i <= n,
            n == s@.len(),
            st@ == s@,
            forall|k: int| 0 <= k < s@.len() ==> spec_is_digit(#[trigger] s@[k]),
            !overflowed ==> acc as int == digits_val(s@.subrange(0, i as int)) && acc
                <= 2147483648,
            overflowed ==> digits_val(s@.subrange(0, i as int)) > 2147483648,
        decreases n - i,
    {
        let c = st.get_char(i);
        let d: u32 = (c as u32) - 48;
        proof {
            lemma_digits_val_step(s@, i as int);
            lemma_digits_val_nonneg(s@.subrange(0, i as int));
        }
        if overflowed {
            proof {
                let prev = digits_val(s@.subrange(0, i as int));
                assert(digits_val(s@.subrange(0, i + 1)) == prev * 10 + (c as int - '0' as int));
                assert(prev * 10 >= prev * 2) by (nonlinear_arith)
                    requires
                        prev >= 0,
                ;
            }
        } else {
            if acc > 214748364 || (acc == 214748364 && d > 8) {
                proof {
                    let prev = digits_val(s@.subrange(0, i as int));
                    assert(prev == acc as int);
                    assert(digits_val(s@.subrange(0, i + 1)) == prev * 10 + (c as int
                        - '0' as int));
                    if acc > 214748364 {
                        assert(prev * 10 > 2147483648) by (nonlinear_arith)
                            requires
                                prev >= 214748365,
                        ;
                    }
                }
                overflowed = true;
            } else {
                acc = acc * 10 + d;
                proof {
                    assert(acc as int == digits_val(s@.subrange(0, i + 1)));
                }
            }
        }
        i = i + 1;
    }
    proof {
        assert(s@.subrange(0, n as int) =~= s@);
    }
    if overflowed {
        None
    } else {
        Some(acc)
    }
}

} // verus!
