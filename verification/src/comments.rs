use vstd::prelude::*;

verus! {

/// Where the scanner stands in Cairo source: in code, in a `//` comment, in a
/// (possibly nested) `/* */` comment of the given depth, or inside a quoted
/// literal.
pub enum ScanMode {
    Code,
    LineComment,
    BlockComment { depth: nat },
    SingleQuote,
    DoubleQuote,
}

pub open spec fn byte_at_is(input: Seq<u8>, i: int, b: u8) -> bool {
    0 <= i < input.len() && input[i] == b
}

/// The output that scanning `input` from position `i` in `mode` produces:
/// comments vanish except for the newlines inside them, nested block comments
/// close only at their outermost `*/`, and everything inside quotes is kept,
/// with a backslash always taking the byte after it along.
pub open spec fn strip_from(input: Seq<u8>, i: int, mode: ScanMode) -> Seq<u8>
    decreases input.len() - i, 0int,
{
    if i < 0 || i >= input.len() {
        Seq::empty()
    } else {
        let b = input[i];
        match mode {
            ScanMode::Code => {
                if b == 0x2f && byte_at_is(input, i + 1, 0x2f) {
                    strip_from(input, i + 2, ScanMode::LineComment)
                } else if b == 0x2f && byte_at_is(input, i + 1, 0x2a) {
                    strip_from(input, i + 2, ScanMode::BlockComment { depth: 1 })
                } else if b == 0x27 {
                    seq![b] + strip_from(input, i + 1, ScanMode::SingleQuote)
                } else if b == 0x22 {
                    seq![b] + strip_from(input, i + 1, ScanMode::DoubleQuote)
                } else {
                    seq![b] + strip_from(input, i + 1, ScanMode::Code)
                }
            },
            ScanMode::LineComment => {
                if b == 0x0a {
                    seq![b] + strip_from(input, i + 1, ScanMode::Code)
                } else {
                    strip_from(input, i + 1, ScanMode::LineComment)
                }
            },
            ScanMode::BlockComment { depth } => {
                if b == 0x2f && byte_at_is(input, i + 1, 0x2a) {
                    strip_from(input, i + 2, ScanMode::BlockComment { depth: depth + 1 })
                } else if b == 0x2a && byte_at_is(input, i + 1, 0x2f) {
                    if depth <= 1 {
                        strip_from(input, i + 2, ScanMode::Code)
                    } else {
                        strip_from(input, i + 2, ScanMode::BlockComment { depth: (depth - 1) as nat })
                    }
                } else if b == 0x0a {
                    seq![b] + strip_from(input, i + 1, ScanMode::BlockComment { depth })
                } else {
                    strip_from(input, i + 1, ScanMode::BlockComment { depth })
                }
            },
            ScanMode::SingleQuote => {
                if b == 0x5c && i + 1 < input.len() {
                    seq![b, input[i + 1]] + strip_from(input, i + 2, ScanMode::SingleQuote)
                } else if b == 0x27 {
                    seq![b] + strip_from(input, i + 1, ScanMode::Code)
                } else {
                    seq![b] + strip_from(input, i + 1, ScanMode::SingleQuote)
                }
            },
            ScanMode::DoubleQuote => {
                if b == 0x5c && i + 1 < input.len() {
                    seq![b, input[i + 1]] + strip_from(input, i + 2, ScanMode::DoubleQuote)
                } else if b == 0x22 {
                    seq![b] + strip_from(input, i + 1, ScanMode::Code)
                } else {
                    seq![b] + strip_from(input, i + 1, ScanMode::DoubleQuote)
                }
            },
        }
    }
}

/// Cairo source with its comments removed, scanned from the start in code.
pub open spec fn stripped(input: Seq<u8>) -> Seq<u8> {
    strip_from(input, 0, ScanMode::Code)
}

/// Executable scanner state; `depth` counts open block comments.
#[derive(Clone, Copy)]
enum Mode {
    Code,
    LineComment,
    BlockComment { depth: u64 },
    SingleQuote,
    DoubleQuote,
}

spec fn mode_view(m: Mode) -> ScanMode {
    match m {
        Mode::Code => ScanMode::Code,
        Mode::LineComment => ScanMode::LineComment,
        Mode::BlockComment { depth } => ScanMode::BlockComment { depth: depth as nat },
        Mode::SingleQuote => ScanMode::SingleQuote,
        Mode::DoubleQuote => ScanMode::DoubleQuote,
    }
}

/// Removes `//` line comments and nested `/* */` block comments from Cairo
/// source bytes, keeping the newlines inside comments and leaving quoted
/// literals untouched.
pub fn strip_cairo_comments(input: &[u8]) -> (out: Vec<u8>)
    ensures
        out@ == stripped(input@),
{
    let mut mode = Mode::Code;
    let mut out: Vec<u8> = Vec::new();
    let mut i: usize = 0;
    while i < input.len()
        invariant
            i <= input.len(),
            out@ + strip_from(input@, i as int, mode_view(mode)) == stripped(input@),
            match mode {
                Mode::BlockComment { depth } => 1 <= depth <= i,
                _ => true,
            },
        decreases input.len() - i,
    {
        let b = input[i];
        let has_next = i + 1 < input.len();
        let next: u8 = if has_next { input[i + 1] } else { 0 };
        let ghost before = out@;
        match mode {
            Mode::Code => {
                if b == 0x2f && has_next && next == 0x2f {
                    mode = Mode::LineComment;
                    i = i + 2;
                } else if b == 0x2f && has_next && next == 0x2a {
                    mode = Mode::BlockComment { depth: 1 };
                    i = i + 2;
                } else {
                    out.push(b);
                    if b == 0x27 {
                        mode = Mode::SingleQuote;
                    } else if b == 0x22 {
                        mode = Mode::DoubleQuote;
                    }
                    i = i + 1;
                    assert(out@ == before + seq![b]);
                }
            },
            Mode::LineComment => {
                if b == 0x0a {
                    out.push(0x0a);
                    mode = Mode::Code;
                    assert(out@ == before + seq![b]);
                }
                i = i + 1;
            },
            Mode::BlockComment { depth } => {
                if b == 0x2f && has_next && next == 0x2a {
                    mode = Mode::BlockComment { depth: depth + 1 };
                    i = i + 2;
                } else if b == 0x2a && has_next && next == 0x2f {
                    if depth <= 1 {
                        mode = Mode::Code;
                    } else {
                        mode = Mode::BlockComment { depth: depth - 1 };
                    }
                    i = i + 2;
                } else {
                    if b == 0x0a {
                        out.push(0x0a);
                        assert(out@ == before + seq![b]);
                    }
                    i = i + 1;
                }
            },
            Mode::SingleQuote => {
                out.push(b);
                if b == 0x5c && has_next {
                    out.push(next);
                    i = i + 2;
                    assert(out@ == before + seq![b, next]);
                } else {
                    if b == 0x27 {
                        mode = Mode::Code;
                    }
                    i = i + 1;
                    assert(out@ == before + seq![b]);
                }
            },
            Mode::DoubleQuote => {
                out.push(b);
                if b == 0x5c && has_next {
                    out.push(next);
                    i = i + 2;
                    assert(out@ == before + seq![b, next]);
                } else {
                    if b == 0x22 {
                        mode = Mode::Code;
                    }
                    i = i + 1;
                    assert(out@ == before + seq![b]);
                }
            },
        }
    }
    assert(strip_from(input@, i as int, mode_view(mode)) == Seq::<u8>::empty());
    assert(out@ + Seq::<u8>::empty() == out@);
    out
}


/// How many newline bytes `s` holds.
pub open spec fn newline_count(s: Seq<u8>) -> nat
    decreases s.len(),
{
    if s.len() == 0 {
        0
    } else {
        (if s[0] == 0x0a { 1nat } else { 0nat }) + newline_count(s.drop_first())
    }
}

proof fn lemma_newline_count_step(input: Seq<u8>, i: int)
    requires
        0 <= i < input.len(),
    ensures
        newline_count(input.subrange(i, input.len() as int)) == (if input[i] == 0x0a {
            1nat
        } else {
            0nat
        }) + newline_count(input.subrange(i + 1, input.len() as int)),
{
    assert(input.subrange(i, input.len() as int).drop_first() =~= input.subrange(
        i + 1,
        input.len() as int,
    ));
}

proof fn lemma_newline_count_prepend(b: u8, s: Seq<u8>)
    ensures
        newline_count(seq![b] + s) == (if b == 0x0a { 1nat } else { 0nat }) + newline_count(s),
{
    assert((seq![b] + s).drop_first() =~= s);
}

proof fn lemma_strip_from_newlines(input: Seq<u8>, i: int, mode: ScanMode)
    requires
        0 <= i <= input.len(),
    ensures
        newline_count(strip_from(input, i, mode)) == newline_count(
            input.subrange(i, input.len() as int),
        ),
        strip_from(input, i, mode).len() <= input.len() - i,
    decreases input.len() - i,
{
    if i == input.len() {
        assert(input.subrange(i, input.len() as int) =~= Seq::<u8>::empty());
    } else {
        let b = input[i];
        lemma_newline_count_step(input, i);
        if i + 1 < input.len() {
            lemma_newline_count_step(input, i + 1);
        }
        match mode {
            ScanMode::Code => {
                if b == 0x2f && byte_at_is(input, i + 1, 0x2f) {
                    lemma_strip_from_newlines(input, i + 2, ScanMode::LineComment);
                } else if b == 0x2f && byte_at_is(input, i + 1, 0x2a) {
                    lemma_strip_from_newlines(input, i + 2, ScanMode::BlockComment { depth: 1 });
                } else if b == 0x27 {
                    lemma_strip_from_newlines(input, i + 1, ScanMode::SingleQuote);
                    lemma_newline_count_prepend(b, strip_from(input, i + 1, ScanMode::SingleQuote));
                } else if b == 0x22 {
                    lemma_strip_from_newlines(input, i + 1, ScanMode::DoubleQuote);
                    lemma_newline_count_prepend(b, strip_from(input, i + 1, ScanMode::DoubleQuote));
                } else {
                    lemma_strip_from_newlines(input, i + 1, ScanMode::Code);
                    lemma_newline_count_prepend(b, strip_from(input, i + 1, ScanMode::Code));
                }
            },
            ScanMode::LineComment => {
                if b == 0x0a {
                    lemma_strip_from_newlines(input, i + 1, ScanMode::Code);
                    lemma_newline_count_prepend(b, strip_from(input, i + 1, ScanMode::Code));
                } else {
                    lemma_strip_from_newlines(input, i + 1, ScanMode::LineComment);
                }
            },
            ScanMode::BlockComment { depth } => {
                if b == 0x2f && byte_at_is(input, i + 1, 0x2a) {
                    lemma_strip_from_newlines(
                        input,
                        i + 2,
                        ScanMode::BlockComment { depth: depth + 1 },
                    );
                } else if b == 0x2a && byte_at_is(input, i + 1, 0x2f) {
                    if depth <= 1 {
                        lemma_strip_from_newlines(input, i + 2, ScanMode::Code);
                    } else {
                        lemma_strip_from_newlines(
                            input,
                            i + 2,
                            ScanMode::BlockComment { depth: (depth - 1) as nat },
                        );
                    }
                } else if b == 0x0a {
                    lemma_strip_from_newlines(input, i + 1, mode);
                    lemma_newline_count_prepend(b, strip_from(input, i + 1, mode));
                } else {
                    lemma_strip_from_newlines(input, i + 1, mode);
                }
            },
            ScanMode::SingleQuote => {
                if b == 0x5c && i + 1 < input.len() {
                    let rest = strip_from(input, i + 2, ScanMode::SingleQuote);
                    lemma_strip_from_newlines(input, i + 2, ScanMode::SingleQuote);
                    lemma_newline_count_prepend(input[i + 1], rest);
                    lemma_newline_count_prepend(b, seq![input[i + 1]] + rest);
                    assert(seq![b, input[i + 1]] + rest =~= seq![b] + (seq![input[i + 1]] + rest));
                } else if b == 0x27 {
                    lemma_strip_from_newlines(input, i + 1, ScanMode::Code);
                    lemma_newline_count_prepend(b, strip_from(input, i + 1, ScanMode::Code));
                } else {
                    lemma_strip_from_newlines(input, i + 1, mode);
                    lemma_newline_count_prepend(b, strip_from(input, i + 1, mode));
                }
            },
            ScanMode::DoubleQuote => {
                if b == 0x5c && i + 1 < input.len() {
                    let rest = strip_from(input, i + 2, ScanMode::DoubleQuote);
                    lemma_strip_from_newlines(input, i + 2, ScanMode::DoubleQuote);
                    lemma_newline_count_prepend(input[i + 1], rest);
                    lemma_newline_count_prepend(b, seq![input[i + 1]] + rest);
                    assert(seq![b, input[i + 1]] + rest =~= seq![b] + (seq![input[i + 1]] + rest));
                } else if b == 0x22 {
                    lemma_strip_from_newlines(input, i + 1, ScanMode::Code);
                    lemma_newline_count_prepend(b, strip_from(input, i + 1, ScanMode::Code));
                } else {
                    lemma_strip_from_newlines(input, i + 1, mode);
                    lemma_newline_count_prepend(b, strip_from(input, i + 1, mode));
                }
            },
        }
    }
}

/// Stripping comments keeps every line: the output holds exactly as many
/// newline bytes as the input, and it is never longer than the input.
pub proof fn lemma_strip_keeps_line_structure(input: Seq<u8>)
    ensures
        newline_count(stripped(input)) == newline_count(input),
        stripped(input).len() <= input.len(),
{
    lemma_strip_from_newlines(input, 0, ScanMode::Code);
    assert(input.subrange(0, input.len() as int) =~= input);
}

proof fn lemma_strip_from_without_slash(input: Seq<u8>, i: int, mode: ScanMode)
    requires
        0 <= i <= input.len(),
        mode is Code || mode is SingleQuote || mode is DoubleQuote,
        forall|k: int| i <= k < input.len() ==> input[k] != 0x2f,
    ensures
        strip_from(input, i, mode) == input.subrange(i, input.len() as int),
    decreases input.len() - i,
{
    if i == input.len() {
        assert(input.subrange(i, input.len() as int) =~= Seq::<u8>::empty());
    } else {
        let b = input[i];
        let escape = (mode is SingleQuote || mode is DoubleQuote) && b == 0x5c && i + 1
            < input.len();
        if escape {
            lemma_strip_from_without_slash(input, i + 2, mode);
            assert(seq![b, input[i + 1]] + input.subrange(i + 2, input.len() as int)
                =~= input.subrange(i, input.len() as int));
        } else {
            let next_mode = match mode {
                ScanMode::Code => if b == 0x27 {
                    ScanMode::SingleQuote
                } else if b == 0x22 {
                    ScanMode::DoubleQuote
                } else {
                    ScanMode::Code
                },
                ScanMode::SingleQuote => if b == 0x27 {
                    ScanMode::Code
                } else {
                    ScanMode::SingleQuote
                },
                _ => if b == 0x22 {
                    ScanMode::Code
                } else {
                    ScanMode::DoubleQuote
                },
            };
            lemma_strip_from_without_slash(input, i + 1, next_mode);
            assert(strip_from(input, i, mode) == seq![b] + strip_from(input, i + 1, next_mode));
            assert(seq![b] + input.subrange(i + 1, input.len() as int) =~= input.subrange(
                i,
                input.len() as int,
            ));
        }
    }
}

/// Source without a single `/` holds no comment, and stripping returns it
/// unchanged.
pub proof fn lemma_strip_without_slash_is_identity(input: Seq<u8>)
    requires
        forall|k: int| 0 <= k < input.len() ==> input[k] != 0x2f,
    ensures
        stripped(input) == input,
{
    lemma_strip_from_without_slash(input, 0, ScanMode::Code);
    assert(input.subrange(0, input.len() as int) =~= input);
}

/// How many bytes the scanner consumes at `i` in `mode`.
pub open spec fn step_skip(input: Seq<u8>, i: int, mode: ScanMode) -> int {
    let b = input[i];
    match mode {
        ScanMode::Code => if b == 0x2f && (byte_at_is(input, i + 1, 0x2f) || byte_at_is(
            input,
            i + 1,
            0x2a,
        )) {
            2
        } else {
            1
        },
        ScanMode::LineComment => 1,
        ScanMode::BlockComment { depth } => if (b == 0x2f && byte_at_is(input, i + 1, 0x2a)) || (b
            == 0x2a && byte_at_is(input, i + 1, 0x2f)) {
            2
        } else {
            1
        },
        _ => if b == 0x5c && i + 1 < input.len() {
            2
        } else {
            1
        },
    }
}

/// How many of the consumed bytes the scanner keeps, from the first on.
pub open spec fn step_keep(input: Seq<u8>, i: int, mode: ScanMode) -> int {
    let b = input[i];
    match mode {
        ScanMode::Code => if b == 0x2f && (byte_at_is(input, i + 1, 0x2f) || byte_at_is(
            input,
            i + 1,
            0x2a,
        )) {
            0
        } else {
            1
        },
        ScanMode::LineComment => if b == 0x0a {
            1
        } else {
            0
        },
        ScanMode::BlockComment { depth } => if (b == 0x2f && byte_at_is(input, i + 1, 0x2a)) || (b
            == 0x2a && byte_at_is(input, i + 1, 0x2f)) {
            0
        } else if b == 0x0a {
            1
        } else {
            0
        },
        _ => if b == 0x5c && i + 1 < input.len() {
            2
        } else {
            1
        },
    }
}

/// The mode the scanner goes on in after its step at `i`.
pub open spec fn step_mode(input: Seq<u8>, i: int, mode: ScanMode) -> ScanMode {
    let b = input[i];
    match mode {
        ScanMode::Code => if b == 0x2f && byte_at_is(input, i + 1, 0x2f) {
            ScanMode::LineComment
        } else if b == 0x2f && byte_at_is(input, i + 1, 0x2a) {
            ScanMode::BlockComment { depth: 1 }
        } else if b == 0x27 {
            ScanMode::SingleQuote
        } else if b == 0x22 {
            ScanMode::DoubleQuote
        } else {
            ScanMode::Code
        },
        ScanMode::LineComment => if b == 0x0a {
            ScanMode::Code
        } else {
            ScanMode::LineComment
        },
        ScanMode::BlockComment { depth } => if b == 0x2f && byte_at_is(input, i + 1, 0x2a) {
            ScanMode::BlockComment { depth: depth + 1 }
        } else if b == 0x2a && byte_at_is(input, i + 1, 0x2f) {
            if depth <= 1 {
                ScanMode::Code
            } else {
                ScanMode::BlockComment { depth: (depth - 1) as nat }
            }
        } else {
            ScanMode::BlockComment { depth }
        },
        ScanMode::SingleQuote => if b == 0x5c && i + 1 < input.len() {
            ScanMode::SingleQuote
        } else if b == 0x27 {
            ScanMode::Code
        } else {
            ScanMode::SingleQuote
        },
        ScanMode::DoubleQuote => if b == 0x5c && i + 1 < input.len() {
            ScanMode::DoubleQuote
        } else if b == 0x22 {
            ScanMode::Code
        } else {
            ScanMode::DoubleQuote
        },
    }
}

proof fn lemma_strip_step(input: Seq<u8>, i: int, mode: ScanMode)
    requires
        0 <= i < input.len(),
    ensures
        0 <= step_keep(input, i, mode) <= step_skip(input, i, mode),
        1 <= step_skip(input, i, mode),
        i + step_skip(input, i, mode) <= input.len(),
        strip_from(input, i, mode) == input.subrange(i, i + step_keep(input, i, mode)) + strip_from(
            input,
            i + step_skip(input, i, mode),
            step_mode(input, i, mode),
        ),
{
    let k = step_keep(input, i, mode);
    let nxt = strip_from(input, i + step_skip(input, i, mode), step_mode(input, i, mode));
    if k == 0 {
        assert(input.subrange(i, i) + nxt =~= nxt);
    } else if k == 1 {
        assert(input.subrange(i, i + 1) =~= seq![input[i]]);
    } else {
        assert(input.subrange(i, i + 2) =~= seq![input[i], input[i + 1]]);
    }
}

/// Whether `idx` lists, in increasing order, positions of `input` that hold
/// the bytes of `out` one by one.
pub open spec fn embeds_at(out: Seq<u8>, input: Seq<u8>, idx: Seq<int>) -> bool {
    &&& idx.len() == out.len()
    &&& forall|k: int| 0 <= k < idx.len() ==> 0 <= #[trigger] idx[k] < input.len() && input[idx[k]] == out[k]
    &&& forall|k: int, l: int| 0 <= k < l < idx.len() ==> #[trigger] idx[k] < #[trigger] idx[l]
}

/// Whether `out` is a subsequence of `input`.
pub open spec fn is_subsequence(out: Seq<u8>, input: Seq<u8>) -> bool {
    exists|idx: Seq<int>| embeds_at(out, input, idx)
}

proof fn lemma_strip_from_embeds(input: Seq<u8>, i: int, mode: ScanMode) -> (idx: Seq<int>)
    requires
        0 <= i,
    ensures
        embeds_at(strip_from(input, i, mode), input, idx),
        forall|k: int| 0 <= k < idx.len() ==> i <= #[trigger] idx[k],
    decreases input.len() - i,
{
    if i >= input.len() {
        Seq::empty()
    } else {
        lemma_strip_step(input, i, mode);
        let skip = step_skip(input, i, mode);
        let keep = step_keep(input, i, mode);
        let rest = lemma_strip_from_embeds(input, i + skip, step_mode(input, i, mode));
        let head = Seq::new(keep as nat, |k: int| i + k);
        let idx = head + rest;
        let out = strip_from(input, i, mode);
        let kept = input.subrange(i, i + keep);
        assert(out == kept + strip_from(input, i + skip, step_mode(input, i, mode)));
        assert forall|k: int| 0 <= k < idx.len() implies 0 <= #[trigger] idx[k] < input.len()
            && input[idx[k]] == out[k] && i <= idx[k] by {
            if k < keep {
                assert(idx[k] == i + k);
                assert(out[k] == kept[k]);
            } else {
                assert(idx[k] == rest[k - keep]);
                assert(out[k] == strip_from(input, i + skip, step_mode(input, i, mode))[k - keep]);
            }
        }
        assert forall|k: int, l: int| 0 <= k < l < idx.len() implies #[trigger] idx[k]
            < #[trigger] idx[l] by {
            if l < keep {
            } else if k < keep {
                assert(idx[l] == rest[l - keep]);
                assert(i + skip <= rest[l - keep]);
            } else {
                assert(idx[k] == rest[k - keep] && idx[l] == rest[l - keep]);
            }
        }
        idx
    }
}

/// Stripping comments only deletes bytes: the output is a subsequence of
/// the input.
pub proof fn lemma_strip_output_is_subsequence(input: Seq<u8>)
    ensures
        is_subsequence(stripped(input), input),
{
    let idx = lemma_strip_from_embeds(input, 0, ScanMode::Code);
    assert(embeds_at(stripped(input), input, idx));
}

/// Plain code bytes: no slash, quote or apostrophe.
pub open spec fn is_plain_code(p: Seq<u8>) -> bool {
    forall|k: int| 0 <= k < p.len() ==> #[trigger] p[k] != 0x2f && p[k] != 0x27 && p[k] != 0x22
}

proof fn lemma_strip_line_comment_to_end(input: Seq<u8>, i: int)
    requires
        0 <= i,
        forall|k: int| i <= k < input.len() ==> #[trigger] input[k] != 0x0a,
    ensures
        strip_from(input, i, ScanMode::LineComment) == Seq::<u8>::empty(),
    decreases input.len() - i,
{
    if i < input.len() {
        lemma_strip_line_comment_to_end(input, i + 1);
    }
}

proof fn lemma_strip_plain_prefix(input: Seq<u8>, n: int, i: int)
    requires
        0 <= i <= n <= input.len(),
        is_plain_code(input.take(n)),
    ensures
        strip_from(input, i, ScanMode::Code) == input.subrange(i, n) + strip_from(
            input,
            n,
            ScanMode::Code,
        ),
    decreases n - i,
{
    if i < n {
        assert(input.take(n)[i] == input[i]);
        lemma_strip_plain_prefix(input, n, i + 1);
        assert(input.subrange(i, n) =~= seq![input[i]] + input.subrange(i + 1, n));
    } else {
        assert(input.subrange(i, n) =~= Seq::<u8>::empty());
    }
}

/// A line comment that runs to the end of the source vanishes, whatever it
/// says: plain code followed by `//` and text without a newline strips to
/// the code alone, so edits inside such a comment leave the stripped
/// source, and the semantic hash built on it, unchanged.
pub proof fn lemma_strip_drops_trailing_line_comment(code: Seq<u8>, comment: Seq<u8>)
    requires
        is_plain_code(code),
        forall|k: int| 0 <= k < comment.len() ==> #[trigger] comment[k] != 0x0a,
    ensures
        stripped(code + seq![0x2fu8, 0x2fu8] + comment) == code,
{
    let input = code + seq![0x2fu8, 0x2fu8] + comment;
    let n = code.len() as int;
    assert(input.take(n) =~= code);
    lemma_strip_plain_prefix(input, n, 0);
    assert(input.subrange(0, n) =~= code);
    assert(input[n] == 0x2f && input[n + 1] == 0x2f);
    assert forall|k: int| n + 2 <= k < input.len() implies #[trigger] input[k] != 0x0a by {
        assert(input[k] == comment[k - n - 2]);
    }
    lemma_strip_line_comment_to_end(input, n + 2);
    assert(code + Seq::<u8>::empty() =~= code);
}


/// The mode in which the scanner, started at `i` in `mode`, reads position
/// `k`; none when it never stops there (it passes over the second byte of
/// a `//`, `/*`, `*/` or an escape pair).
pub open spec fn mode_at(input: Seq<u8>, i: int, mode: ScanMode, k: int) -> Option<ScanMode>
    decreases input.len() - i,
{
    if i < 0 || k < i || k >= input.len() {
        None
    } else if k == i {
        Some(mode)
    } else {
        mode_at(input, i + step_skip(input, i, mode), step_mode(input, i, mode), k)
    }
}

/// Whether the scanner reads position `k` of the source inside a comment.
pub open spec fn in_comment_body(input: Seq<u8>, k: int) -> bool {
    match mode_at(input, 0, ScanMode::Code, k) {
        Some(ScanMode::LineComment) => true,
        Some(ScanMode::BlockComment { .. }) => true,
        _ => false,
    }
}

/// A byte that can neither end nor open a comment nor survive stripping:
/// not a newline, `/` or `*`.
pub open spec fn comment_neutral(b: u8) -> bool {
    b != 0x0a && b != 0x2f && b != 0x2a
}

/// Two sources of one length that differ only in comment text: every
/// position where they differ is read inside a comment of `a`, and holds a
/// neutral byte in both.
pub open spec fn differ_in_comment_text(a: Seq<u8>, b: Seq<u8>) -> bool {
    &&& a.len() == b.len()
    &&& forall|k: int|
        0 <= k < a.len() && a[k] != b[k] ==> in_comment_body(a, k) && comment_neutral(#[trigger] a[k])
            && comment_neutral(b[k])
}

proof fn lemma_strip_from_comment_edit(a: Seq<u8>, b: Seq<u8>, i: int, mode: ScanMode)
    requires
        a.len() == b.len(),
        0 <= i,
        forall|k: int|
            i <= k < a.len() && a[k] != b[k] ==> (match mode_at(a, i, mode, k) {
                Some(ScanMode::LineComment) => true,
                Some(ScanMode::BlockComment { .. }) => true,
                _ => false,
            }) && comment_neutral(#[trigger] a[k]) && comment_neutral(b[k]),
    ensures
        strip_from(a, i, mode) == strip_from(b, i, mode),
    decreases a.len() - i,
{
    if i < a.len() {
        lemma_strip_step(a, i, mode);
        lemma_strip_step(b, i, mode);
        if i + 1 < a.len() && a[i + 1] != b[i + 1] {
            assert(comment_neutral(a[i + 1]) && comment_neutral(b[i + 1]));
        }
        assert(step_skip(a, i, mode) == step_skip(b, i, mode));
        assert(step_mode(a, i, mode) == step_mode(b, i, mode));
        assert(step_keep(a, i, mode) == step_keep(b, i, mode));
        let j = i + step_skip(a, i, mode);
        let m = step_mode(a, i, mode);
        let kp = step_keep(a, i, mode);
        if kp >= 1 {
            assert(a[i] == b[i]);
        }
        if kp == 2 {
            assert(mode_at(a, i, mode, i + 1) == mode_at(a, j, m, i + 1));
            assert(a[i + 1] == b[i + 1]);
        }
        assert(a.subrange(i, i + kp) =~= b.subrange(i, i + kp));
        assert forall|k: int| j <= k < a.len() && a[k] != b[k] implies (match mode_at(a, j, m, k) {
            Some(ScanMode::LineComment) => true,
            Some(ScanMode::BlockComment { .. }) => true,
            _ => false,
        }) && comment_neutral(#[trigger] a[k]) && comment_neutral(b[k]) by {
            assert(mode_at(a, i, mode, k) == mode_at(a, j, m, k));
        }
        lemma_strip_from_comment_edit(a, b, j, m);
    }
}

/// Editing comment text leaves the stripped source unchanged: sources that
/// differ only at positions read inside comments, with no newline, `/` or
/// `*` among the old or new bytes there, strip to the same bytes.
pub proof fn lemma_strip_ignores_comment_text(a: Seq<u8>, b: Seq<u8>)
    requires
        differ_in_comment_text(a, b),
    ensures
        stripped(a) == stripped(b),
{
    lemma_strip_from_comment_edit(a, b, 0, ScanMode::Code);
}

/// Whether every byte of `s` is a space, tab, carriage return or newline.
pub open spec fn all_blank(s: Seq<u8>) -> bool {
    forall|k: int| 0 <= k < s.len() ==> crate::hashing::is_ascii_ws_byte(#[trigger] s[k])
}

proof fn lemma_strip_blank_tail(input: Seq<u8>, n: int, i: int, mode: ScanMode)
    requires
        0 <= n <= i,
        forall|k: int| n <= k < input.len() ==> crate::hashing::is_ascii_ws_byte(#[trigger] input[k]),
    ensures
        all_blank(strip_from(input, i, mode)),
    decreases input.len() - i,
{
    if i < input.len() {
        lemma_strip_step(input, i, mode);
        let j = i + step_skip(input, i, mode);
        let kp = step_keep(input, i, mode);
        lemma_strip_blank_tail(input, n, j, step_mode(input, i, mode));
        let head = input.subrange(i, i + kp);
        let rest = strip_from(input, j, step_mode(input, i, mode));
        assert forall|k: int| 0 <= k < (head + rest).len() implies crate::hashing::is_ascii_ws_byte(
            #[trigger] (head + rest)[k],
        ) by {
            if k < head.len() {
                assert(head[k] == input[i + k]);
            } else {
                assert((head + rest)[k] == rest[k - head.len()]);
            }
        }
    }
}

proof fn lemma_strip_with_blank_tail(s: Seq<u8>, w: Seq<u8>, i: int, mode: ScanMode)
    requires
        0 <= i <= s.len(),
        all_blank(w),
    ensures
        ({
            let p = strip_from(s, i, mode);
            let q = strip_from(s + w, i, mode);
            &&& p.len() <= q.len()
            &&& q == p + q.skip(p.len() as int)
            &&& all_blank(q.skip(p.len() as int))
        }),
    decreases s.len() - i,
{
    let input = s + w;
    let n = s.len() as int;
    assert forall|k: int| n <= k < input.len() implies crate::hashing::is_ascii_ws_byte(#[trigger] input[k]) by {
        assert(input[k] == w[k - n]);
    }
    if i == n {
        lemma_strip_blank_tail(input, n, n, mode);
        let q = strip_from(input, i, mode);
        assert(q.skip(0) =~= q);
        assert(strip_from(s, i, mode) =~= Seq::<u8>::empty());
        assert(Seq::<u8>::empty() + q =~= q);
    } else {
        lemma_strip_step(s, i, mode);
        lemma_strip_step(input, i, mode);
        assert(input[i] == s[i]);
        if i + 1 < n {
            assert(input[i + 1] == s[i + 1]);
        }
        let quote_escape_at_end = (mode is SingleQuote || mode is DoubleQuote) && s[i] == 0x5c && i
            + 1 == n && w.len() > 0;
        if !quote_escape_at_end {
            assert(step_skip(input, i, mode) == step_skip(s, i, mode));
            assert(step_keep(input, i, mode) == step_keep(s, i, mode));
            assert(step_mode(input, i, mode) == step_mode(s, i, mode));
            let j = i + step_skip(s, i, mode);
            let m = step_mode(s, i, mode);
            let kp = step_keep(s, i, mode);
            lemma_strip_with_blank_tail(s, w, j, m);
            let head = s.subrange(i, i + kp);
            assert(input.subrange(i, i + kp) =~= head);
            let p1 = strip_from(s, j, m);
            let q1 = strip_from(input, j, m);
            let p = head + p1;
            let q = head + q1;
            assert(q.skip(p.len() as int) =~= q1.skip(p1.len() as int));
            assert(q =~= p + q.skip(p.len() as int));
        } else {
            assert(step_skip(s, i, mode) == 1 && step_keep(s, i, mode) == 1);
            assert(strip_from(s, i + 1, step_mode(s, i, mode)) =~= Seq::<u8>::empty());
            let p = s.subrange(i, i + 1);
            assert(strip_from(s, i, mode) =~= p);
            assert(step_skip(input, i, mode) == 2 && step_keep(input, i, mode) == 2);
            let m = step_mode(input, i, mode);
            lemma_strip_blank_tail(input, n, i + 2, m);
            let q1 = strip_from(input, i + 2, m);
            let q = input.subrange(i, i + 2) + q1;
            assert(input[i + 1] == w[0]);
            assert(q.skip(1) =~= seq![w[0]] + q1);
            assert(q =~= p + q.skip(1));
            assert forall|k: int| 0 <= k < q.skip(1).len() implies crate::hashing::is_ascii_ws_byte(
                #[trigger] q.skip(1)[k],
            ) by {
                if k > 0 {
                    assert(q.skip(1)[k] == q1[k - 1]);
                }
            }
        }
    }
}

/// White space added at the end of a source only adds white space at the
/// end of its stripped form: `stripped(s + w)` is `stripped(s)` followed by
/// blank bytes.
pub proof fn lemma_strip_trailing_blank(s: Seq<u8>, w: Seq<u8>)
    requires
        all_blank(w),
    ensures
        stripped(s + w) == stripped(s) + stripped(s + w).skip(stripped(s).len() as int),
        all_blank(stripped(s + w).skip(stripped(s).len() as int)),
{
    lemma_strip_with_blank_tail(s, w, 0, ScanMode::Code);
}

} // verus!
