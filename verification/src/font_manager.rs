//! Bitmap font descriptors and text layout.
//!
//! A descriptor is line-oriented text: each line starts with a keyword and
//! carries space-separated `key=value` tokens, string values in quotes.
//! A `common` line gives the line metrics and the atlas size, `char` lines
//! give per-glyph geometry, `kerning` lines give pair adjustments (parsed
//! but not applied during layout). Malformed lines are skipped; a missing
//! `common` line is an error. Layout accumulates each glyph's advance and
//! places its top at `base - height - y_offset`; an unmapped character is
//! reported to the caller, who picks the fallback policy.
//!
//! Every parsing step is specified as a fold of a small state machine over
//! the characters of the input, and the executable code is proved to land
//! exactly on that fold.

use vstd::prelude::*;
use vstd::string::*;
use crate::seqs::{lemma_seq_deep_view_push, lemma_vec_deep_view};

verus! {

/// Longest text a layout call accepts, in characters.
pub const TEXT_LIMIT: usize = 1_000_000;

#[derive(Clone, Copy, PartialEq, Eq, Structural, Debug)]
pub struct BMCommon {
    pub line_height: i32,
    pub base: i32,
    pub scale_w: i32,
    pub scale_h: i32,
}

#[derive(Clone, Copy, PartialEq, Eq, Structural, Debug)]
pub struct BMChar {
    pub id: i32,
    pub x: i32,
    pub y: i32,
    pub width: i32,
    pub height: i32,
    pub x_offset: i32,
    pub y_offset: i32,
    pub x_advance: i32,
    pub letter: char,
}

#[derive(Clone, Copy, PartialEq, Eq, Structural, Debug)]
pub struct BMKerning {
    pub first: i32,
    pub second: i32,
    pub amount: i32,
}

#[derive(Clone, PartialEq, Eq, Debug)]
pub struct BMSheet {
    pub common: BMCommon,
    pub chars: Vec<BMChar>,
    pub kernings: Vec<BMKerning>,
}

/// Why a descriptor cannot become a font.
#[derive(Clone, Copy, PartialEq, Eq, Structural, Debug)]
pub enum FontError {
    /// No well-formed `common` line was found.
    MissingCommon,
}

// ---------------------------------------------------------------------
// Token characters
// ---------------------------------------------------------------------

/// Separators between `key=value` tokens.
pub open spec fn is_space(c: char) -> bool {
    c == ' ' || c == '\t' || c == '\r' || c == '\n'
}

fn exec_is_space(c: char) -> (r: bool)
    ensures
        r == is_space(c),
{
    c == ' ' || c == '\t' || c == '\r' || c == '\n'
}

// ---------------------------------------------------------------------
// key=value tokenizing
// ---------------------------------------------------------------------

/// State of the `key=value` tokenizer.
pub struct ArgsState {
    pub pairs: Seq<(Seq<char>, Seq<char>)>,
    pub key: Seq<char>,
    pub value: Seq<char>,
    pub in_quotes: bool,
    pub parsing_key: bool,
}

pub open spec fn args_init() -> ArgsState {
    ArgsState {
        pairs: Seq::empty(),
        key: Seq::empty(),
        value: Seq::empty(),
        in_quotes: false,
        parsing_key: true,
    }
}

/// One character of `key=value` tokenizing: `=` switches from key to value,
/// a closing quote or a separator after a non-empty pair emits it, anything
/// else accumulates into the side being parsed.
pub open spec fn args_step(st: ArgsState, c: char) -> ArgsState {
    if st.parsing_key && c == '=' {
        ArgsState { parsing_key: false, ..st }
    } else if c == '"' {
        if st.in_quotes {
            ArgsState {
                pairs: st.pairs.push((st.key, st.value)),
                key: Seq::empty(),
                value: Seq::empty(),
                in_quotes: false,
                parsing_key: true,
            }
        } else {
            ArgsState { in_quotes: true, ..st }
        }
    } else if is_space(c) {
        if !st.in_quotes && !st.parsing_key && st.key.len() > 0 && st.value.len() > 0 {
            ArgsState {
                pairs: st.pairs.push((st.key, st.value)),
                key: Seq::empty(),
                value: Seq::empty(),
                in_quotes: st.in_quotes,
                parsing_key: true,
            }
        } else {
            st
        }
    } else {
        if st.parsing_key {
            ArgsState { key: st.key.push(c), ..st }
        } else {
            ArgsState { value: st.value.push(c), ..st }
        }
    }
}

pub open spec fn args_run(s: Seq<char>) -> ArgsState
    decreases s.len(),
{
    if s.len() == 0 {
        args_init()
    } else {
        args_step(args_run(s.drop_last()), s.last())
    }
}

/// A trailing unemitted pair still counts when both sides are non-empty.
pub open spec fn args_finalize(st: ArgsState) -> Seq<(Seq<char>, Seq<char>)> {
    if st.key.len() > 0 && st.value.len() > 0 {
        st.pairs.push((st.key, st.value))
    } else {
        st.pairs
    }
}

/// All `key=value` pairs of one line, in order of appearance.
pub open spec fn spec_parse_args(s: Seq<char>) -> Seq<(Seq<char>, Seq<char>)> {
    args_finalize(args_run(s))
}

/// Parsing and layout over bitmap font descriptors.
pub struct FontMan;

impl FontMan {
    /// Tokenize one line of `key=value` tokens, quoted values included.
    pub fn parse_args(data: &str) -> (r: Vec<(String, String)>)
        ensures
            r.deep_view() == spec_parse_args(data@),
    {
        let n = data.unicode_len();
        let mut pairs: Vec<(String, String)> = Vec::new();
        let mut key = String::new();
        let mut value = String::new();
        let mut in_quotes = false;
        let mut parsing_key = true;
        let mut i: usize = 0;
        while i < n
            invariant
                n == data@.len(),
                i <= n,
                ({
                    let st = args_run(data@.subrange(0, i as int));
                    &&& pairs.deep_view() == st.pairs
                    &&& key@ == st.key
                    &&& value@ == st.value
                    &&& in_quotes == st.in_quotes
                    &&& parsing_key == st.parsing_key
                }),
            decreases n - i,
        {
            proof {
                assert(data@.subrange(0, i as int + 1).drop_last()
                    =~= data@.subrange(0, i as int));
                assert(data@.subrange(0, i as int + 1).last() == data@[i as int]);
            }
            let c = data.get_char(i);
            if parsing_key && c == '=' {
                parsing_key = false;
            } else if c == '"' {
                if in_quotes {
                    flush_pair(&mut pairs, &mut key, &mut value);
                    in_quotes = false;
                    parsing_key = true;
                } else {
                    in_quotes = true;
                }
            } else if exec_is_space(c) {
                if !in_quotes && !parsing_key && key.unicode_len() > 0 && value.unicode_len() > 0 {
                    flush_pair(&mut pairs, &mut key, &mut value);
                    parsing_key = true;
                }
            } else {
                if parsing_key {
                    key.append(data.substring_char(i, i + 1));
                } else {
                    value.append(data.substring_char(i, i + 1));
                }
            }
            i = i + 1;
        }
        proof {
            assert(data@.subrange(0, n as int) =~= data@);
        }
        if key.unicode_len() > 0 && value.unicode_len() > 0 {
            flush_pair(&mut pairs, &mut key, &mut value);
        }
        pairs
    }
}

/// Emit the pair built so far and start a fresh one.
fn flush_pair(pairs: &mut Vec<(String, String)>, key: &mut String, value: &mut String)
    ensures
        final(pairs).deep_view() == old(pairs).deep_view().push((old(key)@, old(value)@)),
        final(key)@ == Seq::<char>::empty(),
        final(value)@ == Seq::<char>::empty(),
{
    let ghost pre = pairs@;
    proof {
        lemma_vec_deep_view(pairs);
    }
    let mut k = String::new();
    let mut v = String::new();
    core::mem::swap(&mut k, key);
    core::mem::swap(&mut v, value);
    pairs.push((k, v));
    proof {
        lemma_vec_deep_view(pairs);
        lemma_seq_deep_view_push(pre, pairs@.last());
    }
}

// ---------------------------------------------------------------------
// Pair lookup and integer parsing
// ---------------------------------------------------------------------

/// The value of the last pair whose key matches: a later duplicate key
/// overrides an earlier one.
pub open spec fn spec_lookup(pairs: Seq<(Seq<char>, Seq<char>)>, key: Seq<char>) -> Option<
    Seq<char>,
>
    decreases pairs.len(),
{
    if pairs.len() == 0 {
        None
    } else if pairs.last().0 == key {
        Some(pairs.last().1)
    } else {
        spec_lookup(pairs.drop_last(), key)
    }
}

pub open spec fn is_digit(c: char) -> bool {
    '0' <= c && c <= '9'
}

pub open spec fn all_digits(s: Seq<char>) -> bool {
    forall|i: int| 0 <= i < s.len() ==> is_digit(#[trigger] s[i])
}

/// The number named by a run of decimal digits.
pub open spec fn digits_val(s: Seq<char>) -> int
    decreases s.len(),
{
    if s.len() == 0 {
        0
    } else {
        digits_val(s.drop_last()) * 10 + (s.last() as int - '0' as int)
    }
}

/// The integer a token names: an optional minus sign, then at least one
/// digit; anything else is malformed.
pub open spec fn spec_parse_int(s: Seq<char>) -> Option<int> {
    if s.len() > 0 && s[0] == '-' {
        if s.drop_first().len() > 0 && all_digits(s.drop_first()) {
            Some(-digits_val(s.drop_first()))
        } else {
            None
        }
    } else {
        if s.len() > 0 && all_digits(s) {
            Some(digits_val(s))
        } else {
            None
        }
    }
}

proof fn lemma_digits_val_nonneg(s: Seq<char>)
    requires
        all_digits(s),
    ensures
        digits_val(s) >= 0,
    decreases s.len(),
{
    if s.len() > 0 {
        assert(all_digits(s.drop_last()));
        lemma_digits_val_nonneg(s.drop_last());
        assert(digits_val(s.drop_last()) * 10 >= 0) by (nonlinear_arith)
            requires
                digits_val(s.drop_last()) >= 0,
        ;
    }
}

/// A numeric token, parsed when it fits a 32-bit integer.
pub fn parse_i32(s: &str) -> (r: Option<i32>)
    ensures
        match spec_parse_int(s@) {
            Option::None => r is None,
            Option::Some(v) => if i32::MIN <= v <= i32::MAX {
                r == Some(v as i32)
            } else {
                r is None
            },
        },
{
    let n = s.unicode_len();
    if n == 0 {
        return None;
    }
    let neg = s.get_char(0) == '-';
    let start: usize = if neg {
        1
    } else {
        0
    };
    let ghost digits = if neg {
        s@.drop_first()
    } else {
        s@
    };
    proof {
        assert(digits =~= s@.subrange(start as int, n as int));
    }
    if start == n {
        return None;
    }
    let mut acc: u64 = 0;
    let mut too_big = false;
    let mut i: usize = start;
    while i < n
        invariant
            n == s@.len(),
            start <= i <= n,
            neg == (s@.len() > 0 && s@[0] == '-'),
            start == if neg {
                1int
            } else {
                0int
            },
            digits == if neg {
                s@.drop_first()
            } else {
                s@
            },
            digits == s@.subrange(start as int, n as int),
            all_digits(s@.subrange(start as int, i as int)),
            !too_big ==> acc == digits_val(s@.subrange(start as int, i as int)) && acc
                <= 0x8000_0000,
            too_big ==> digits_val(s@.subrange(start as int, i as int)) > 0x8000_0000,
        decreases n - i,
    {
        let c = s.get_char(i);
        if c < '0' || c > '9' {
            proof {
                assert(digits[i as int - start as int] == s@[i as int]);
                assert(!all_digits(digits));
            }
            return None;
        }
        let d: u32 = c as u32 - 48;
        proof {
            let pre = s@.subrange(start as int, i as int);
            let post = s@.subrange(start as int, i as int + 1);
            assert(post.drop_last() =~= pre);
            assert(post.last() == s@[i as int]);
            if too_big {
                lemma_digits_val_nonneg(pre);
                assert(digits_val(pre) * 10 + d >= digits_val(pre)) by (nonlinear_arith)
                    requires
                        digits_val(pre) >= 0 && d >= 0,
                ;
            }
        }
        if !too_big {
            acc = acc * 10 + d as u64;
            if acc > 0x8000_0000 {
                too_big = true;
            }
        }
        i = i + 1;
    }
    proof {
        assert(s@.subrange(start as int, n as int) =~= digits);
        assert(all_digits(digits));
        lemma_digits_val_nonneg(digits);
    }
    if too_big {
        return None;
    }
    if neg {
        Some((-(acc as i64)) as i32)
    } else {
        if acc > 0x7fff_ffff {
            None
        } else {
            Some(acc as i32)
        }
    }
}

/// The parsed numeric field under `key`, when present and well formed.
pub open spec fn spec_num_field(
    pairs: Seq<(Seq<char>, Seq<char>)>,
    key: Seq<char>,
) -> Option<int> {
    match spec_lookup(pairs, key) {
        Option::Some(v) => spec_parse_int(v),
        Option::None => None,
    }
}

/// Look a key up among parsed pairs; a later duplicate key wins.
pub fn lookup<'a>(pairs: &'a Vec<(String, String)>, key: &String) -> (r: Option<&'a String>)
    ensures
        match r {
            Option::Some(v) => spec_lookup(pairs.deep_view(), key@) == Some(v@),
            Option::None => spec_lookup(pairs.deep_view(), key@) is None,
        },
{
    proof {
        lemma_vec_deep_view(pairs);
        assert(pairs.deep_view().subrange(0, 0) =~= Seq::empty());
    }
    let mut found: Option<usize> = None;
    let mut i: usize = 0;
    while i < pairs.len()
        invariant
            i <= pairs@.len(),
            pairs.deep_view() == crate::seqs::seq_deep_view(pairs@),
            match found {
                Option::Some(j) => j < i && spec_lookup(
                    pairs.deep_view().subrange(0, i as int),
                    key@,
                ) == Some(pairs.deep_view()[j as int].1),
                Option::None => spec_lookup(pairs.deep_view().subrange(0, i as int), key@)
                    is None,
            },
        decreases pairs@.len() - i,
    {
        proof {
            assert(pairs.deep_view().subrange(0, i as int + 1).drop_last()
                =~= pairs.deep_view().subrange(0, i as int));
            assert(pairs.deep_view().subrange(0, i as int + 1).last()
                == pairs.deep_view()[i as int]);
        }
        if pairs[i].0.eq(key) {
            found = Some(i);
        }
        i = i + 1;
    }
    proof {
        assert(pairs.deep_view().subrange(0, i as int) =~= pairs.deep_view());
    }
    match found {
        Option::Some(j) => Some(&pairs[j].1),
        Option::None => None,
    }
}

/// The parsed numeric field under `key`, when present and fitting 32 bits.
fn num_field(pairs: &Vec<(String, String)>, key: &String) -> (r: Option<i32>)
    ensures
        match spec_num_field(pairs.deep_view(), key@) {
            Option::None => r is None,
            Option::Some(v) => if i32::MIN <= v <= i32::MAX {
                r == Some(v as i32)
            } else {
                r is None
            },
        },
{
    match lookup(pairs, key) {
        Option::Some(v) => parse_i32(v.as_str()),
        Option::None => None,
    }
}

// ---------------------------------------------------------------------
// Line splitting
// ---------------------------------------------------------------------

/// State of splitting text into lines.
pub struct LinesState {
    pub done: Seq<Seq<char>>,
    pub cur: Seq<char>,
}

pub open spec fn lines_init() -> LinesState {
    LinesState { done: Seq::empty(), cur: Seq::empty() }
}

pub open spec fn lines_step(st: LinesState, c: char) -> LinesState {
    if c == '\n' {
        LinesState { done: st.done.push(st.cur), cur: Seq::empty() }
    } else {
        LinesState { done: st.done, cur: st.cur.push(c) }
    }
}

pub open spec fn lines_run(s: Seq<char>) -> LinesState
    decreases s.len(),
{
    if s.len() == 0 {
        lines_init()
    } else {
        lines_step(lines_run(s.drop_last()), s.last())
    }
}

/// The lines of a text, split on newlines; the tail after the last newline
/// counts as a line, so text ending in a newline yields a final empty line.
pub open spec fn spec_lines(s: Seq<char>) -> Seq<Seq<char>> {
    lines_run(s).done.push(lines_run(s).cur)
}

fn split_lines(data: &str) -> (r: Vec<String>)
    ensures
        r.deep_view() == spec_lines(data@),
{
    let n = data.unicode_len();
    let mut done: Vec<String> = Vec::new();
    let mut cur = String::new();
    proof {
        lemma_vec_deep_view(&done);
        assert(done.deep_view() =~= Seq::<Seq<char>>::empty());
        assert(data@.subrange(0, 0) =~= Seq::<char>::empty());
    }
    let mut i: usize = 0;
    while i < n
        invariant
            n == data@.len(),
            i <= n,
            done.deep_view() == lines_run(data@.subrange(0, i as int)).done,
            cur@ == lines_run(data@.subrange(0, i as int)).cur,
        decreases n - i,
    {
        proof {
            assert(data@.subrange(0, i as int + 1).drop_last() =~= data@.subrange(0, i as int));
            assert(data@.subrange(0, i as int + 1).last() == data@[i as int]);
        }
        let c = data.get_char(i);
        if c == '\n' {
            let ghost pre = done@;
            proof {
                lemma_vec_deep_view(&done);
            }
            let mut line = String::new();
            core::mem::swap(&mut line, &mut cur);
            done.push(line);
            proof {
                lemma_vec_deep_view(&done);
                lemma_seq_deep_view_push(pre, done@.last());
            }
        } else {
            cur.append(data.substring_char(i, i + 1));
            proof {
                assert(cur@ =~= lines_run(data@.subrange(0, i as int)).cur.push(data@[i as int]));
            }
        }
        i = i + 1;
    }
    proof {
        assert(data@.subrange(0, n as int) =~= data@);
    }
    let ghost pre = done@;
    proof {
        lemma_vec_deep_view(&done);
    }
    done.push(cur);
    proof {
        lemma_vec_deep_view(&done);
        lemma_seq_deep_view_push(pre, done@.last());
    }
    done
}

// ---------------------------------------------------------------------
// One descriptor line
// ---------------------------------------------------------------------

#[derive(Clone, Copy, PartialEq, Eq, Structural, Debug)]
pub enum WordPhase {
    Lead,
    Word,
    Rest,
}

/// State of splitting a line into its leading keyword and the remainder.
pub struct WordState {
    pub word: Seq<char>,
    pub rest: Seq<char>,
    pub phase: WordPhase,
}

pub open spec fn word_init() -> WordState {
    WordState { word: Seq::empty(), rest: Seq::empty(), phase: WordPhase::Lead }
}

pub open spec fn word_step(st: WordState, c: char) -> WordState {
    match st.phase {
        WordPhase::Lead => if is_space(c) {
            st
        } else {
            WordState { word: st.word.push(c), phase: WordPhase::Word, ..st }
        },
        WordPhase::Word => if is_space(c) {
            WordState { phase: WordPhase::Rest, ..st }
        } else {
            WordState { word: st.word.push(c), ..st }
        },
        WordPhase::Rest => WordState { rest: st.rest.push(c), ..st },
    }
}

pub open spec fn word_run(s: Seq<char>) -> WordState
    decreases s.len(),
{
    if s.len() == 0 {
        word_init()
    } else {
        word_step(word_run(s.drop_last()), s.last())
    }
}

/// What one descriptor line contributes to the font.
#[derive(Clone, PartialEq, Eq, Structural, Debug)]
pub enum LineRec {
    Common(BMCommon),
    Glyph(BMChar),
    Kern(BMKerning),
    Skip,
}

/// Keep a parsed number only when it fits a 32-bit integer.
pub open spec fn fit32(o: Option<int>) -> Option<int> {
    match o {
        Option::Some(v) => if i32::MIN <= v <= i32::MAX {
            Some(v)
        } else {
            None
        },
        Option::None => None,
    }
}

pub open spec fn spec_common_rec(pairs: Seq<(Seq<char>, Seq<char>)>) -> Option<BMCommon> {
    match (
        fit32(spec_num_field(pairs, "lineHeight"@)),
        fit32(spec_num_field(pairs, "base"@)),
        fit32(spec_num_field(pairs, "scaleW"@)),
        fit32(spec_num_field(pairs, "scaleH"@)),
    ) {
        (Option::Some(lh), Option::Some(b), Option::Some(sw), Option::Some(sh)) => Some(
            BMCommon {
                line_height: lh as i32,
                base: b as i32,
                scale_w: sw as i32,
                scale_h: sh as i32,
            },
        ),
        _ => None,
    }
}

/// The glyph letter named by a quoted value: the single character it holds,
/// or a space when the value is empty or longer.
pub open spec fn spec_letter(v: Seq<char>) -> char {
    if v.len() == 1 {
        v[0]
    } else {
        ' '
    }
}

pub open spec fn spec_glyph_rec(pairs: Seq<(Seq<char>, Seq<char>)>) -> Option<BMChar> {
    match (
        fit32(spec_num_field(pairs, "id"@)),
        fit32(spec_num_field(pairs, "x"@)),
        fit32(spec_num_field(pairs, "y"@)),
        fit32(spec_num_field(pairs, "width"@)),
        fit32(spec_num_field(pairs, "height"@)),
        fit32(spec_num_field(pairs, "xoffset"@)),
        fit32(spec_num_field(pairs, "yoffset"@)),
        fit32(spec_num_field(pairs, "xadvance"@)),
        spec_lookup(pairs, "letter"@),
    ) {
        (
            Option::Some(id),
            Option::Some(x),
            Option::Some(y),
            Option::Some(w),
            Option::Some(h),
            Option::Some(xo),
            Option::Some(yo),
            Option::Some(xa),
            Option::Some(letter),
        ) => Some(
            BMChar {
                id: id as i32,
                x: x as i32,
                y: y as i32,
                width: w as i32,
                height: h as i32,
                x_offset: xo as i32,
                y_offset: yo as i32,
                x_advance: xa as i32,
                letter: spec_letter(letter),
            },
        ),
        _ => None,
    }
}

pub open spec fn spec_kern_rec(pairs: Seq<(Seq<char>, Seq<char>)>) -> Option<BMKerning> {
    match (
        fit32(spec_num_field(pairs, "first"@)),
        fit32(spec_num_field(pairs, "second"@)),
        fit32(spec_num_field(pairs, "amount"@)),
    ) {
        (Option::Some(f), Option::Some(s), Option::Some(a)) => Some(
            BMKerning { first: f as i32, second: s as i32, amount: a as i32 },
        ),
        _ => None,
    }
}

/// What one line contributes: classified by its leading keyword, with a
/// malformed record (and any unknown keyword) skipped.
pub open spec fn spec_parse_line(line: Seq<char>) -> LineRec {
    let st = word_run(line);
    let pairs = spec_parse_args(st.rest);
    if st.word == "common"@ {
        match spec_common_rec(pairs) {
            Option::Some(c) => LineRec::Common(c),
            Option::None => LineRec::Skip,
        }
    } else if st.word == "char"@ {
        match spec_glyph_rec(pairs) {
            Option::Some(g) => LineRec::Glyph(g),
            Option::None => LineRec::Skip,
        }
    } else if st.word == "kerning"@ {
        match spec_kern_rec(pairs) {
            Option::Some(k) => LineRec::Kern(k),
            Option::None => LineRec::Skip,
        }
    } else {
        LineRec::Skip
    }
}

fn parse_line(line: &str) -> (r: LineRec)
    ensures
        r == spec_parse_line(line@),
{
    let n = line.unicode_len();
    let mut word = String::new();
    let mut rest = String::new();
    let mut phase = WordPhase::Lead;
    proof {
        assert(line@.subrange(0, 0) =~= Seq::<char>::empty());
    }
    let mut i: usize = 0;
    while i < n
        invariant
            n == line@.len(),
            i <= n,
            ({
                let st = word_run(line@.subrange(0, i as int));
                &&& word@ == st.word
                &&& rest@ == st.rest
                &&& phase == st.phase
            }),
        decreases n - i,
    {
        proof {
            assert(line@.subrange(0, i as int + 1).drop_last() =~= line@.subrange(0, i as int));
            assert(line@.subrange(0, i as int + 1).last() == line@[i as int]);
        }
        let c = line.get_char(i);
        match phase {
            WordPhase::Lead => {
                if !exec_is_space(c) {
                    word.append(line.substring_char(i, i + 1));
                    phase = WordPhase::Word;
                    proof {
                        assert(word@ =~= word_run(line@.subrange(0, i as int)).word.push(
                            line@[i as int],
                        ));
                    }
                }
            },
            WordPhase::Word => {
                if exec_is_space(c) {
                    phase = WordPhase::Rest;
                } else {
                    word.append(line.substring_char(i, i + 1));
                    proof {
                        assert(word@ =~= word_run(line@.subrange(0, i as int)).word.push(
                            line@[i as int],
                        ));
                    }
                }
            },
            WordPhase::Rest => {
                rest.append(line.substring_char(i, i + 1));
                proof {
                    assert(rest@ =~= word_run(line@.subrange(0, i as int)).rest.push(
                        line@[i as int],
                    ));
                }
            },
        }
        i = i + 1;
    }
    proof {
        assert(line@.subrange(0, n as int) =~= line@);
    }
    let pairs = FontMan::parse_args(rest.as_str());
    if word.eq(&String::from_str("common")) {
        let lh = num_field(&pairs, &String::from_str("lineHeight"));
        let b = num_field(&pairs, &String::from_str("base"));
        let sw = num_field(&pairs, &String::from_str("scaleW"));
        let sh = num_field(&pairs, &String::from_str("scaleH"));
        match (lh, b, sw, sh) {
            (Option::Some(lh), Option::Some(b), Option::Some(sw), Option::Some(sh)) => {
                LineRec::Common(BMCommon { line_height: lh, base: b, scale_w: sw, scale_h: sh })
            },
            _ => LineRec::Skip,
        }
    } else if word.eq(&String::from_str("char")) {
        let id = num_field(&pairs, &String::from_str("id"));
        let x = num_field(&pairs, &String::from_str("x"));
        let y = num_field(&pairs, &String::from_str("y"));
        let w = num_field(&pairs, &String::from_str("width"));
        let h = num_field(&pairs, &String::from_str("height"));
        let xo = num_field(&pairs, &String::from_str("xoffset"));
        let yo = num_field(&pairs, &String::from_str("yoffset"));
        let xa = num_field(&pairs, &String::from_str("xadvance"));
        let letter = match lookup(&pairs, &String::from_str("letter")) {
            Option::Some(v) => if v.unicode_len() == 1 {
                Some(v.as_str().get_char(0))
            } else {
                Some(' ')
            },
            Option::None => None,
        };
        match (id, x, y, w, h, xo, yo, xa, letter) {
            (
                Option::Some(id),
                Option::Some(x),
                Option::Some(y),
                Option::Some(w),
                Option::Some(h),
                Option::Some(xo),
                Option::Some(yo),
                Option::Some(xa),
                Option::Some(letter),
            ) => LineRec::Glyph(
                BMChar {
                    id,
                    x,
                    y,
                    width: w,
                    height: h,
                    x_offset: xo,
                    y_offset: yo,
                    x_advance: xa,
                    letter,
                },
            ),
            _ => LineRec::Skip,
        }
    } else if word.eq(&String::from_str("kerning")) {
        let f = num_field(&pairs, &String::from_str("first"));
        let s = num_field(&pairs, &String::from_str("second"));
        let a = num_field(&pairs, &String::from_str("amount"));
        match (f, s, a) {
            (Option::Some(f), Option::Some(s), Option::Some(a)) => {
                LineRec::Kern(BMKerning { first: f, second: s, amount: a })
            },
            _ => LineRec::Skip,
        }
    } else {
        LineRec::Skip
    }
}

// ---------------------------------------------------------------------
// Whole descriptors
// ---------------------------------------------------------------------

/// What the lines seen so far have contributed.
pub struct BmAcc {
    pub common: Option<BMCommon>,
    pub chars: Seq<BMChar>,
    pub kerns: Seq<BMKerning>,
}

pub open spec fn bm_init() -> BmAcc {
    BmAcc { common: None, chars: Seq::empty(), kerns: Seq::empty() }
}

/// A later `common` line replaces an earlier one; glyphs and kerning pairs
/// accumulate in order of appearance.
pub open spec fn bm_step(acc: BmAcc, rec: LineRec) -> BmAcc {
    match rec {
        LineRec::Common(c) => BmAcc { common: Some(c), ..acc },
        LineRec::Glyph(g) => BmAcc { chars: acc.chars.push(g), ..acc },
        LineRec::Kern(k) => BmAcc { kerns: acc.kerns.push(k), ..acc },
        LineRec::Skip => acc,
    }
}

pub open spec fn bm_fold(lines: Seq<Seq<char>>) -> BmAcc
    decreases lines.len(),
{
    if lines.len() == 0 {
        bm_init()
    } else {
        bm_step(bm_fold(lines.drop_last()), spec_parse_line(lines.last()))
    }
}

/// Everything a descriptor contributes, line by line.
pub open spec fn spec_parse_bm(s: Seq<char>) -> BmAcc {
    bm_fold(spec_lines(s))
}

impl FontMan {
    /// Parse a whole descriptor. Malformed lines are skipped; the result is
    /// an error exactly when no well-formed `common` line occurs.
    pub fn parse_bm(data: &str) -> (r: Result<BMSheet, FontError>)
        ensures
            ({
                let acc = spec_parse_bm(data@);
                match r {
                    Result::Ok(sheet) => {
                        &&& acc.common == Some(sheet.common)
                        &&& sheet.chars@ == acc.chars
                        &&& sheet.kernings@ == acc.kerns
                    },
                    Result::Err(e) => acc.common is None && e == FontError::MissingCommon,
                }
            }),
    {
        let lines = split_lines(data);
        let ghost lv = spec_lines(data@);
        let mut common: Option<BMCommon> = None;
        let mut chars: Vec<BMChar> = Vec::new();
        let mut kernings: Vec<BMKerning> = Vec::new();
        proof {
            lemma_vec_deep_view(&lines);
            assert(lv.subrange(0, 0) =~= Seq::<Seq<char>>::empty());
        }
        let mut i: usize = 0;
        while i < lines.len()
            invariant
                lines.deep_view() == lv,
                lines@.len() == lv.len(),
                lines.deep_view() == crate::seqs::seq_deep_view(lines@),
                i <= lv.len(),
                ({
                    let acc = bm_fold(lv.subrange(0, i as int));
                    &&& common == acc.common
                    &&& chars@ == acc.chars
                    &&& kernings@ == acc.kerns
                }),
            decreases lv.len() - i,
        {
            proof {
                assert(lv.subrange(0, i as int + 1).drop_last() =~= lv.subrange(0, i as int));
                assert(lv.subrange(0, i as int + 1).last() == lv[i as int]);
                assert(lines@[i as int]@ == lv[i as int]);
            }
            let rec = parse_line(lines[i].as_str());
            match rec {
                LineRec::Common(c) => {
                    common = Some(c);
                },
                LineRec::Glyph(g) => {
                    chars.push(g);
                },
                LineRec::Kern(k) => {
                    kernings.push(k);
                },
                LineRec::Skip => {},
            }
            i = i + 1;
        }
        proof {
            assert(lv.subrange(0, i as int) =~= lv);
        }
        match common {
            Option::Some(c) => Ok(BMSheet { common: c, chars, kernings }),
            Option::None => Err(FontError::MissingCommon),
        }
    }
}

// ---------------------------------------------------------------------
// Text layout
// ---------------------------------------------------------------------

/// The first glyph mapped to a character, when the font has one.
pub open spec fn spec_glyph(chars: Seq<BMChar>, c: char) -> Option<BMChar>
    decreases chars.len(),
{
    if chars.len() == 0 {
        None
    } else if chars[0].letter == c {
        Some(chars[0])
    } else {
        spec_glyph(chars.drop_first(), c)
    }
}

/// Find the glyph of a character in a font.
pub fn find_glyph(sheet: &BMSheet, c: char) -> (r: Option<BMChar>)
    ensures
        r == spec_glyph(sheet.chars@, c),
{
    proof {
        assert(sheet.chars@.skip(0) =~= sheet.chars@);
    }
    let mut i: usize = 0;
    while i < sheet.chars.len()
        invariant
            i <= sheet.chars@.len(),
            spec_glyph(sheet.chars@, c) == spec_glyph(sheet.chars@.skip(i as int), c),
        decreases sheet.chars@.len() - i,
    {
        proof {
            assert(sheet.chars@.skip(i as int)[0] == sheet.chars@[i as int]);
        }
        if sheet.chars[i].letter == c {
            return Some(sheet.chars[i]);
        }
        proof {
            assert(sheet.chars@.skip(i as int).drop_first() =~= sheet.chars@.skip(i as int + 1));
        }
        i = i + 1;
    }
    proof {
        assert(sheet.chars@.skip(i as int) =~= Seq::<BMChar>::empty());
    }
    None
}

/// The summed advance widths of a text, when every character has a glyph.
pub open spec fn spec_text_width(chars: Seq<BMChar>, text: Seq<char>) -> Option<int>
    decreases text.len(),
{
    if text.len() == 0 {
        Some(0)
    } else {
        match (spec_text_width(chars, text.drop_last()), spec_glyph(chars, text.last())) {
            (Option::Some(w), Option::Some(g)) => Some(w + g.x_advance),
            _ => None,
        }
    }
}

/// Once a prefix has no width, neither has the whole text.
proof fn lemma_width_none(chars: Seq<BMChar>, text: Seq<char>, j: int)
    requires
        0 <= j <= text.len(),
        spec_text_width(chars, text.subrange(0, j)) is None,
    ensures
        spec_text_width(chars, text) is None,
    decreases text.len() - j,
{
    if j == text.len() {
        assert(text.subrange(0, j) =~= text);
    } else {
        assert(text.subrange(0, j + 1).drop_last() =~= text.subrange(0, j));
        lemma_width_none(chars, text, j + 1);
    }
}

impl FontMan {
    /// The pixel width of a text: the sum of its glyphs' advances, or
    /// nothing when some character has no glyph in the font.
    pub fn text_width(text: &str, sheet: &BMSheet) -> (r: Option<i64>)
        requires
            text@.len() <= TEXT_LIMIT,
        ensures
            match r {
                Option::Some(w) => spec_text_width(sheet.chars@, text@) == Some(w as int)
                    && -0x8000_0000 * (text@.len() + 1) <= w <= 0x8000_0000 * (text@.len() + 1),
                Option::None => spec_text_width(sheet.chars@, text@) is None,
            },
    {
        let n = text.unicode_len();
        let mut width: i64 = 0;
        proof {
            assert(text@.subrange(0, 0) =~= Seq::<char>::empty());
        }
        let mut i: usize = 0;
        while i < n
            invariant
                n == text@.len(),
                n <= TEXT_LIMIT,
                i <= n,
                spec_text_width(sheet.chars@, text@.subrange(0, i as int)) == Some(width as int),
                -0x8000_0000 * (i as i64) <= width <= 0x8000_0000 * (i as i64),
            decreases n - i,
        {
            proof {
                assert(text@.subrange(0, i as int + 1).drop_last()
                    =~= text@.subrange(0, i as int));
                assert(text@.subrange(0, i as int + 1).last() == text@[i as int]);
            }
            let c = text.get_char(i);
            match find_glyph(sheet, c) {
                Option::Some(g) => {
                    width = width + g.x_advance as i64;
                },
                Option::None => {
                    proof {
                        lemma_width_none(sheet.chars@, text@, i as int + 1);
                    }
                    return None;
                },
            }
            i = i + 1;
        }
        proof {
            assert(text@.subrange(0, n as int) =~= text@);
        }
        Some(width)
    }
}

/// The subsequence of a text the font can draw: every character that has a
/// glyph, in order, the others skipped.
pub open spec fn spec_mapped(chars: Seq<BMChar>, text: Seq<char>) -> Seq<char>
    decreases text.len(),
{
    if text.len() == 0 {
        Seq::empty()
    } else if spec_glyph(chars, text.last()) is Some {
        spec_mapped(chars, text.drop_last()).push(text.last())
    } else {
        spec_mapped(chars, text.drop_last())
    }
}

/// A mapped subsequence always lays out: every character of it has a glyph.
pub proof fn lemma_mapped_width_some(chars: Seq<BMChar>, text: Seq<char>)
    ensures
        spec_text_width(chars, spec_mapped(chars, text)) is Some,
    decreases text.len(),
{
    if text.len() > 0 {
        lemma_mapped_width_some(chars, text.drop_last());
        if spec_glyph(chars, text.last()) is Some {
            let m = spec_mapped(chars, text.drop_last());
            assert(m.push(text.last()).drop_last() =~= m);
            assert(m.push(text.last()).last() == text.last());
        }
    }
}

/// The drawable subsequence of a text, as owned characters: the fallback
/// for a caller that skips unmapped characters rather than failing.
pub fn mapped_text(text: &str, sheet: &BMSheet) -> (r: String)
    requires
        text@.len() <= TEXT_LIMIT,
    ensures
        r@ == spec_mapped(sheet.chars@, text@),
        r@.len() <= text@.len(),
{
    let n = text.unicode_len();
    let mut out = String::new();
    proof {
        assert(text@.subrange(0, 0) =~= Seq::<char>::empty());
    }
    let mut i: usize = 0;
    while i < n
        invariant
            n == text@.len(),
            i <= n,
            out@ == spec_mapped(sheet.chars@, text@.subrange(0, i as int)),
            out@.len() <= i,
        decreases n - i,
    {
        proof {
            assert(text@.subrange(0, i as int + 1).drop_last() =~= text@.subrange(0, i as int));
            assert(text@.subrange(0, i as int + 1).last() == text@[i as int]);
        }
        let c = text.get_char(i);
        match find_glyph(sheet, c) {
            Option::Some(_) => {
                out.append(text.substring_char(i, i + 1));
                proof {
                    assert(out@ =~= spec_mapped(sheet.chars@, text@.subrange(0, i as int)).push(
                        text@[i as int],
                    ));
                }
            },
            Option::None => {},
        }
        i = i + 1;
    }
    proof {
        assert(text@.subrange(0, n as int) =~= text@);
    }
    out
}

/// The placed glyphs of a text: each at the running advance plus its own
/// offset, its top placed so the glyph sits on the baseline.
pub open spec fn spec_positions(
    chars: Seq<BMChar>,
    common: BMCommon,
    text: Seq<char>,
) -> Option<Seq<(int, int, BMChar)>>
    decreases text.len(),
{
    if text.len() == 0 {
        Some(Seq::empty())
    } else {
        match (
            spec_positions(chars, common, text.drop_last()),
            spec_text_width(chars, text.drop_last()),
            spec_glyph(chars, text.last()),
        ) {
            (Option::Some(ps), Option::Some(w), Option::Some(g)) => Some(
                ps.push(
                    (w + g.x_offset, common.base - g.height - g.y_offset, g),
                ),
            ),
            _ => None,
        }
    }
}

/// Once a prefix has no placement, neither has the whole text.
proof fn lemma_positions_none(chars: Seq<BMChar>, common: BMCommon, text: Seq<char>, j: int)
    requires
        0 <= j <= text.len(),
        spec_positions(chars, common, text.subrange(0, j)) is None,
    ensures
        spec_positions(chars, common, text) is None,
    decreases text.len() - j,
{
    if j == text.len() {
        assert(text.subrange(0, j) =~= text);
    } else {
        assert(text.subrange(0, j + 1).drop_last() =~= text.subrange(0, j));
        lemma_positions_none(chars, common, text, j + 1);
    }
}

impl FontMan {
    /// Lay a text out: its total advance width, the font's line height, and
    /// each glyph's placed position, left to right. Nothing is returned
    /// when some character has no glyph; the caller picks the fallback.
    pub fn position_text(text: &str, sheet: &BMSheet) -> (r: Option<
        (i64, i32, Vec<(i64, i64, BMChar)>),
    >)
        requires
            text@.len() <= TEXT_LIMIT,
        ensures
            match r {
                Option::Some((w, lh, ps)) => {
                    &&& spec_text_width(sheet.chars@, text@) == Some(w as int)
                    &&& lh == sheet.common.line_height
                    &&& ps@.len() == text@.len()
                    &&& ({
                        let sp = spec_positions(sheet.chars@, sheet.common, text@);
                        &&& sp is Some
                        &&& ps@.len() == sp.unwrap().len()
                        &&& forall|k: int|
                            0 <= k < ps@.len() ==> (#[trigger] ps@[k]).0 == sp.unwrap()[k].0
                                && ps@[k].1 == sp.unwrap()[k].1 && ps@[k].2 == sp.unwrap()[k].2
                    })
                    &&& forall|k: int|
                        0 <= k < ps@.len() ==> -0x8000_0000 * (text@.len() + 1) <= (
                        #[trigger] ps@[k]).0 <= 0x8000_0000 * (text@.len() + 1)
                            && -0x1_8000_0000 <= ps@[k].1 <= 0x1_8000_0000
                },
                Option::None => spec_positions(sheet.chars@, sheet.common, text@) is None,
            },
    {
        let n = text.unicode_len();
        let mut width: i64 = 0;
        let mut positions: Vec<(i64, i64, BMChar)> = Vec::new();
        proof {
            assert(text@.subrange(0, 0) =~= Seq::<char>::empty());
        }
        let mut i: usize = 0;
        while i < n
            invariant
                n == text@.len(),
                n <= TEXT_LIMIT,
                i <= n,
                spec_text_width(sheet.chars@, text@.subrange(0, i as int)) == Some(width as int),
                -0x8000_0000 * (i as i64) <= width <= 0x8000_0000 * (i as i64),
                positions@.len() == i,
                ({
                    let sp = spec_positions(sheet.chars@, sheet.common, text@.subrange(0, i as int));
                    &&& sp is Some
                    &&& positions@.len() == sp.unwrap().len()
                    &&& forall|k: int|
                        0 <= k < positions@.len() ==> (#[trigger] positions@[k]).0
                            == sp.unwrap()[k].0 && positions@[k].1 == sp.unwrap()[k].1
                            && positions@[k].2 == sp.unwrap()[k].2
                }),
                forall|k: int|
                    0 <= k < positions@.len() ==> -0x8000_0000 * (n + 1) <= (
                    #[trigger] positions@[k]).0 <= 0x8000_0000 * (n + 1) && -0x1_8000_0000 <= (
                    positions@[k]).1 <= 0x1_8000_0000,
            decreases n - i,
        {
            proof {
                assert(text@.subrange(0, i as int + 1).drop_last()
                    =~= text@.subrange(0, i as int));
                assert(text@.subrange(0, i as int + 1).last() == text@[i as int]);
            }
            let c = text.get_char(i);
            match find_glyph(sheet, c) {
                Option::Some(g) => {
                    positions.push(
                        (
                            width + g.x_offset as i64,
                            sheet.common.base as i64 - g.height as i64 - g.y_offset as i64,
                            g,
                        ),
                    );
                    width = width + g.x_advance as i64;
                },
                Option::None => {
                    proof {
                        lemma_positions_none(sheet.chars@, sheet.common, text@, i as int + 1);
                    }
                    return None;
                },
            }
            i = i + 1;
        }
        proof {
            assert(text@.subrange(0, n as int) =~= text@);
        }
        Some((width, sheet.common.line_height, positions))
    }
}

/// One glyph of a text mesh: its placed rectangle in pixels and its crop
/// rectangle in atlas pixels. The renderer divides the crop by the atlas
/// size declared in the font's common record.
#[derive(Clone, Copy, PartialEq, Eq, Structural, Debug)]
pub struct GlyphQuad {
    pub x: i64,
    pub y: i64,
    pub w: i32,
    pub h: i32,
    pub u: i32,
    pub v: i32,
}

impl FontMan {
    /// The textured quads of a text placed at an offset, with two triangles
    /// of indices per glyph. Nothing is returned when some character has no
    /// glyph in the font.
    #[verifier::rlimit(50)]
    pub fn get_text_mesh(text: &str, sheet: &BMSheet, offset_x: i64, offset_y: i64) -> (r: Option<
        (Vec<GlyphQuad>, Vec<u32>),
    >)
        requires
            text@.len() <= TEXT_LIMIT,
            -1_000_000_000_000 <= offset_x <= 1_000_000_000_000,
            -1_000_000_000_000 <= offset_y <= 1_000_000_000_000,
        ensures
            match r {
                Option::Some((quads, indices)) => ({
                    let sp = spec_positions(sheet.chars@, sheet.common, text@);
                    &&& sp is Some
                    &&& quads@.len() == sp.unwrap().len()
                    &&& forall|k: int|
                        0 <= k < quads@.len() ==> {
                            let (px, py, g) = sp.unwrap()[k];
                            &&& (#[trigger] quads@[k]).x == px + offset_x
                            &&& quads@[k].y == py + offset_y
                            &&& quads@[k].w == g.width
                            &&& quads@[k].h == g.height
                            &&& quads@[k].u == g.x
                            &&& quads@[k].v == g.y
                        }
                    &&& indices@.len() == 6 * sp.unwrap().len()
                    &&& forall|k: int|
                        0 <= k < sp.unwrap().len() ==> #[trigger] indices@[6 * k] == 4 * k
                    &&& forall|k: int|
                        0 <= k < sp.unwrap().len() ==> #[trigger] indices@[6 * k + 1] == 4 * k + 1
                    &&& forall|k: int|
                        0 <= k < sp.unwrap().len() ==> #[trigger] indices@[6 * k + 2] == 4 * k + 3
                    &&& forall|k: int|
                        0 <= k < sp.unwrap().len() ==> #[trigger] indices@[6 * k + 3] == 4 * k + 1
                    &&& forall|k: int|
                        0 <= k < sp.unwrap().len() ==> #[trigger] indices@[6 * k + 4] == 4 * k + 2
                    &&& forall|k: int|
                        0 <= k < sp.unwrap().len() ==> #[trigger] indices@[6 * k + 5] == 4 * k + 3
                }),
                Option::None => spec_positions(sheet.chars@, sheet.common, text@) is None,
            },
    {
        let placed = match Self::position_text(text, sheet) {
            Option::Some(p) => p,
            Option::None => {
                return None;
            },
        };
        let positions = placed.2;
        let mut quads: Vec<GlyphQuad> = Vec::new();
        let mut indices: Vec<u32> = Vec::new();
        let n = positions.len();
        proof {
            assert(n <= TEXT_LIMIT);
        }
        let mut k: usize = 0;
        while k < n
            invariant
                n == positions@.len(),
                n <= TEXT_LIMIT,
                k <= n,
                ({
                    let sp = spec_positions(sheet.chars@, sheet.common, text@);
                    &&& sp is Some
                    &&& positions@.len() == sp.unwrap().len()
                    &&& forall|j: int|
                        0 <= j < positions@.len() ==> (#[trigger] positions@[j]).0
                            == sp.unwrap()[j].0 && positions@[j].1 == sp.unwrap()[j].1
                            && positions@[j].2 == sp.unwrap()[j].2
                }),
                -1_000_000_000_000 <= offset_x <= 1_000_000_000_000,
                -1_000_000_000_000 <= offset_y <= 1_000_000_000_000,
                forall|j: int|
                    0 <= j < positions@.len() ==> -0x8000_0000 * (n + 1) <= (
                    #[trigger] positions@[j]).0 <= 0x8000_0000 * (n + 1) && -0x1_8000_0000 <= (
                    positions@[j]).1 <= 0x1_8000_0000,
                quads@.len() == k,
                forall|j: int|
                    0 <= j < k ==> {
                        &&& (#[trigger] quads@[j]).x == positions@[j].0 + offset_x
                        &&& quads@[j].y == positions@[j].1 + offset_y
                        &&& quads@[j].w == positions@[j].2.width
                        &&& quads@[j].h == positions@[j].2.height
                        &&& quads@[j].u == positions@[j].2.x
                        &&& quads@[j].v == positions@[j].2.y
                    },
                indices@.len() == 6 * k,
                forall|j: int| 0 <= j < k ==> #[trigger] indices@[6 * j] == 4 * j,
                forall|j: int| 0 <= j < k ==> #[trigger] indices@[6 * j + 1] == 4 * j + 1,
                forall|j: int| 0 <= j < k ==> #[trigger] indices@[6 * j + 2] == 4 * j + 3,
                forall|j: int| 0 <= j < k ==> #[trigger] indices@[6 * j + 3] == 4 * j + 1,
                forall|j: int| 0 <= j < k ==> #[trigger] indices@[6 * j + 4] == 4 * j + 2,
                forall|j: int| 0 <= j < k ==> #[trigger] indices@[6 * j + 5] == 4 * j + 3,
            decreases n - k,
        {
            let p = positions[k];
            quads.push(
                GlyphQuad {
                    x: p.0 + offset_x,
                    y: p.1 + offset_y,
                    w: p.2.width,
                    h: p.2.height,
                    u: p.2.x,
                    v: p.2.y,
                },
            );
            let base: u32 = (4 * k) as u32;
            let ghost p0 = indices@;
            indices.push(base);
            let ghost p1 = indices@;
            indices.push(base + 1);
            let ghost p2 = indices@;
            indices.push(base + 3);
            let ghost p3 = indices@;
            indices.push(base + 1);
            let ghost p4 = indices@;
            indices.push(base + 2);
            let ghost p5 = indices@;
            indices.push(base + 3);
            proof {
                assert forall|j: int| 0 <= j < p0.len() implies indices@[j] == p0[j] by {
                    assert(indices@[j] == p5[j]);
                    assert(p5[j] == p4[j]);
                    assert(p4[j] == p3[j]);
                    assert(p3[j] == p2[j]);
                    assert(p2[j] == p1[j]);
                    assert(p1[j] == p0[j]);
                }
                assert(indices@[6 * k as int] == 4 * k);
                assert(indices@[6 * k as int + 1] == 4 * k + 1);
                assert(indices@[6 * k as int + 2] == 4 * k + 3);
                assert(indices@[6 * k as int + 3] == 4 * k + 1);
                assert(indices@[6 * k as int + 4] == 4 * k + 2);
                assert(indices@[6 * k as int + 5] == 4 * k + 3);
            }
            k = k + 1;
        }
        Some((quads, indices))
    }
}

} // verus!
