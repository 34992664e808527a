//! Construction of levels, and the plain-text placement format.
//!
//! The format is one tile per line, whitespace-separated
//! `<x> <y> <tile-index>`: `x` and `y` are signed 64-bit decimal
//! integers, the index an unsigned one.  A malformed line fails fast
//! with its 1-based line number.  Tile pixel data stays with the
//! renderer: the builder only knows the shared tile extents, so every
//! generated tile's hitbox has those extents at its placed position.

use vstd::prelude::*;
use crate::arith::clip_i32;
use crate::collision::BoxView;
use crate::level::{tile_views_of, Level, Tile};

verus! {

/// ASCII whitespace, as the tokenizer sees it.
pub open spec fn is_ws(b: u8) -> bool {
    b == 32 || b == 9 || b == 10 || b == 11 || b == 12 || b == 13
}

/// Whitespace-splitting of a byte line, one byte at a time: `cur` is
/// the token being read.
pub open spec fn split_acc(s: Seq<u8>, i: int, cur: Seq<u8>) -> Seq<Seq<u8>>
    decreases s.len() - i,
{
    if i < 0 || i >= s.len() {
        if cur.len() > 0 {
            seq![cur]
        } else {
            Seq::empty()
        }
    } else if is_ws(s[i]) {
        if cur.len() > 0 {
            seq![cur] + split_acc(s, i + 1, Seq::empty())
        } else {
            split_acc(s, i + 1, Seq::empty())
        }
    } else {
        split_acc(s, i + 1, cur.push(s[i]))
    }
}

/// The whitespace-separated tokens of a byte line.
pub open spec fn split_ws(s: Seq<u8>) -> Seq<Seq<u8>> {
    split_acc(s, 0, Seq::empty())
}

/// Decimal digit.
pub open spec fn is_digit(b: u8) -> bool {
    48 <= b <= 57
}

/// A non-empty, all-digit byte string.
pub open spec fn is_digits(s: Seq<u8>) -> bool {
    s.len() >= 1 && forall|i: int| 0 <= i < s.len() ==> is_digit(#[trigger] s[i])
}

/// Value of a digit string, most significant digit first.
pub open spec fn digits_val(s: Seq<u8>) -> int
    decreases s.len(),
{
    if s.len() == 0 {
        0
    } else {
        digits_val(s.drop_last()) * 10 + (s.last() - 48)
    }
}

/// Value of a signed 64-bit decimal token: an optional sign, digits,
/// and the value within `i64` range.
pub open spec fn i64_token_val(s: Seq<u8>) -> Option<int> {
    let signed = s.len() >= 1 && (s[0] == 43 || s[0] == 45);
    let body = if signed {
        s.drop_first()
    } else {
        s
    };
    if is_digits(body) {
        let v = if s.len() >= 1 && s[0] == 45 {
            -digits_val(body)
        } else {
            digits_val(body)
        };
        if i64::MIN <= v <= i64::MAX {
            Some(v)
        } else {
            None
        }
    } else {
        None
    }
}

/// Value of an unsigned 64-bit decimal token: an optional plus sign,
/// digits, and the value within `u64` range.
pub open spec fn u64_token_val(s: Seq<u8>) -> Option<int> {
    let signed = s.len() >= 1 && s[0] == 43;
    let body = if signed {
        s.drop_first()
    } else {
        s
    };
    if is_digits(body) {
        let v = digits_val(body);
        if v <= u64::MAX {
            Some(v)
        } else {
            None
        }
    } else {
        None
    }
}

/// Parse of one placement line: at least three tokens, the first two
/// signed coordinates, the third an unsigned tile index; surplus tokens
/// are ignored.
pub open spec fn line_placement(line: Seq<u8>) -> Option<(int, int, int)> {
    let toks = split_ws(line);
    if toks.len() >= 3 {
        match (i64_token_val(toks[0]), i64_token_val(toks[1]), u64_token_val(toks[2])) {
            (Some(x), Some(y), Some(t)) => Some((x, y, t)),
            _ => None,
        }
    } else {
        None
    }
}

/// Strip one carriage return left at the end of a line by a CRLF
/// line ending.
pub open spec fn strip_cr(s: Seq<u8>) -> Seq<u8> {
    if s.len() >= 1 && s.last() == 13 {
        s.drop_last()
    } else {
        s
    }
}

/// Splitting a byte buffer into lines at newline bytes, one byte at a
/// time: `cur` is the line being read.  A trailing newline ends the
/// last line rather than opening an empty one.
pub open spec fn lines_acc(s: Seq<u8>, i: int, cur: Seq<u8>) -> Seq<Seq<u8>>
    decreases s.len() - i,
{
    if i < 0 || i >= s.len() {
        if cur.len() > 0 {
            seq![cur]
        } else {
            Seq::empty()
        }
    } else if s[i] == 10 {
        seq![strip_cr(cur)] + lines_acc(s, i + 1, Seq::empty())
    } else {
        lines_acc(s, i + 1, cur.push(s[i]))
    }
}

/// The lines of a byte buffer.
pub open spec fn lines_of(s: Seq<u8>) -> Seq<Seq<u8>> {
    lines_acc(s, 0, Seq::empty())
}

/// Parse of a whole placement file: the placements in line order, or
/// the 1-based number of the first malformed line.
pub open spec fn placements_of(lines: Seq<Seq<u8>>) -> Result<Seq<(int, int, int)>, int>
    decreases lines.len(),
{
    if lines.len() == 0 {
        Ok(Seq::empty())
    } else {
        match line_placement(lines[0]) {
            Option::None => Err(1),
            Option::Some(p) => match placements_of(lines.drop_first()) {
                Ok(rest) => Ok(seq![p] + rest),
                Err(n) => Err(1 + n),
            },
        }
    }
}

/// The specification-level contents of a token list.
pub open spec fn byte_views_of(s: Seq<Vec<u8>>) -> Seq<Seq<u8>> {
    s.map_values(|v: Vec<u8>| v@)
}

/// The specification-level contents of a placement list.
pub open spec fn placement_views_of(s: Seq<(i64, i64, u64)>) -> Seq<(int, int, int)> {
    s.map_values(|p: (i64, i64, u64)| (p.0 as int, p.1 as int, p.2 as int))
}

/// Split a line into its whitespace-separated tokens.
pub fn tokenize(line: &[u8]) -> (r: Vec<Vec<u8>>)
    ensures
        byte_views_of(r@) == split_ws(line@),
{
    let mut out: Vec<Vec<u8>> = Vec::new();
    let mut cur: Vec<u8> = Vec::new();
    let mut i: usize = 0;
    while i < line.len()
        invariant
            i <= line@.len(),
            split_ws(line@) == byte_views_of(out@) + split_acc(line@, i as int, cur@),
        decreases line@.len() - i,
    {
        let b = line[i];
        if b == 32 || b == 9 || b == 10 || b == 11 || b == 12 || b == 13 {
            proof {
                assert(is_ws(line@[i as int]));
            }
            if cur.len() > 0 {
                let ghost pre = out@;
                let ghost gcur = cur@;
                let full = cur;
                cur = Vec::new();
                proof {
                    assert(cur@ =~= Seq::<u8>::empty());
                    lemma_byte_views_push(pre, full);
                }
                out.push(full);
                proof {
                    assert(split_acc(line@, i as int, gcur) == seq![gcur] + split_acc(
                        line@,
                        i as int + 1,
                        Seq::empty(),
                    ));
                    assert(byte_views_of(out@) + split_acc(line@, i as int + 1, cur@)
                        =~= byte_views_of(pre) + split_acc(line@, i as int, gcur));
                }
            } else {
                proof {
                    assert(cur@ =~= Seq::<u8>::empty());
                }
            }
        } else {
            let ghost gcur = cur@;
            cur.push(b);
            proof {
                assert(split_acc(line@, i as int, gcur) == split_acc(
                    line@,
                    i as int + 1,
                    gcur.push(line@[i as int]),
                ));
                assert(cur@ == gcur.push(line@[i as int]));
            }
        }
        i += 1;
    }
    if cur.len() > 0 {
        let ghost pre = out@;
        let ghost gcur = cur@;
        let full = cur;
        proof {
            lemma_byte_views_push(pre, full);
        }
        out.push(full);
        proof {
            assert(split_acc(line@, line@.len() as int, gcur) == seq![gcur]);
            assert(byte_views_of(out@) =~= byte_views_of(pre) + seq![gcur]);
        }
    } else {
        proof {
            assert(split_acc(line@, line@.len() as int, cur@) == Seq::<Seq<u8>>::empty());
            assert(byte_views_of(out@) + Seq::<Seq<u8>>::empty() =~= byte_views_of(out@));
        }
    }
    out
}

/// Pushing one token extends the token views by its view.
proof fn lemma_byte_views_push(s: Seq<Vec<u8>>, v: Vec<u8>)
    ensures
        byte_views_of(s.push(v)) =~= byte_views_of(s) + seq![v@],
{
    assert forall|k: int|
        0 <= k < s.len() + 1 implies byte_views_of(s.push(v))[k] == (byte_views_of(s)
        + seq![v@])[k] by {
        if k < s.len() {
            assert(s.push(v)[k] == s[k]);
        } else {
            assert(s.push(v)[k] == v);
        }
    }
}

/// Shared digit loop of the decimal parsers: reads the digit body and
/// either delivers its value, or reports that the token has no value
/// within `u64` range (it is not all digits, or its value is too
/// large).
fn parse_digits(tok: &[u8], start: usize, ghost_body: Ghost<Seq<u8>>) -> (r: Result<u64, ()>)
    requires
        start <= 1,
        start <= tok@.len(),
        ghost_body@ == tok@.skip(start as int),
        tok@.len() > start,
    ensures
        match r {
            Ok(v) => is_digits(ghost_body@) && digits_val(ghost_body@) == v as int,
            Err(_) => !is_digits(ghost_body@) || digits_val(ghost_body@) > u64::MAX,
        },
{
    let ghost body = ghost_body@;
    proof {
        assert(body.len() == tok@.len() - start);
    }
    let mut mag: u128 = 0;
    let mut i: usize = start;
    while i < tok.len()
        invariant
            start <= i <= tok@.len(),
            start <= 1,
            body == ghost_body@,
            body == tok@.skip(start as int),
            body.len() == tok@.len() - start,
            forall|k: int| 0 <= k < i - start ==> is_digit(#[trigger] body[k]),
            mag == digits_val(body.take(i - start)),
            mag <= u64::MAX,
        decreases tok@.len() - i,
    {
        let b = tok[i];
        proof {
            assert(body[i - start] == tok@[i as int]);
        }
        if b < 48 || b > 57 {
            proof {
                assert(!is_digit(body[i - start]));
                assert(!is_digits(body));
            }
            return Err(());
        }
        mag = mag * 10 + ((b - 48) as u128);
        proof {
            let j = i - start + 1;
            assert(body.take(j).drop_last() =~= body.take(j - 1));
            assert(body.take(j).last() == body[j - 1]);
            assert forall|k: int| 0 <= k < j implies is_digit(#[trigger] body[k]) by {}
        }
        if mag > 0xffff_ffff_ffff_ffff {
            proof {
                let j = i - start + 1;
                if is_digits(body) {
                    lemma_digits_val_grows(body, j);
                }
            }
            return Err(());
        }
        i += 1;
    }
    proof {
        assert(body.take(tok@.len() - start) =~= body);
        assert(is_digits(body));
    }
    Ok(mag as u64)
}

/// Parse a signed 64-bit decimal token.
pub fn parse_i64_token(tok: &[u8]) -> (r: Option<i64>)
    ensures
        match r {
            Some(v) => i64_token_val(tok@) == Some(v as int),
            None => i64_token_val(tok@) is None,
        },
{
    let negative = tok.len() >= 1 && tok[0] == 45;
    let signed = tok.len() >= 1 && (tok[0] == 43 || tok[0] == 45);
    let start: usize = if signed {
        1
    } else {
        0
    };
    let ghost body = if signed {
        tok@.drop_first()
    } else {
        tok@
    };
    proof {
        if signed {
            assert(body =~= tok@.skip(1));
        } else {
            assert(body =~= tok@.skip(0));
        }
    }
    if tok.len() == start {
        proof {
            assert(!is_digits(body));
        }
        return None;
    }
    let mag = match parse_digits(tok, start, Ghost(body)) {
        Ok(v) => v,
        Err(_) => {
            return None;
        },
    };
    if negative {
        if mag > 0x8000_0000_0000_0000 {
            return None;
        }
        if mag == 0x8000_0000_0000_0000 {
            return Some(i64::MIN);
        }
        Some(-(mag as i64))
    } else {
        if mag > 0x7fff_ffff_ffff_ffff {
            return None;
        }
        Some(mag as i64)
    }
}

/// Parse an unsigned 64-bit decimal token.
pub fn parse_u64_token(tok: &[u8]) -> (r: Option<u64>)
    ensures
        match r {
            Some(v) => u64_token_val(tok@) == Some(v as int),
            None => u64_token_val(tok@) is None,
        },
{
    let signed = tok.len() >= 1 && tok[0] == 43;
    let start: usize = if signed {
        1
    } else {
        0
    };
    let ghost body = if signed {
        tok@.drop_first()
    } else {
        tok@
    };
    proof {
        if signed {
            assert(body =~= tok@.skip(1));
        } else {
            assert(body =~= tok@.skip(0));
        }
    }
    if tok.len() == start {
        proof {
            assert(!is_digits(body));
        }
        return None;
    }
    match parse_digits(tok, start, Ghost(body)) {
        Ok(v) => Some(v),
        Err(_) => None,
    }
}

/// Once a digit prefix is read, further digits cannot shrink the value.
proof fn lemma_digits_val_grows(s: Seq<u8>, i: int)
    requires
        0 < i <= s.len(),
        forall|k: int| 0 <= k < s.len() ==> is_digit(#[trigger] s[k]),
    ensures
        digits_val(s) >= digits_val(s.take(i)),
        digits_val(s.take(i)) >= 0,
    decreases s.len() - i,
{
    assert forall|k: int| 0 <= k < s.take(i).len() implies is_digit(#[trigger] s.take(i)[k]) by {
        assert(s.take(i)[k] == s[k]);
    }
    lemma_digits_val_nonneg(s.take(i));
    if i == s.len() {
        assert(s.take(i) =~= s);
    } else {
        assert(s.take(i + 1).drop_last() =~= s.take(i));
        assert(s.take(i + 1).last() == s[i]);
        assert(digits_val(s.take(i + 1)) == digits_val(s.take(i)) * 10 + (s[i] - 48));
        assert(digits_val(s.take(i)) * 10 >= digits_val(s.take(i))) by (nonlinear_arith)
            requires
                digits_val(s.take(i)) >= 0,
        ;
        lemma_digits_val_grows(s, i + 1);
    }
}

/// A digit string's value is non-negative.
proof fn lemma_digits_val_nonneg(s: Seq<u8>)
    requires
        forall|k: int| 0 <= k < s.len() ==> is_digit(#[trigger] s[k]),
    ensures
        digits_val(s) >= 0,
    decreases s.len(),
{
    if s.len() > 0 {
        assert forall|k: int| 0 <= k < s.drop_last().len() implies is_digit(
            #[trigger] s.drop_last()[k],
        ) by {
            assert(s.drop_last()[k] == s[k]);
        }
        lemma_digits_val_nonneg(s.drop_last());
        assert(digits_val(s.drop_last()) * 10 >= 0) by (nonlinear_arith)
            requires
                digits_val(s.drop_last()) >= 0,
        ;
    }
}

/// Parse one placement line.
pub fn parse_level_line(line: &[u8]) -> (r: Option<(i64, i64, u64)>)
    ensures
        match r {
            Some(p) => line_placement(line@) == Some((p.0 as int, p.1 as int, p.2 as int)),
            None => line_placement(line@) is None,
        },
{
    let toks = tokenize(line);
    proof {
        assert(byte_views_of(toks@).len() == toks@.len());
    }
    if toks.len() < 3 {
        return None;
    }
    proof {
        assert(byte_views_of(toks@)[0] == toks@[0]@);
        assert(byte_views_of(toks@)[1] == toks@[1]@);
        assert(byte_views_of(toks@)[2] == toks@[2]@);
    }
    let x = match parse_i64_token(toks[0].as_slice()) {
        Some(v) => v,
        None => {
            return None;
        },
    };
    let y = match parse_i64_token(toks[1].as_slice()) {
        Some(v) => v,
        None => {
            return None;
        },
    };
    let t = match parse_u64_token(toks[2].as_slice()) {
        Some(v) => v,
        None => {
            return None;
        },
    };
    Some((x, y, t))
}

/// Split a byte buffer into its lines.
pub fn split_lines(data: &[u8]) -> (r: Vec<Vec<u8>>)
    ensures
        byte_views_of(r@) == lines_of(data@),
{
    let mut out: Vec<Vec<u8>> = Vec::new();
    let mut cur: Vec<u8> = Vec::new();
    let mut i: usize = 0;
    while i < data.len()
        invariant
            i <= data@.len(),
            lines_of(data@) == byte_views_of(out@) + lines_acc(data@, i as int, cur@),
        decreases data@.len() - i,
    {
        let b = data[i];
        if b == 10 {
            let ghost gcur = cur@;
            let mut full = cur;
            cur = Vec::new();
            if full.len() > 0 && full[full.len() - 1] == 13 {
                full.pop();
            }
            proof {
                assert(cur@ =~= Seq::<u8>::empty());
                assert(full@ =~= strip_cr(gcur));
            }
            let ghost pre = out@;
            proof {
                lemma_byte_views_push(pre, full);
            }
            out.push(full);
            proof {
                assert(lines_acc(data@, i as int, gcur) == seq![strip_cr(gcur)] + lines_acc(
                    data@,
                    i as int + 1,
                    Seq::empty(),
                ));
                assert(byte_views_of(out@) + lines_acc(data@, i as int + 1, cur@)
                    =~= byte_views_of(pre) + lines_acc(data@, i as int, gcur));
            }
        } else {
            let ghost gcur = cur@;
            cur.push(b);
            proof {
                assert(lines_acc(data@, i as int, gcur) == lines_acc(
                    data@,
                    i as int + 1,
                    gcur.push(data@[i as int]),
                ));
            }
        }
        i += 1;
    }
    if cur.len() > 0 {
        let ghost pre = out@;
        let ghost gcur = cur@;
        let full = cur;
        proof {
            lemma_byte_views_push(pre, full);
        }
        out.push(full);
        proof {
            assert(lines_acc(data@, data@.len() as int, gcur) == seq![gcur]);
            assert(byte_views_of(out@) =~= byte_views_of(pre) + seq![gcur]);
        }
    } else {
        proof {
            assert(lines_acc(data@, data@.len() as int, cur@) == Seq::<Seq<u8>>::empty());
            assert(byte_views_of(out@) + Seq::<Seq<u8>>::empty() =~= byte_views_of(out@));
        }
    }
    out
}

/// Parse a whole placement file: the placements in line order, or the
/// 1-based number of the first malformed line.
pub fn parse_level_text(data: &[u8]) -> (r: Result<Vec<(i64, i64, u64)>, u64>)
    ensures
        match r {
            Ok(v) => placements_of(lines_of(data@)) == Ok::<_, int>(placement_views_of(v@)),
            Err(n) => placements_of(lines_of(data@)) == Err::<Seq<(int, int, int)>, _>(n as int),
        },
{
    let lines = split_lines(data);
    let ghost glines = lines_of(data@);
    proof {
        assert(glines.skip(0) =~= glines);
        assert(byte_views_of(lines@).len() == lines@.len());
    }
    let mut out: Vec<(i64, i64, u64)> = Vec::new();
    let mut i: usize = 0;
    while i < lines.len()
        invariant
            i <= lines@.len(),
            glines == lines_of(data@),
            byte_views_of(lines@) == glines,
            glines.len() == lines@.len(),
            match placements_of(glines.skip(i as int)) {
                Ok(rest) => placements_of(glines) == Ok::<_, int>(
                    placement_views_of(out@) + rest,
                ),
                Err(n) => placements_of(glines) == Err::<Seq<(int, int, int)>, int>(
                    i as int + n,
                ),
            },
        decreases lines@.len() - i,
    {
        proof {
            assert(glines.skip(i as int)[0] == glines[i as int]);
            assert(glines.skip(i as int).drop_first() =~= glines.skip(i as int + 1));
            assert(glines[i as int] == lines@[i as int]@);
        }
        match parse_level_line(lines[i].as_slice()) {
            Some(p) => {
                let ghost pre = out@;
                out.push(p);
                proof {
                    assert(placement_views_of(out@).len() == out@.len());
                    assert forall|k: int|
                        0 <= k < out@.len() implies placement_views_of(out@)[k]
                        == (placement_views_of(pre) + seq![
                        (p.0 as int, p.1 as int, p.2 as int),
                    ])[k] by {
                        assert(placement_views_of(out@)[k] == (out@[k].0 as int, out@[k].1 as int, out@[k].2 as int));
                        if k < pre.len() {
                            assert(out@[k] == pre[k]);
                            assert(placement_views_of(pre)[k] == (pre[k].0 as int, pre[k].1 as int, pre[k].2 as int));
                        } else {
                            assert(out@[k] == p);
                        }
                    }
                    assert(placement_views_of(out@) =~= placement_views_of(pre) + seq![
                        (p.0 as int, p.1 as int, p.2 as int),
                    ]);
                    match placements_of(glines.skip(i as int + 1)) {
                        Ok(rest) => {
                            assert(placement_views_of(pre) + (seq![
                                (p.0 as int, p.1 as int, p.2 as int),
                            ] + rest) =~= placement_views_of(out@) + rest);
                        },
                        _ => {},
                    }
                }
            },
            None => {
                proof {
                    assert(placements_of(glines.skip(i as int)) == Err::<
                        Seq<(int, int, int)>,
                        int,
                    >(1));
                }
                return Err((i as u64) + 1);
            },
        }
        i += 1;
    }
    proof {
        assert(glines.skip(glines.len() as int) =~= Seq::<Seq<u8>>::empty());
        assert(placement_views_of(out@) + Seq::<(int, int, int)>::empty() =~= placement_views_of(
            out@,
        ));
    }
    Ok(out)
}

/// Builds levels out of placements, with every tile sharing the
/// builder's tile extents.
#[derive(Clone, Debug)]
pub struct LevelBuilder {
    pub tile_width: i32,
    pub tile_height: i32,
    pub tile_keys: Vec<u64>,
}

/// Tile boxes generated from a placement list: each placement's
/// coordinates clamped into world range, with the shared tile extents.
pub open spec fn generated_views(pl: Seq<(int, int, int)>, w: int, h: int) -> Seq<BoxView> {
    pl.map_values(|p: (int, int, int)| BoxView { x: clip_i32(p.0), y: clip_i32(p.1), w, h })
}

impl LevelBuilder {
    pub open spec fn wf(self) -> bool {
        self.tile_width >= 1 && self.tile_height >= 1
    }

    /// A builder for tiles of the given extents.
    pub fn new(tile_width: i32, tile_height: i32) -> (r: LevelBuilder)
        requires
            tile_width >= 1,
            tile_height >= 1,
        ensures
            r.tile_width == tile_width,
            r.tile_height == tile_height,
            r.tile_keys@ == Seq::<u64>::empty(),
            r.wf(),
    {
        LevelBuilder { tile_width, tile_height, tile_keys: Vec::new() }
    }

    /// A tile image is acceptable only at exactly the builder's tile
    /// extents.
    pub fn validate_image_size(&self, w: i32, h: i32) -> (r: Result<(), ()>)
        ensures
            r is Ok <==> (w == self.tile_width && h == self.tile_height),
    {
        if w == self.tile_width && h == self.tile_height {
            Ok(())
        } else {
            Err(())
        }
    }

    /// Register a tile image for an index; rejected unless it has the
    /// builder's tile extents.
    pub fn set_tile_image(&mut self, key: u64, w: i32, h: i32) -> (r: Result<(), ()>)
        ensures
            r is Ok <==> (w == old(self).tile_width && h == old(self).tile_height),
            final (self).tile_width == old(self).tile_width,
            final (self).tile_height == old(self).tile_height,
            r is Ok ==> final (self).tile_keys@ == old(self).tile_keys@.push(key),
            r is Err ==> final (self).tile_keys@ == old(self).tile_keys@,
    {
        if w == self.tile_width && h == self.tile_height {
            self.tile_keys.push(key);
            Ok(())
        } else {
            Err(())
        }
    }

    /// Slice a sheet of the given extents into 64-unit tiles,
    /// registering one key per slice in row-major order; returns how
    /// many tiles were cut.  The builder's own tile extents must be the
    /// 64-unit slice size.
    pub fn tileize(&mut self, img_w: i32, img_h: i32) -> (r: u64)
        requires
            old(self).tile_width == 64,
            old(self).tile_height == 64,
            img_w >= 0,
            img_h >= 0,
        ensures
            r as int == (img_w as int / 64) * (img_h as int / 64),
            final (self).tile_width == old(self).tile_width,
            final (self).tile_height == old(self).tile_height,
            final (self).tile_keys@ == old(self).tile_keys@ + Seq::new(
                r as nat,
                |i: int| i as u64,
            ),
    {
        let wmax: u64 = (img_w / 64) as u64;
        let hmax: u64 = (img_h / 64) as u64;
        proof {
            assert(wmax * hmax <= 0x2000000 * 0x2000000) by (nonlinear_arith)
                requires
                    0 <= wmax <= 0x2000000,
                    0 <= hmax <= 0x2000000,
            ;
        }
        let total: u64 = wmax * hmax;
        let mut k: u64 = 0;
        proof {
            assert(self.tile_keys@ + Seq::new(0, |i: int| i as u64) =~= self.tile_keys@);
        }
        while k < total
            invariant
                k <= total,
                self.tile_width == old(self).tile_width,
                self.tile_height == old(self).tile_height,
                self.tile_keys@ == old(self).tile_keys@ + Seq::new(k as nat, |i: int| i as u64),
            decreases total - k,
        {
            let ghost pre = self.tile_keys@;
            self.tile_keys.push(k);
            proof {
                assert forall|j: int|
                    0 <= j < self.tile_keys@.len() implies self.tile_keys@[j] == (old(
                    self,
                ).tile_keys@ + Seq::new((k + 1) as nat, |i: int| i as u64))[j] by {
                    if j < pre.len() {
                        assert(self.tile_keys@[j] == pre[j]);
                    } else {
                        assert(self.tile_keys@[j] == k);
                    }
                }
                assert(self.tile_keys@ =~= old(self).tile_keys@ + Seq::new(
                    (k + 1) as nat,
                    |i: int| i as u64,
                ));
            }
            k += 1;
        }
        total
    }

    /// Build a level: one tile per placement, all with the builder's
    /// tile extents.
    pub fn generate_level(&self, placements: &Vec<(i64, i64, u64)>) -> (r: Level)
        requires
            self.wf(),
        ensures
            r@ == generated_views(
                placement_views_of(placements@),
                self.tile_width as int,
                self.tile_height as int,
            ),
    {
        let mut tiles: Vec<Tile> = Vec::new();
        let mut i: usize = 0;
        while i < placements.len()
            invariant
                i <= placements@.len(),
                self.wf(),
                tile_views_of(tiles@) == generated_views(
                    placement_views_of(placements@.take(i as int)),
                    self.tile_width as int,
                    self.tile_height as int,
                ),
            decreases placements@.len() - i,
        {
            let p = placements[i];
            let x = clamp_i64_to_i32(p.0);
            let y = clamp_i64_to_i32(p.1);
            let ghost pre = tiles@;
            tiles.push(Tile::new(x, y, self.tile_width, self.tile_height));
            proof {
                let w = self.tile_width as int;
                let h = self.tile_height as int;
                let pvold = placement_views_of(placements@.take(i as int));
                let pv = placement_views_of(placements@.take(i as int + 1));
                assert(tile_views_of(pre).len() == pre.len());
                assert(generated_views(pvold, w, h).len() == pvold.len());
                assert(pvold.len() == placements@.take(i as int).len());
                assert(pre.len() == i as int);
                assert forall|k: int|
                    0 <= k < tiles@.len() implies #[trigger] tile_views_of(tiles@)[k]
                    == generated_views(pv, w, h)[k] by {
                    assert(tile_views_of(tiles@)[k] == tiles@[k]@);
                    assert(pv[k] == (placements@.take(i as int + 1)[k].0 as int,
                        placements@.take(i as int + 1)[k].1 as int,
                        placements@.take(i as int + 1)[k].2 as int));
                    assert(generated_views(pv, w, h)[k] == (BoxView {
                        x: clip_i32(pv[k].0),
                        y: clip_i32(pv[k].1),
                        w: w,
                        h: h,
                    }));
                    if k < pre.len() {
                        assert(tiles@[k] == pre[k]);
                        assert(tile_views_of(pre)[k] == pre[k]@);
                        assert(tile_views_of(pre)[k] == generated_views(pvold, w, h)[k]);
                        assert(pvold[k] == (placements@.take(i as int)[k].0 as int,
                            placements@.take(i as int)[k].1 as int,
                            placements@.take(i as int)[k].2 as int));
                        assert(placements@.take(i as int)[k] == placements@[k]);
                        assert(placements@.take(i as int + 1)[k] == placements@[k]);
                    } else {
                        assert(placements@.take(i as int + 1)[k] == placements@[i as int]);
                    }
                }
                assert(tile_views_of(tiles@).len() == tiles@.len());
                assert(generated_views(pv, w, h).len() == pv.len());
                assert(tile_views_of(tiles@) =~= generated_views(pv, w, h));
            }
            i += 1;
        }
        proof {
            assert(placements@.take(placements@.len() as int) =~= placements@);
        }
        Level::new(tiles)
    }

    /// Build a level from placement-file bytes; a malformed file yields
    /// the 1-based number of its first bad line.
    pub fn from_bytes(&self, data: &[u8]) -> (r: Result<Level, u64>)
        requires
            self.wf(),
        ensures
            match r {
                Ok(level) => placements_of(lines_of(data@)) matches Ok(pl) && level@
                    == generated_views(pl, self.tile_width as int, self.tile_height as int),
                Err(n) => placements_of(lines_of(data@)) == Err::<Seq<(int, int, int)>, _>(
                    n as int,
                ),
            },
    {
        match parse_level_text(data) {
            Ok(placements) => Ok(self.generate_level(&placements)),
            Err(n) => Err(n),
        }
    }

    /// The empty level.
    pub fn sample0(&self) -> (r: Level)
        requires
            self.wf(),
        ensures
            r@ == Seq::<BoxView>::empty(),
    {
        let tiles: Vec<Tile> = Vec::new();
        let r = Level::new(tiles);
        proof {
            assert(r@ =~= Seq::<BoxView>::empty());
        }
        r
    }

    /// A small fixed layout: two columns of three tiles.
    pub fn sample1(&self) -> (r: Level)
        requires
            self.wf(),
        ensures
            r@ == generated_views(
                seq![
                    (350, 150, 1),
                    (414, 150, 0),
                    (350, 250, 1),
                    (414, 250, 0),
                    (350, 350, 1),
                    (414, 350, 0),
                ],
                self.tile_width as int,
                self.tile_height as int,
            ),
    {
        let placements: Vec<(i64, i64, u64)> = vec![
            (350, 150, 1),
            (414, 150, 0),
            (350, 250, 1),
            (414, 250, 0),
            (350, 350, 1),
            (414, 350, 0),
        ];
        let r = self.generate_level(&placements);
        proof {
            assert(placement_views_of(placements@) =~= seq![
                (350int, 150int, 1int),
                (414int, 150int, 0int),
                (350int, 250int, 1int),
                (414int, 250int, 0int),
                (350int, 350int, 1int),
                (414int, 350int, 0int),
            ]);
        }
        r
    }
}

/// Clamp a parsed coordinate into world range.
fn clamp_i64_to_i32(v: i64) -> (r: i32)
    ensures
        r as int == clip_i32(v as int),
{
    if v > i32::MAX as i64 {
        i32::MAX
    } else if v < i32::MIN as i64 {
        i32::MIN
    } else {
        v as i32
    }
}

} // verus!
