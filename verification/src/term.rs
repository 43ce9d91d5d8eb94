//! Cleaning of terminal output for display in the bubble: ANSI CSI / OSC
//! escape sequences and carriage returns are removed, other text is kept.

use vstd::prelude::*;

use crate::strings::{push_char, to_chars};

verus! {

/// The escape character `ESC` (0x1B).
pub open spec fn esc() -> char {
    '\u{1b}'
}

/// A CSI sequence ends with an ASCII character in `0x40..=0x7E`.
pub open spec fn is_csi_final(c: char) -> bool {
    0x40 <= (c as u32) <= 0x7E
}

/// How many characters of `t` a CSI body takes: up to and including the
/// first final character, or all of `t` when there is none.
pub open spec fn csi_len(t: Seq<char>) -> nat
    decreases t.len(),
{
    if t.len() == 0 {
        0
    } else if is_csi_final(t[0]) {
        1
    } else {
        1 + csi_len(t.drop_first())
    }
}

/// How many characters of `t` an OSC body takes: up to and including the
/// first `BEL` (0x07), or all of `t` when there is none.
pub open spec fn osc_len(t: Seq<char>) -> nat
    decreases t.len(),
{
    if t.len() == 0 {
        0
    } else if t[0] == '\u{7}' {
        1
    } else {
        1 + osc_len(t.drop_first())
    }
}

pub proof fn lemma_csi_len(t: Seq<char>)
    ensures
        csi_len(t) <= t.len(),
    decreases t.len(),
{
    if t.len() > 0 && !is_csi_final(t[0]) {
        lemma_csi_len(t.drop_first());
    }
}

pub proof fn lemma_osc_len(t: Seq<char>)
    ensures
        osc_len(t) <= t.len(),
    decreases t.len(),
{
    if t.len() > 0 && t[0] != '\u{7}' {
        lemma_osc_len(t.drop_first());
    }
}

/// The cleaned text: `ESC [ ... final` and `ESC ] ... BEL` sequences are
/// dropped (to the end of the line when unterminated), any other `ESC` is
/// dropped alone, and so is every `\r`; all other characters are kept.
pub open spec fn clean_seq(s: Seq<char>) -> Seq<char>
    decreases s.len(),
{
    if s.len() == 0 {
        Seq::empty()
    } else if s[0] == esc() {
        if s.len() > 1 && s[1] == '[' {
            proof {
                lemma_csi_len(s.skip(2));
            }
            clean_seq(s.skip(2 + csi_len(s.skip(2)) as int))
        } else if s.len() > 1 && s[1] == ']' {
            proof {
                lemma_osc_len(s.skip(2));
            }
            clean_seq(s.skip(2 + osc_len(s.skip(2)) as int))
        } else {
            clean_seq(s.drop_first())
        }
    } else if s[0] == '\r' {
        clean_seq(s.drop_first())
    } else {
        seq![s[0]] + clean_seq(s.drop_first())
    }
}

/// Index just past the CSI body that starts at `start`.
fn csi_end(cs: &Vec<char>, start: usize) -> (r: usize)
    requires
        start <= cs.len(),
    ensures
        r == start + csi_len(cs@.skip(start as int)),
        r <= cs.len(),
{
    let mut j = start;
    while j < cs.len()
        invariant
            start <= j <= cs.len(),
            csi_len(cs@.skip(start as int)) == (j - start) + csi_len(cs@.skip(j as int)),
        decreases cs.len() - j,
    {
        assert(cs@.skip(j as int)[0] == cs@[j as int]);
        assert(cs@.skip(j as int).drop_first() =~= cs@.skip(j + 1));
        let c = cs[j];
        if 0x40 <= c as u32 && c as u32 <= 0x7E {
            return j + 1;
        }
        j = j + 1;
    }
    assert(cs@.skip(j as int).len() == 0);
    j
}

/// Index just past the OSC body that starts at `start`.
fn osc_end(cs: &Vec<char>, start: usize) -> (r: usize)
    requires
        start <= cs.len(),
    ensures
        r == start + osc_len(cs@.skip(start as int)),
        r <= cs.len(),
{
    let mut j = start;
    while j < cs.len()
        invariant
            start <= j <= cs.len(),
            osc_len(cs@.skip(start as int)) == (j - start) + osc_len(cs@.skip(j as int)),
        decreases cs.len() - j,
    {
        assert(cs@.skip(j as int)[0] == cs@[j as int]);
        assert(cs@.skip(j as int).drop_first() =~= cs@.skip(j + 1));
        if cs[j] == '\u{7}' {
            return j + 1;
        }
        j = j + 1;
    }
    assert(cs@.skip(j as int).len() == 0);
    j
}

/// Removes ANSI CSI / OSC escape sequences and `\r` from a line of
/// terminal output, keeping the other characters in order.
pub fn clean_line(line: &str) -> (r: String)
    ensures
        r@ == clean_seq(line@),
{
    let cs = to_chars(line);
    let mut out = String::new();
    let mut i: usize = 0;
    assert(cs@.skip(0) =~= cs@);
    while i < cs.len()
        invariant
            i <= cs.len(),
            cs@ == line@,
            out@ + clean_seq(cs@.skip(i as int)) == clean_seq(line@),
        decreases cs.len() - i,
    {
        let ghost t = cs@.skip(i as int);
        assert(t[0] == cs@[i as int]);
        assert(t.drop_first() =~= cs@.skip(i + 1));
        let ch = cs[i];
        if ch == '\u{1b}' {
            if i + 1 < cs.len() && cs[i + 1] == '[' {
                assert(t[1] == cs@[i + 1]);
                assert(t.skip(2) =~= cs@.skip(i + 2));
                let j = csi_end(&cs, i + 2);
                assert(t.skip(2 + csi_len(t.skip(2)) as int) =~= cs@.skip(j as int));
                i = j;
            } else if i + 1 < cs.len() && cs[i + 1] == ']' {
                assert(t[1] == cs@[i + 1]);
                assert(t.skip(2) =~= cs@.skip(i + 2));
                let j = osc_end(&cs, i + 2);
                assert(t.skip(2 + osc_len(t.skip(2)) as int) =~= cs@.skip(j as int));
                i = j;
            } else {
                if i + 1 < cs.len() {
                    assert(t[1] == cs@[i + 1]);
                }
                i = i + 1;
            }
        } else if ch == '\r' {
            i = i + 1;
        } else {
            let ghost before = out@;
            push_char(&mut out, ch);
            assert(out@ + clean_seq(cs@.skip(i + 1)) =~= before + (seq![ch] + clean_seq(
                cs@.skip(i + 1),
            )));
            i = i + 1;
        }
    }
    assert(cs@.skip(i as int) =~= Seq::<char>::empty());
    assert(out@ + Seq::<char>::empty() =~= out@);
    out
}

/// The cleaned text holds no `ESC` and no `\r`.
pub proof fn law_clean_drops_escapes(s: Seq<char>)
    ensures
        forall|i: int|
            0 <= i < clean_seq(s).len() ==> #[trigger] clean_seq(s)[i] != esc() && clean_seq(s)[i]
                != '\r',
    decreases s.len(),
{
    if s.len() > 0 {
        if s[0] == esc() {
            if s.len() > 1 && s[1] == '[' {
                lemma_csi_len(s.skip(2));
                law_clean_drops_escapes(s.skip(2 + csi_len(s.skip(2)) as int));
                assert(clean_seq(s) == clean_seq(s.skip(2 + csi_len(s.skip(2)) as int)));
            } else if s.len() > 1 && s[1] == ']' {
                lemma_osc_len(s.skip(2));
                law_clean_drops_escapes(s.skip(2 + osc_len(s.skip(2)) as int));
                assert(clean_seq(s) == clean_seq(s.skip(2 + osc_len(s.skip(2)) as int)));
            } else {
                law_clean_drops_escapes(s.drop_first());
                assert(clean_seq(s) == clean_seq(s.drop_first()));
            }
        } else {
            law_clean_drops_escapes(s.drop_first());
            let rest = clean_seq(s.drop_first());
            if s[0] == '\r' {
                assert(clean_seq(s) == rest);
            } else {
                assert forall|i: int| 0 <= i < clean_seq(s).len() implies #[trigger] clean_seq(s)[i]
                    != esc() && clean_seq(s)[i] != '\r' by {
                    if i > 0 {
                        assert(clean_seq(s)[i] == rest[i - 1]);
                    }
                }
            }
        }
    }
}

/// Text without `ESC` and `\r` comes out unchanged.
pub proof fn law_clean_keeps_plain_text(s: Seq<char>)
    requires
        forall|i: int| 0 <= i < s.len() ==> #[trigger] s[i] != esc() && s[i] != '\r',
    ensures
        clean_seq(s) == s,
    decreases s.len(),
{
    if s.len() > 0 {
        assert(s[0] != esc() && s[0] != '\r');
        assert forall|i: int| 0 <= i < s.drop_first().len() implies #[trigger] s.drop_first()[i]
            != esc() && s.drop_first()[i] != '\r' by {
            assert(s.drop_first()[i] == s[i + 1]);
        }
        law_clean_keeps_plain_text(s.drop_first());
        assert(seq![s[0]] + s.drop_first() =~= s);
    }
}

/// Cleaning an already cleaned line changes nothing.
pub proof fn law_clean_idempotent(s: Seq<char>)
    ensures
        clean_seq(clean_seq(s)) == clean_seq(s),
{
    law_clean_drops_escapes(s);
    law_clean_keeps_plain_text(clean_seq(s));
}

/// `idx` places the characters of `a`, in order, at increasing positions of
/// `b`.
pub open spec fn embeds(a: Seq<char>, b: Seq<char>, idx: Seq<int>) -> bool {
    &&& idx.len() == a.len()
    &&& forall|i: int| 0 <= i < a.len() ==> 0 <= #[trigger] idx[i] < b.len() && b[idx[i]] == a[i]
    &&& forall|i: int, j: int| 0 <= i < j < a.len() ==> #[trigger] idx[i] < #[trigger] idx[j]
}

/// `a` is `b` with some characters left out: a subsequence of `b`.
pub open spec fn is_subsequence(a: Seq<char>, b: Seq<char>) -> bool {
    exists|idx: Seq<int>| embeds(a, b, idx)
}

/// An embedding into a suffix of `b` is one into `b`, its positions moved by
/// the length of what was cut off.
proof fn lemma_embed_shift(a: Seq<char>, b: Seq<char>, idx: Seq<int>, k: int)
    requires
        0 <= k <= b.len(),
        embeds(a, b.skip(k), idx),
    ensures
        embeds(a, b, idx.map_values(|x: int| x + k)),
{
    let m = idx.map_values(|x: int| x + k);
    assert forall|i: int| 0 <= i < a.len() implies 0 <= #[trigger] m[i] < b.len() && b[m[i]]
        == a[i] by {
        assert(m[i] == idx[i] + k);
        assert(b.skip(k)[idx[i]] == b[idx[i] + k]);
    }
    assert forall|i: int, j: int| 0 <= i < j < a.len() implies #[trigger] m[i] < #[trigger] m[j] by {
        assert(m[i] == idx[i] + k);
        assert(m[j] == idx[j] + k);
        assert(idx[i] < idx[j]);
    }
}

/// Where each character of the cleaned text stands in the original.
proof fn clean_embedding(s: Seq<char>) -> (idx: Seq<int>)
    ensures
        embeds(clean_seq(s), s, idx),
    decreases s.len(),
{
    if s.len() == 0 {
        Seq::empty()
    } else {
        let k: int = if s[0] == esc() && s.len() > 1 && s[1] == '[' {
            lemma_csi_len(s.skip(2));
            2 + csi_len(s.skip(2)) as int
        } else if s[0] == esc() && s.len() > 1 && s[1] == ']' {
            lemma_osc_len(s.skip(2));
            2 + osc_len(s.skip(2)) as int
        } else {
            1
        };
        assert(1 <= k <= s.len());
        assert(s.skip(1) =~= s.drop_first());
        let rest = clean_embedding(s.skip(k));
        lemma_embed_shift(clean_seq(s.skip(k)), s, rest, k);
        let moved = rest.map_values(|x: int| x + k);
        if s[0] == esc() || s[0] == '\r' {
            moved
        } else {
            let c = clean_seq(s);
            let idx = seq![0int] + moved;
            assert(c == seq![s[0]] + clean_seq(s.skip(1)));
            assert forall|i: int| 0 <= i < c.len() implies 0 <= #[trigger] idx[i] < s.len() && s[idx[i]]
                == c[i] by {
                if i > 0 {
                    assert(idx[i] == moved[i - 1]);
                    assert(c[i] == clean_seq(s.skip(1))[i - 1]);
                }
            }
            assert forall|i: int, j: int| 0 <= i < j < c.len() implies #[trigger] idx[i]
                < #[trigger] idx[j] by {
                assert(idx[j] == moved[j - 1]);
                assert(0 <= j - 1 < moved.len());
                if i > 0 {
                    assert(idx[i] == moved[i - 1]);
                }
            }
            idx
        }
    }
}

/// The cleaned text is the line with some characters left out, the others
/// kept in their order.
pub proof fn law_clean_is_subsequence(s: Seq<char>)
    ensures
        is_subsequence(clean_seq(s), s),
{
    let idx = clean_embedding(s);
    assert(embeds(clean_seq(s), s, idx));
}

/// A body of characters none of which is in `0x40..=0x7E`, then a character
/// in that range, is taken whole: the body's length plus one.
proof fn lemma_csi_len_of(params: Seq<char>, f: char, t: Seq<char>)
    requires
        forall|i: int| 0 <= i < params.len() ==> !(0x40 <= (#[trigger] params[i]) as u32 <= 0x7E),
        0x40 <= f as u32 <= 0x7E,
    ensures
        csi_len(params + seq![f] + t) == params.len() + 1,
    decreases params.len(),
{
    let w = params + seq![f] + t;
    if params.len() == 0 {
        assert(w[0] == f);
    } else {
        assert(w[0] == params[0]);
        let p2 = params.drop_first();
        assert forall|i: int| 0 <= i < p2.len() implies !(0x40 <= (#[trigger] p2[i]) as u32
            <= 0x7E) by {
            assert(p2[i] == params[i + 1]);
        }
        lemma_csi_len_of(p2, f, t);
        assert(w.drop_first() =~= p2 + seq![f] + t);
    }
}

/// A body of characters other than `BEL`, then `BEL`, is taken whole.
proof fn lemma_osc_len_of(body: Seq<char>, t: Seq<char>)
    requires
        forall|i: int| 0 <= i < body.len() ==> (#[trigger] body[i]) != '\u{7}',
    ensures
        osc_len(body + seq!['\u{7}'] + t) == body.len() + 1,
    decreases body.len(),
{
    let w = body + seq!['\u{7}'] + t;
    if body.len() == 0 {
        assert(w[0] == '\u{7}');
    } else {
        assert(w[0] == body[0]);
        let b2 = body.drop_first();
        assert forall|i: int| 0 <= i < b2.len() implies (#[trigger] b2[i]) != '\u{7}' by {
            assert(b2[i] == body[i + 1]);
        }
        lemma_osc_len_of(b2, t);
        assert(w.drop_first() =~= b2 + seq!['\u{7}'] + t);
    }
}

/// A CSI sequence ends at its first character in `0x40..=0x7E` (its final
/// byte, such as `m` or `K`): `ESC [`, parameters outside that range, and
/// the final byte are dropped, and the rest of the line is cleaned as if
/// they had not been there.
pub proof fn law_csi_ends_at_final_byte(params: Seq<char>, f: char, t: Seq<char>)
    requires
        forall|i: int| 0 <= i < params.len() ==> !(0x40 <= (#[trigger] params[i]) as u32 <= 0x7E),
        0x40 <= f as u32 <= 0x7E,
    ensures
        clean_seq(seq!['\u{1b}', '['] + params + seq![f] + t) == clean_seq(t),
{
    let s = seq!['\u{1b}', '['] + params + seq![f] + t;
    assert(s[0] == esc());
    assert(s[1] == '[');
    assert(s.skip(2) =~= params + seq![f] + t);
    lemma_csi_len_of(params, f, t);
    assert(s.skip(2 + params.len() as int + 1) =~= t);
}

/// An OSC sequence ends at its first `BEL`: `ESC ]`, the text up to the
/// `BEL` and the `BEL` are dropped, and the rest is cleaned as if they had
/// not been there.
pub proof fn law_osc_ends_at_bel(body: Seq<char>, t: Seq<char>)
    requires
        forall|i: int| 0 <= i < body.len() ==> (#[trigger] body[i]) != '\u{7}',
    ensures
        clean_seq(seq!['\u{1b}', ']'] + body + seq!['\u{7}'] + t) == clean_seq(t),
{
    let s = seq!['\u{1b}', ']'] + body + seq!['\u{7}'] + t;
    assert(s[0] == esc());
    assert(s[1] == ']');
    assert(s.skip(2) =~= body + seq!['\u{7}'] + t);
    lemma_osc_len_of(body, t);
    assert(s.skip(2 + body.len() as int + 1) =~= t);
}

} // verus!
