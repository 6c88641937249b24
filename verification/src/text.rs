//! Byte-level text handling for the line scanner: normalization (commas to
//! spaces, ASCII lowercasing), whitespace splitting, comment and blank-line
//! detection, and small token utilities.  Tokens are byte vectors; their
//! mathematical image is `Seq<u8>`.

use vstd::prelude::*;

verus! {

use vstd::string::StrSliceExecFns;
use vstd::string::StringSliceAdditionalSpecFns;

/// A byte vector's deep view is its view.
pub broadcast proof fn lemma_bytes_deep_view(v: Vec<u8>)
    ensures
        #[trigger] v.deep_view() == v@,
{
    assert(v.deep_view() =~= v@);
}

/// The ASCII whitespace bytes that separate tokens: tab, line feed, form
/// feed, carriage return and space.
pub open spec fn is_ws(b: u8) -> bool {
    b == 9 || b == 10 || b == 12 || b == 13 || b == 32
}

pub fn is_ws_byte(b: u8) -> (r: bool)
    ensures
        r == is_ws(b),
{
    b == 9 || b == 10 || b == 12 || b == 13 || b == 32
}

/// Normalization applied to every byte before splitting: a comma counts as a
/// space, and an uppercase ASCII letter folds to lowercase.
pub open spec fn norm_byte(b: u8) -> u8 {
    if b == 44 {
        32
    } else if 65 <= b && b <= 90 {
        (b + 32) as u8
    } else {
        b
    }
}

pub fn normalize_byte(b: u8) -> (r: u8)
    ensures
        r == norm_byte(b),
{
    if b == 44 {
        32
    } else if 65 <= b && b <= 90 {
        b + 32
    } else {
        b
    }
}

/// A whole line, normalized byte by byte.
pub open spec fn norm_line(s: Seq<u8>) -> Seq<u8> {
    s.map_values(|b: u8| norm_byte(b))
}

/// The whitespace-separated tokens of `s`, in order.  Defined byte by byte
/// from the left: a non-whitespace byte either extends the token in progress
/// (when the byte just before it is also non-whitespace) or begins a new one.
pub open spec fn split_ws(s: Seq<u8>) -> Seq<Seq<u8>>
    decreases s.len(),
{
    if s.len() == 0 {
        Seq::empty()
    } else {
        let pre = split_ws(s.drop_last());
        let b = s.last();
        if is_ws(b) {
            pre
        } else if s.len() >= 2 && !is_ws(s[s.len() - 2]) {
            pre.update(pre.len() - 1, pre.last().push(b))
        } else {
            pre.push(seq![b])
        }
    }
}

/// The token lines of the scanner: normalize, then split on whitespace.
pub open spec fn line_tokens(s: Seq<u8>) -> Seq<Seq<u8>> {
    split_ws(norm_line(s))
}

/// Splits one raw source line into its normalized tokens.
pub fn tokenize(line: &Vec<u8>) -> (toks: Vec<Vec<u8>>)
    ensures
        toks.deep_view() == line_tokens(line@),
{
    let mut toks: Vec<Vec<u8>> = Vec::new();
    let mut i: usize = 0;
    while i < line.len()
        invariant
            i <= line@.len(),
            toks.deep_view() == split_ws(norm_line(line@.take(i as int))),
            i > 0 && !is_ws(norm_byte(line@[i as int - 1])) ==> toks@.len() >= 1,
        decreases line@.len() - i,
    {
        let ghost pre = norm_line(line@.take(i as int));
        let ghost cur = norm_line(line@.take(i as int + 1));
        proof {
            assert(cur =~= pre.push(norm_byte(line@[i as int])));
            assert(cur.drop_last() =~= pre);
        }
        let b = normalize_byte(line[i]);
        if !is_ws_byte(b) {
            if i > 0 && !is_ws_byte(normalize_byte(line[i - 1])) {
                proof {
                    assert(cur[cur.len() - 2] == pre[pre.len() - 1]);
                    assert(pre[pre.len() - 1] == norm_byte(line@[i as int - 1]));
                }
                let mut t = toks.pop().unwrap();
                t.push(b);
                toks.push(t);
                proof {
                    assert(toks.deep_view() =~~= split_ws(cur));
                }
            } else {
                toks.push(vec![b]);
                proof {
                    assert(toks.deep_view() =~~= split_ws(cur));
                }
            }
        } else {
            proof {
                assert(toks.deep_view() =~~= split_ws(cur));
            }
        }
        i += 1;
    }
    proof {
        assert(line@.take(line@.len() as int) =~= line@);
    }
    toks
}

/// `s` with its leading whitespace removed.
pub open spec fn skip_ws_front(s: Seq<u8>) -> Seq<u8>
    decreases s.len(),
{
    if s.len() > 0 && is_ws(s[0]) {
        skip_ws_front(s.drop_first())
    } else {
        s
    }
}

/// A line the scanner ignores entirely: blank, or a `//` comment after
/// optional leading whitespace.  Such a line emits nothing and consumes no
/// address.
pub open spec fn is_skip_line(s: Seq<u8>) -> bool {
    let r = skip_ws_front(s);
    r.len() == 0 || (r.len() >= 2 && r[0] == 47 && r[1] == 47)
}

pub fn skip_line(line: &Vec<u8>) -> (r: bool)
    ensures
        r == is_skip_line(line@),
{
    let mut i: usize = 0;
    proof {
        assert(line@.skip(0) =~= line@);
    }
    while i < line.len() && is_ws_byte(line[i])
        invariant
            i <= line@.len(),
            skip_ws_front(line@) == skip_ws_front(line@.skip(i as int)),
        decreases line@.len() - i,
    {
        proof {
            assert(line@.skip(i as int).drop_first() =~= line@.skip(i as int + 1));
        }
        i += 1;
    }
    proof {
        assert(skip_ws_front(line@.skip(i as int)) == line@.skip(i as int));
    }
    if i == line.len() {
        proof {
            assert(line@.skip(i as int) =~= Seq::<u8>::empty());
        }
        true
    } else if i + 1 < line.len() && line[i] == 47 && line[i + 1] == 47 {
        true
    } else {
        false
    }
}

/// Whether two byte vectors hold the same bytes.
pub fn bytes_eq(a: &Vec<u8>, b: &Vec<u8>) -> (r: bool)
    ensures
        r == (a@ == b@),
{
    if a.len() != b.len() {
        return false;
    }
    let mut i: usize = 0;
    while i < a.len()
        invariant
            a@.len() == b@.len(),
            i <= a@.len(),
            forall|j: int| 0 <= j < i ==> a@[j] == b@[j],
        decreases a@.len() - i,
    {
        if a[i] != b[i] {
            return false;
        }
        i += 1;
    }
    proof {
        assert(a@ =~= b@);
    }
    true
}

/// Compares a token's bytes with a string literal's bytes.
pub fn token_eq_lit(t: &Vec<u8>, s: &str) -> (r: bool)
    ensures
        r == (t@ == s.spec_bytes()),
{
    let bs = s.as_bytes_vec();
    bytes_eq(t, &bs)
}

/// Whether a token declares a label: it ends in `:`.
pub open spec fn is_label_token(s: Seq<u8>) -> bool {
    s.len() >= 1 && s.last() == 58
}

pub fn ends_in_colon(t: &Vec<u8>) -> (r: bool)
    ensures
        r == is_label_token(t@),
{
    t.len() >= 1 && t[t.len() - 1] == 58
}

/// Whether a token begins with the hexadecimal marker `0x`.
pub open spec fn starts_0x(s: Seq<u8>) -> bool {
    s.len() >= 2 && s[0] == 48 && s[1] == 120
}

pub fn has_hex_prefix(t: &Vec<u8>) -> (r: bool)
    ensures
        r == starts_0x(t@),
{
    t.len() >= 2 && t[0] == 48 && t[1] == 120
}

/// `s` with every trailing `:` removed: the label's name.
pub open spec fn strip_colons(s: Seq<u8>) -> Seq<u8>
    decreases s.len(),
{
    if s.len() > 0 && s.last() == 58 {
        strip_colons(s.drop_last())
    } else {
        s
    }
}

/// Strips every trailing `:` from a label token.
pub fn strip_label_colons(t: &Vec<u8>) -> (r: Vec<u8>)
    ensures
        r@ == strip_colons(t@),
{
    let mut e: usize = t.len();
    proof {
        assert(t@.take(t@.len() as int) =~= t@);
    }
    while e > 0 && t[e - 1] == 58
        invariant
            e <= t@.len(),
            strip_colons(t@) == strip_colons(t@.take(e as int)),
        decreases e,
    {
        proof {
            assert(t@.take(e as int).drop_last() =~= t@.take(e as int - 1));
        }
        e -= 1;
    }
    let mut r: Vec<u8> = Vec::new();
    let mut i: usize = 0;
    while i < e
        invariant
            i <= e <= t@.len(),
            r@ == t@.take(e as int).take(i as int),
        decreases e - i,
    {
        r.push(t[i]);
        proof {
            assert(t@.take(e as int).take(i as int + 1) =~= t@.take(e as int).take(
                i as int,
            ).push(t@[i as int]));
        }
        i += 1;
    }
    proof {
        assert(t@.take(e as int).take(e as int) =~= t@.take(e as int));
    }
    r
}

/// `s` with every leading `0x` marker removed, as the hexadecimal parser of
/// the original instruction set sees it.
pub open spec fn strip_hex_prefixes(s: Seq<u8>) -> Seq<u8>
    decreases s.len(),
{
    if starts_0x(s) {
        strip_hex_prefixes(s.skip(2))
    } else {
        s
    }
}

/// Strips every leading `0x` marker from a token.
pub fn strip_hex_prefix_all(t: &Vec<u8>) -> (r: Vec<u8>)
    ensures
        r@ == strip_hex_prefixes(t@),
{
    let mut i: usize = 0;
    proof {
        assert(t@.skip(0) =~= t@);
    }
    while t.len() - i >= 2 && t[i] == 48 && t[i + 1] == 120
        invariant
            i <= t@.len(),
            strip_hex_prefixes(t@) == strip_hex_prefixes(t@.skip(i as int)),
        decreases t@.len() - i,
    {
        proof {
            assert(t@.skip(i as int).skip(2) =~= t@.skip(i as int + 2));
        }
        i += 2;
    }
    let mut r: Vec<u8> = Vec::new();
    let mut j: usize = i;
    while j < t.len()
        invariant
            i <= j <= t@.len(),
            r@ == t@.skip(i as int).take(j - i),
        decreases t@.len() - j,
    {
        r.push(t[j]);
        proof {
            assert(t@.skip(i as int).take(j + 1 - i) =~= t@.skip(i as int).take(j - i).push(
                t@[j as int],
            ));
        }
        j += 1;
    }
    proof {
        assert(t@.skip(i as int).take(t@.len() - i) =~= t@.skip(i as int));
    }
    r
}

/// Copies a token.
pub fn copy_bytes(t: &Vec<u8>) -> (r: Vec<u8>)
    ensures
        r@ == t@,
{
    let mut r: Vec<u8> = Vec::new();
    let mut i: usize = 0;
    while i < t.len()
        invariant
            i <= t@.len(),
            r@ == t@.take(i as int),
        decreases t@.len() - i,
    {
        r.push(t[i]);
        proof {
            assert(t@.take(i as int + 1) =~= t@.take(i as int).push(t@[i as int]));
        }
        i += 1;
    }
    proof {
        assert(t@.take(t@.len() as int) =~= t@);
    }
    r
}

} // verus!
