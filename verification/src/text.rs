//! Byte-level text utilities: line and field splitting, whitespace
//! tokenization, and exact decimal integer parsing.
//!
//! File content arrives as raw bytes; the importers work on these directly.
//! Each executable function here is proved against a recursive specification
//! of the corresponding split or parse.

use vstd::prelude::*;

verus! {

/// Horizontal whitespace inside a line: space, tab, carriage return.
pub open spec fn is_ws(b: u8) -> bool {
    b == 32 || b == 9 || b == 13
}

/// Length of the leading run of non-whitespace bytes.
pub open spec fn token_len(s: Seq<u8>) -> nat
    decreases s.len(),
{
    if s.len() == 0 || is_ws(s[0]) {
        0
    } else {
        1 + token_len(s.subrange(1, s.len() as int))
    }
}

/// The whitespace-separated tokens of `s`, in order, empties dropped.
pub open spec fn ws_tokens(s: Seq<u8>) -> Seq<Seq<u8>>
    decreases s.len(),
{
    if s.len() == 0 {
        Seq::empty()
    } else if is_ws(s[0]) {
        ws_tokens(s.subrange(1, s.len() as int))
    } else {
        let k = token_len(s);
        if k >= s.len() {
            seq![s]
        } else {
            seq![s.subrange(0, k as int)] + ws_tokens(s.subrange(k as int, s.len() as int))
        }
    }
}

/// Characterization of `token_len` by a scan position: if the first `m`
/// bytes are non-whitespace and byte `m` (when it exists) is whitespace,
/// the leading token is exactly `m` bytes long.
pub proof fn lemma_token_len_at(s: Seq<u8>, m: int)
    requires
        0 <= m <= s.len(),
        forall|j: int| 0 <= j < m ==> !is_ws(s[j]),
        m < s.len() ==> is_ws(s[m]),
    ensures
        token_len(s) == m,
    decreases m,
{
    if m == 0 {
    } else {
        let t = s.subrange(1, s.len() as int);
        lemma_token_len_at(t, m - 1);
    }
}

/// Splitting a whitespace byte off the front leaves the tokens unchanged.
pub proof fn lemma_ws_tokens_skip_ws(s: Seq<u8>, i: int)
    requires
        0 <= i < s.len(),
        is_ws(s[i]),
        forall|j: int| 0 <= j < i ==> is_ws(s[j]),
    ensures
        ws_tokens(s) == ws_tokens(s.subrange(i + 1, s.len() as int)),
    decreases i,
{
    if i == 0 {
        assert(ws_tokens(s) == ws_tokens(s.subrange(1, s.len() as int)));
    } else {
        let t = s.subrange(1, s.len() as int);
        assert(t.subrange(i, t.len() as int) =~= s.subrange(i + 1, s.len() as int));
        lemma_ws_tokens_skip_ws(t, i - 1);
    }
}

/// Exec test for [`is_ws`].
pub fn is_ws_byte(b: u8) -> (r: bool)
    ensures
        r == is_ws(b),
{
    b == 32 || b == 9 || b == 13
}

/// Split `line` into its whitespace-separated tokens.
pub fn tokenize(line: &[u8]) -> (r: Vec<Vec<u8>>)
    ensures
        r.deep_view() == ws_tokens(line@),
{
    let mut r: Vec<Vec<u8>> = Vec::new();
    let mut i: usize = 0;
    proof {
        assert(line@.subrange(0, line@.len() as int) =~= line@);
        assert(r.deep_view() =~= Seq::<Seq<u8>>::empty());
        assert(Seq::<Seq<u8>>::empty() + ws_tokens(line@) =~= ws_tokens(line@));
    }
    while i < line.len()
        invariant
            i <= line@.len(),
            r.deep_view() + ws_tokens(line@.subrange(i as int, line@.len() as int)) == ws_tokens(
                line@,
            ),
        decreases line@.len() - i,
    {
        if is_ws_byte(line[i]) {
            proof {
                let s = line@.subrange(i as int, line@.len() as int);
                lemma_ws_tokens_skip_ws(s, 0);
                assert(s.subrange(1, s.len() as int) =~= line@.subrange(
                    i + 1,
                    line@.len() as int,
                ));
            }
            i = i + 1;
        } else {
            let start = i;
            i = i + 1;
            while i < line.len() && !is_ws_byte(line[i])
                invariant
                    start < i <= line@.len(),
                    forall|j: int| start <= j < i ==> !is_ws(line@[j]),
                decreases line@.len() - i,
            {
                i = i + 1;
            }
            let tok = vstd::slice::slice_to_vec(vstd::slice::slice_subrange(line, start, i));
            let ghost s = line@.subrange(start as int, line@.len() as int);
            let ghost tail = line@.subrange(i as int, line@.len() as int);
            proof {
                assert forall|j: int| 0 <= j < i - start implies !is_ws(s[j]) by {
                    assert(s[j] == line@[start + j]);
                }
                if i < line@.len() {
                    assert(s[i - start] == line@[i as int]);
                }
                lemma_token_len_at(s, i - start);
                assert(s.subrange(0, (i - start) as int) =~= line@.subrange(
                    start as int,
                    i as int,
                ));
                if i - start == s.len() {
                    assert(s =~= line@.subrange(start as int, i as int));
                    assert(tail.len() == 0);
                    assert(ws_tokens(s) =~= seq![tok@] + ws_tokens(tail));
                } else {
                    assert(s.subrange((i - start) as int, s.len() as int) =~= tail);
                    assert(ws_tokens(s) =~= seq![tok@] + ws_tokens(tail));
                }
            }
            let ghost old_r = r.deep_view();
            r.push(tok);
            proof {
                assert(tok.deep_view() =~= tok@);
                assert(r.deep_view() =~= old_r.push(tok@));
                assert(old_r.push(tok@) + ws_tokens(tail) =~= old_r + (seq![tok@] + ws_tokens(
                    tail,
                )));
                assert(r.deep_view() + ws_tokens(tail) =~= ws_tokens(line@));
            }
        }
    }
    proof {
        assert(line@.subrange(i as int, line@.len() as int) =~= Seq::<u8>::empty());
        assert(r.deep_view() + Seq::<Seq<u8>>::empty() =~= r.deep_view());
    }
    r
}

/// Length of the leading run of bytes other than `sep`.
pub open spec fn field_len(s: Seq<u8>, sep: u8) -> nat
    decreases s.len(),
{
    if s.len() == 0 || s[0] == sep {
        0
    } else {
        1 + field_len(s.subrange(1, s.len() as int), sep)
    }
}

/// The fields of `s` around separator `sep`, empties kept; splitting an
/// empty sequence gives one empty field.
pub open spec fn sep_fields(s: Seq<u8>, sep: u8) -> Seq<Seq<u8>>
    decreases s.len(),
{
    let k = field_len(s, sep);
    if k >= s.len() {
        seq![s]
    } else {
        seq![s.subrange(0, k as int)] + sep_fields(s.subrange(k as int + 1, s.len() as int), sep)
    }
}

/// A split yields at most one field more than the sequence has bytes.
pub proof fn lemma_sep_fields_len(s: Seq<u8>, sep: u8)
    ensures
        1 <= sep_fields(s, sep).len() <= s.len() + 1,
    decreases s.len(),
{
    let k = field_len(s, sep);
    if k < s.len() {
        lemma_sep_fields_len(s.subrange(k as int + 1, s.len() as int), sep);
    }
}

/// Characterization of `field_len` by a scan position.
pub proof fn lemma_field_len_at(s: Seq<u8>, sep: u8, m: int)
    requires
        0 <= m <= s.len(),
        forall|j: int| 0 <= j < m ==> s[j] != sep,
        m < s.len() ==> s[m] == sep,
    ensures
        field_len(s, sep) == m,
    decreases m,
{
    if m == 0 {
    } else {
        let t = s.subrange(1, s.len() as int);
        lemma_field_len_at(t, sep, m - 1);
    }
}

/// Split `s` into its fields around the separator `sep`.
pub fn split_fields(s: &[u8], sep: u8) -> (r: Vec<Vec<u8>>)
    ensures
        r.deep_view() == sep_fields(s@, sep),
{
    let mut r: Vec<Vec<u8>> = Vec::new();
    let mut i: usize = 0;
    proof {
        assert(s@.subrange(0, s@.len() as int) =~= s@);
        assert(r.deep_view() =~= Seq::<Seq<u8>>::empty());
        assert(Seq::<Seq<u8>>::empty() + sep_fields(s@, sep) =~= sep_fields(s@, sep));
    }
    loop
        invariant_except_break
            i <= s@.len(),
            r.deep_view() + sep_fields(s@.subrange(i as int, s@.len() as int), sep) == sep_fields(
                s@,
                sep,
            ),
        ensures
            r.deep_view() == sep_fields(s@, sep),
        decreases s@.len() - i + 1,
    {
        let start = i;
        while i < s.len() && s[i] != sep
            invariant
                start <= i <= s@.len(),
                forall|j: int| start <= j < i ==> s@[j] != sep,
            decreases s@.len() - i,
        {
            i = i + 1;
        }
        let fld = vstd::slice::slice_to_vec(vstd::slice::slice_subrange(s, start, i));
        let ghost rest = s@.subrange(start as int, s@.len() as int);
        proof {
            assert forall|j: int| 0 <= j < i - start implies rest[j] != sep by {
                assert(rest[j] == s@[start + j]);
            }
            if i < s@.len() {
                assert(rest[i - start] == s@[i as int]);
            }
            lemma_field_len_at(rest, sep, i - start);
            assert(rest.subrange(0, (i - start) as int) =~= s@.subrange(start as int, i as int));
        }
        let ghost old_r = r.deep_view();
        r.push(fld);
        proof {
            assert(fld.deep_view() =~= fld@);
            assert(r.deep_view() =~= old_r.push(fld@));
        }
        if i == s.len() {
            proof {
                assert(rest =~= s@.subrange(start as int, i as int));
                assert(fld@ =~= rest);
                assert(sep_fields(rest, sep) =~= seq![fld@]);
                assert(old_r.push(fld@) =~= old_r + seq![fld@]);
                assert(r.deep_view() =~= sep_fields(s@, sep));
            }
            break ;
        }
        proof {
            let tail = s@.subrange(i as int + 1, s@.len() as int);
            assert(rest.subrange((i - start) as int + 1, rest.len() as int) =~= tail);
            assert(sep_fields(rest, sep) =~= seq![fld@] + sep_fields(tail, sep));
            assert(old_r.push(fld@) + sep_fields(tail, sep) =~= old_r + (seq![fld@] + sep_fields(
                tail,
                sep,
            )));
            assert(r.deep_view() + sep_fields(tail, sep) =~= sep_fields(s@, sep));
        }
        i = i + 1;
    }
    r
}

/// The characters that lossy UTF-8 decoding reads from a byte string; a
/// function of the bytes alone.
pub uninterp spec fn string_of_bytes(b: Seq<u8>) -> Seq<char>;

/// Relies on String::from_utf8_lossy (and Cow::into_owned): the characters
/// decoded from the bytes, invalid sequences replaced; the result depends
/// on the bytes alone, and no bytes decode to no characters.
#[verifier::external_body]
pub(crate) fn lossy_string(b: &[u8]) -> (r: String)
    ensures
        r@ == string_of_bytes(b@),
        b@.len() == 0 ==> r@.len() == 0,
{
    String::from_utf8_lossy(b).into_owned()
}

/// A decimal digit.
pub open spec fn is_digit(b: u8) -> bool {
    48 <= b <= 57
}

/// Every byte a decimal digit.
pub open spec fn all_digits(s: Seq<u8>) -> bool {
    forall|i: int| 0 <= i < s.len() ==> is_digit(s[i])
}

/// The value of a digit string read in base ten.
pub open spec fn digits_val(s: Seq<u8>) -> int
    decreases s.len(),
{
    if s.len() == 0 {
        0
    } else {
        digits_val(s.drop_last()) * 10 + (s.last() - 48)
    }
}

/// A digit string's value is nonnegative.
pub proof fn lemma_digits_val_nonneg(s: Seq<u8>)
    requires
        all_digits(s),
    ensures
        digits_val(s) >= 0,
    decreases s.len(),
{
    if s.len() > 0 {
        assert(all_digits(s.drop_last()));
        lemma_digits_val_nonneg(s.drop_last());
    }
}

/// Appending one digit multiplies the value by ten and adds the digit.
pub proof fn lemma_digits_val_step(s: Seq<u8>, j: int)
    requires
        0 <= j < s.len(),
    ensures
        digits_val(s.subrange(0, j + 1)) == digits_val(s.subrange(0, j)) * 10 + (s[j] - 48),
{
    let p = s.subrange(0, j + 1);
    assert(p.drop_last() =~= s.subrange(0, j));
    assert(p.last() == s[j]);
}

/// A digit string's value is at least the value of any of its prefixes.
pub proof fn lemma_digits_val_ge_prefix(s: Seq<u8>, j: int)
    requires
        all_digits(s),
        0 <= j <= s.len(),
    ensures
        digits_val(s) >= digits_val(s.subrange(0, j)),
    decreases s.len() - j,
{
    if j == s.len() {
        assert(s.subrange(0, j) =~= s);
    } else {
        lemma_digits_val_step(s, j);
        assert(all_digits(s.subrange(0, j)));
        lemma_digits_val_nonneg(s.subrange(0, j));
        lemma_digits_val_ge_prefix(s, j + 1);
    }
}

/// What `parse_i32` returns: the value of an optionally signed digit string
/// when it is in range for `i32`, and nothing otherwise.
pub open spec fn spec_parse_i32(s: Seq<u8>) -> Option<i32> {
    let neg = s.len() >= 1 && s[0] == 45;
    let body = if s.len() >= 1 && (s[0] == 43 || s[0] == 45) {
        s.subrange(1, s.len() as int)
    } else {
        s
    };
    if body.len() == 0 || !all_digits(body) {
        None
    } else {
        let v = if neg {
            -digits_val(body)
        } else {
            digits_val(body)
        };
        if -0x8000_0000 <= v <= 0x7fff_ffff {
            Some(v as i32)
        } else {
            None
        }
    }
}

/// Parse an optionally signed decimal integer, exactly as
/// [`spec_parse_i32`] says.
pub fn parse_i32(t: &[u8]) -> (r: Option<i32>)
    ensures
        r == spec_parse_i32(t@),
{
    let mut j: usize = 0;
    let neg = t.len() >= 1 && t[0] == 45;
    if t.len() >= 1 && (t[0] == 43 || t[0] == 45) {
        j = 1;
    }
    let ghost body = if t@.len() >= 1 && (t@[0] == 43 || t@[0] == 45) {
        t@.subrange(1, t@.len() as int)
    } else {
        t@
    };
    let start = j;
    if j == t.len() {
        return None;
    }
    proof {
        if !(t@.len() >= 1 && (t@[0] == 43 || t@[0] == 45)) {
            assert(t@.subrange(0, t@.len() as int) =~= t@);
        }
    }
    let mut acc: u64 = 0;
    while j < t.len()
        invariant
            start <= j <= t@.len(),
            start == if t@.len() >= 1 && (t@[0] == 43 || t@[0] == 45) { 1int } else { 0int },
            neg == (t@.len() >= 1 && t@[0] == 45),
            body == t@.subrange(start as int, t@.len() as int),
            acc == digits_val(body.subrange(0, j - start)),
            acc <= 0x8000_0000,
            all_digits(body.subrange(0, j - start)),
        decreases t@.len() - j,
    {
        let b = t[j];
        if !(48 <= b && b <= 57) {
            proof {
                assert(body[j - start] == t@[j as int]);
                if !(t@.len() >= 1 && (t@[0] == 43 || t@[0] == 45)) {
                    assert(t@.subrange(0, t@.len() as int) =~= t@);
                }
                assert(!all_digits(body));
            }
            return None;
        }
        let d: u64 = (b - 48) as u64;
        let next: u64 = acc * 10 + d;
        proof {
            lemma_digits_val_step(body, j - start);
            assert(body.subrange(0, j - start + 1).last() == t@[j as int]);
        }
        if next > 0x8000_0000 {
            proof {
                if !(t@.len() >= 1 && (t@[0] == 43 || t@[0] == 45)) {
                    assert(t@.subrange(0, t@.len() as int) =~= t@);
                }
                if all_digits(body) {
                    lemma_digits_val_ge_prefix(body, j - start + 1);
                }
            }
            return None;
        }
        acc = next;
        j = j + 1;
    }
    proof {
        assert(body.subrange(0, (j - start) as int) =~= body);
    }
    if neg {
        if acc == 0x8000_0000 {
            Some(i32::MIN)
        } else {
            Some(0i32 - (acc as i32))
        }
    } else {
        if acc == 0x8000_0000 {
            None
        } else {
            Some(acc as i32)
        }
    }
}

} // verus!

