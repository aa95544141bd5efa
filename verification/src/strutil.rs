//! Character-level string utilities.
//!
//! All text manipulation in this crate happens on `Vec<char>` values in
//! verified code; the only trusted pieces are the bridges between `str` /
//! `String` and their character sequences, and the per-character case
//! mappings, whose full Unicode tables are named rather than restated.

use vstd::prelude::*;

verus! {

/// The character sequence that `char::to_lowercase` yields for `c`.
pub uninterp spec fn lower_chars(c: char) -> Seq<char>;

/// The character sequence that `char::to_uppercase` yields for `c`.
pub uninterp spec fn upper_chars(c: char) -> Seq<char>;

/// What `char::is_uppercase` returns for `c`.
pub uninterp spec fn char_is_upper(c: char) -> bool;

/// What `char::is_lowercase` returns for `c`.
pub uninterp spec fn char_is_lower(c: char) -> bool;

/// Relies on `str::chars`: the characters of a string slice, in order,
/// are exactly the slice's view.
#[verifier::external_body]
pub fn str_chars(s: &str) -> (r: Vec<char>)
    ensures
        r@ == s@,
{
    s.chars().collect()
}

/// Relies on `String: FromIterator<char>`: collecting characters yields the
/// string whose characters are exactly those collected, in order.
#[verifier::external_body]
pub fn chars_string(v: &Vec<char>) -> (r: String)
    ensures
        r@ == v@,
{
    v.iter().collect()
}

/// Relies on `char::to_lowercase`: the lowercase mapping of a character,
/// one or more characters, a function of the character alone.
#[verifier::external_body]
pub fn lower_char(c: char) -> (r: Vec<char>)
    ensures
        r@ == lower_chars(c),
        r@.len() >= 1,
{
    c.to_lowercase().collect()
}

/// Relies on `char::to_uppercase`: the uppercase mapping of a character,
/// one or more characters, a function of the character alone.
#[verifier::external_body]
pub fn upper_char(c: char) -> (r: Vec<char>)
    ensures
        r@ == upper_chars(c),
        r@.len() >= 1,
{
    c.to_uppercase().collect()
}

/// Relies on `char::is_uppercase`, a pure predicate on the character.
#[verifier::external_body]
pub fn is_upper(c: char) -> (r: bool)
    ensures
        r == char_is_upper(c),
{
    c.is_uppercase()
}

/// Relies on `char::is_lowercase`, a pure predicate on the character.
#[verifier::external_body]
pub fn is_lower(c: char) -> (r: bool)
    ensures
        r == char_is_lower(c),
{
    c.is_lowercase()
}

/// The lowercase mapping of a whole character sequence.
pub open spec fn lower_seq(s: Seq<char>) -> Seq<char>
    decreases s.len(),
{
    if s.len() == 0 {
        Seq::empty()
    } else {
        lower_chars(s[0]) + lower_seq(s.skip(1))
    }
}

/// The uppercase mapping of a whole character sequence.
pub open spec fn upper_seq(s: Seq<char>) -> Seq<char>
    decreases s.len(),
{
    if s.len() == 0 {
        Seq::empty()
    } else {
        upper_chars(s[0]) + upper_seq(s.skip(1))
    }
}

/// The views of a sequence of character vectors.
pub open spec fn seq_views(parts: Seq<Vec<char>>) -> Seq<Seq<char>> {
    parts.map_values(|p: Vec<char>| p@)
}

/// The concatenation of `parts` with `sep` between consecutive parts.
pub open spec fn join_seq(parts: Seq<Seq<char>>, sep: Seq<char>) -> Seq<char>
    decreases parts.len(),
{
    if parts.len() == 0 {
        Seq::empty()
    } else if parts.len() == 1 {
        parts[0]
    } else {
        parts[0] + sep + join_seq(parts.skip(1), sep)
    }
}

pub proof fn lemma_lower_seq_concat(a: Seq<char>, b: Seq<char>)
    ensures
        lower_seq(a + b) == lower_seq(a) + lower_seq(b),
    decreases a.len(),
{
    if a.len() == 0 {
        assert(a + b =~= b);
        assert(lower_seq(a) + lower_seq(b) =~= lower_seq(b));
    } else {
        assert((a + b).skip(1) =~= a.skip(1) + b);
        lemma_lower_seq_concat(a.skip(1), b);
        assert(lower_chars((a + b)[0]) + (lower_seq(a.skip(1)) + lower_seq(b)) =~= (lower_chars(
            a[0],
        ) + lower_seq(a.skip(1))) + lower_seq(b));
    }
}

pub proof fn lemma_upper_seq_concat(a: Seq<char>, b: Seq<char>)
    ensures
        upper_seq(a + b) == upper_seq(a) + upper_seq(b),
    decreases a.len(),
{
    if a.len() == 0 {
        assert(a + b =~= b);
        assert(upper_seq(a) + upper_seq(b) =~= upper_seq(b));
    } else {
        assert((a + b).skip(1) =~= a.skip(1) + b);
        lemma_upper_seq_concat(a.skip(1), b);
        assert(upper_chars((a + b)[0]) + (upper_seq(a.skip(1)) + upper_seq(b)) =~= (upper_chars(
            a[0],
        ) + upper_seq(a.skip(1))) + upper_seq(b));
    }
}

pub proof fn lemma_join_seq_push(parts: Seq<Seq<char>>, sep: Seq<char>, p: Seq<char>)
    ensures
        join_seq(parts.push(p), sep) == if parts.len() == 0 {
            p
        } else {
            join_seq(parts, sep) + sep + p
        },
    decreases parts.len(),
{
    if parts.len() == 0 {
        assert(parts.push(p)[0] =~= p);
    } else {
        assert(parts.push(p).skip(1) =~= parts.skip(1).push(p));
        lemma_join_seq_push(parts.skip(1), sep, p);
        if parts.len() == 1 {
            assert(join_seq(parts.push(p), sep) =~= parts[0] + sep + p);
            assert(join_seq(parts, sep) + sep + p =~= parts[0] + sep + p);
        } else {
            assert(join_seq(parts.push(p), sep) =~= parts[0] + sep + (join_seq(parts.skip(1), sep)
                + sep + p));
            assert(parts[0] + sep + (join_seq(parts.skip(1), sep) + sep + p) =~= (parts[0] + sep
                + join_seq(parts.skip(1), sep)) + sep + p);
        }
    }
}

/// Lowercases every character of `v`.
pub fn lower_vec(v: &Vec<char>) -> (r: Vec<char>)
    ensures
        r@ == lower_seq(v@),
{
    let mut r: Vec<char> = Vec::new();
    let mut i: usize = 0;
    while i < v.len()
        invariant
            i <= v.len(),
            r@ == lower_seq(v@.take(i as int)),
        decreases v.len() - i,
    {
        let mut w = lower_char(v[i]);
        proof {
            assert(v@.take(i + 1) =~= v@.take(i as int) + seq![v@[i as int]]);
            lemma_lower_seq_concat(v@.take(i as int), seq![v@[i as int]]);
            assert(seq![v@[i as int]].skip(1) =~= Seq::<char>::empty());
            assert(lower_seq(Seq::<char>::empty()) =~= Seq::<char>::empty());
            assert(lower_seq(seq![v@[i as int]]) =~= lower_chars(v@[i as int]));
        }
        r.append(&mut w);
        i += 1;
    }
    proof {
        assert(v@.take(v@.len() as int) =~= v@);
    }
    r
}

/// Uppercases every character of `v`.
pub fn upper_vec(v: &Vec<char>) -> (r: Vec<char>)
    ensures
        r@ == upper_seq(v@),
{
    let mut r: Vec<char> = Vec::new();
    let mut i: usize = 0;
    while i < v.len()
        invariant
            i <= v.len(),
            r@ == upper_seq(v@.take(i as int)),
        decreases v.len() - i,
    {
        let mut w = upper_char(v[i]);
        proof {
            assert(v@.take(i + 1) =~= v@.take(i as int) + seq![v@[i as int]]);
            lemma_upper_seq_concat(v@.take(i as int), seq![v@[i as int]]);
            assert(seq![v@[i as int]].skip(1) =~= Seq::<char>::empty());
            assert(upper_seq(Seq::<char>::empty()) =~= Seq::<char>::empty());
            assert(upper_seq(seq![v@[i as int]]) =~= upper_chars(v@[i as int]));
        }
        r.append(&mut w);
        i += 1;
    }
    proof {
        assert(v@.take(v@.len() as int) =~= v@);
    }
    r
}

/// Joins `parts` with `sep` between consecutive parts.
pub fn join_chars(parts: &Vec<Vec<char>>, sep: &Vec<char>) -> (r: Vec<char>)
    ensures
        r@ == join_seq(seq_views(parts@), sep@),
{
    let mut r: Vec<char> = Vec::new();
    let mut i: usize = 0;
    while i < parts.len()
        invariant
            i <= parts.len(),
            r@ == join_seq(seq_views(parts@.take(i as int)), sep@),
        decreases parts.len() - i,
    {
        if i > 0 {
            let mut s = sep.clone();
            r.append(&mut s);
        }
        let mut p = parts[i].clone();
        r.append(&mut p);
        proof {
            assert(seq_views(parts@.take(i + 1)) =~= seq_views(parts@.take(i as int)).push(
                parts@[i as int]@,
            ));
            lemma_join_seq_push(seq_views(parts@.take(i as int)), sep@, parts@[i as int]@);
        }
        i += 1;
    }
    proof {
        assert(parts@.take(parts@.len() as int) =~= parts@);
    }
    r
}

/// The views of a sequence of string slices.
pub open spec fn strs_views(rs: Seq<&str>) -> Seq<Seq<char>> {
    rs.map_values(|t: &str| t@)
}

/// What one character becomes under sanitization: path separators become
/// underscores and plus signs are spelled out.
pub open spec fn sanitize_one(c: char) -> Seq<char> {
    if c == '/' {
        seq!['_']
    } else if c == '+' {
        seq!['_', 'p', 'l', 'u', 's']
    } else {
        seq![c]
    }
}

/// A whole character sequence sanitized.
pub open spec fn sanitize_spec(s: Seq<char>) -> Seq<char>
    decreases s.len(),
{
    if s.len() == 0 {
        Seq::empty()
    } else {
        sanitize_one(s[0]) + sanitize_spec(s.skip(1))
    }
}

pub proof fn lemma_sanitize_concat(a: Seq<char>, b: Seq<char>)
    ensures
        sanitize_spec(a + b) == sanitize_spec(a) + sanitize_spec(b),
    decreases a.len(),
{
    if a.len() == 0 {
        assert(a + b =~= b);
        assert(sanitize_spec(a) + sanitize_spec(b) =~= sanitize_spec(b));
    } else {
        assert((a + b).skip(1) =~= a.skip(1) + b);
        lemma_sanitize_concat(a.skip(1), b);
        assert(sanitize_one((a + b)[0]) + (sanitize_spec(a.skip(1)) + sanitize_spec(b)) =~= (
        sanitize_one(a[0]) + sanitize_spec(a.skip(1))) + sanitize_spec(b));
    }
}

/// Sanitizes a character vector.
pub fn sanitize_chars(v: &Vec<char>) -> (r: Vec<char>)
    ensures
        r@ == sanitize_spec(v@),
{
    let mut r: Vec<char> = Vec::new();
    let mut i: usize = 0;
    while i < v.len()
        invariant
            i <= v.len(),
            r@ == sanitize_spec(v@.take(i as int)),
        decreases v.len() - i,
    {
        let c = v[i];
        if c == '/' {
            r.push('_');
        } else if c == '+' {
            r.push('_');
            r.push('p');
            r.push('l');
            r.push('u');
            r.push('s');
        } else {
            r.push(c);
        }
        proof {
            assert(v@.take(i + 1) =~= v@.take(i as int) + seq![v@[i as int]]);
            lemma_sanitize_concat(v@.take(i as int), seq![v@[i as int]]);
            assert(seq![v@[i as int]].skip(1) =~= Seq::<char>::empty());
            assert(sanitize_spec(Seq::<char>::empty()) =~= Seq::<char>::empty());
            assert(sanitize_spec(seq![v@[i as int]]) =~= sanitize_one(v@[i as int]));
            assert(r@ =~= sanitize_spec(v@.take(i as int)) + sanitize_one(v@[i as int]));
        }
        i += 1;
    }
    proof {
        assert(v@.take(v@.len() as int) =~= v@);
    }
    r
}

/// The tokens that remain to be produced from position `i` on, given the
/// token accumulated so far and whether the previous character was
/// lowercase. A new token starts wherever an uppercase character follows a
/// lowercase one; an empty final accumulator yields no token.
pub open spec fn tokenize_spec(s: Seq<char>, i: int, cur: Seq<char>, last_lower: bool) -> Seq<
    Seq<char>,
>
    decreases s.len() - i,
{
    if i < 0 || i >= s.len() {
        if cur.len() == 0 {
            Seq::empty()
        } else {
            seq![cur]
        }
    } else if last_lower && char_is_upper(s[i]) {
        seq![cur] + tokenize_spec(s, i + 1, seq![s[i]], char_is_lower(s[i]))
    } else {
        tokenize_spec(s, i + 1, cur.push(s[i]), char_is_lower(s[i]))
    }
}

/// The word tokens of a raw name: sanitize, then split before uppercase
/// characters that follow lowercase ones.
pub open spec fn name_tokens_spec(s: Seq<char>) -> Seq<Seq<char>> {
    tokenize_spec(sanitize_spec(s), 0, Seq::empty(), false)
}

/// Splits a sanitized character vector into word tokens.
pub fn tokenize_chars(v: &Vec<char>) -> (r: Vec<Vec<char>>)
    ensures
        seq_views(r@) == tokenize_spec(v@, 0, Seq::empty(), false),
{
    let mut tokens: Vec<Vec<char>> = Vec::new();
    let mut cur: Vec<char> = Vec::new();
    let mut last_lower: bool = false;
    let mut i: usize = 0;
    while i < v.len()
        invariant
            i <= v.len(),
            tokenize_spec(v@, 0, Seq::empty(), false) == seq_views(tokens@) + tokenize_spec(
                v@,
                i as int,
                cur@,
                last_lower,
            ),
        decreases v.len() - i,
    {
        let c = v[i];
        let c_upper = is_upper(c);
        let c_lower = is_lower(c);
        if last_lower && c_upper {
            let done = cur;
            cur = Vec::new();
            cur.push(c);
            tokens.push(done);
            proof {
                assert(seq_views(tokens@) =~= seq_views(tokens@.drop_last()) + seq![
                    tokens@.last()@,
                ]);
                assert(seq_views(tokens@.drop_last()) + (seq![tokens@.last()@] + tokenize_spec(
                    v@,
                    i + 1,
                    cur@,
                    c_lower,
                )) =~= seq_views(tokens@) + tokenize_spec(v@, i + 1, cur@, c_lower));
            }
        } else {
            cur.push(c);
        }
        last_lower = c_lower;
        i += 1;
    }
    if cur.len() > 0 {
        tokens.push(cur);
        proof {
            assert(seq_views(tokens@) =~= seq_views(tokens@.drop_last()) + seq![tokens@.last()@]);
        }
    } else {
        proof {
            assert(seq_views(tokens@) + Seq::<Seq<char>>::empty() =~= seq_views(tokens@));
        }
    }
    tokens
}

/// The rendered string with an underscore appended when it is reserved.
pub open spec fn check_reserved_seq(s: Seq<char>, reserved: Seq<Seq<char>>) -> Seq<char> {
    if reserved.contains(s) {
        s.push('_')
    } else {
        s
    }
}

/// Whether two character vectors hold the same characters.
pub fn char_vecs_eq(a: &Vec<char>, b: &Vec<char>) -> (r: bool)
    ensures
        r == (a@ == b@),
{
    if a.len() != b.len() {
        return false;
    }
    let mut i: usize = 0;
    while i < a.len()
        invariant
            i <= a.len(),
            a@.len() == b@.len(),
            forall|j: int| 0 <= j < i ==> a@[j] == b@[j],
        decreases a.len() - i,
    {
        if a[i] != b[i] {
            return false;
        }
        i += 1;
    }
    proof {
        assert(a@ =~= b@);
    }
    true
}

} // verus!
