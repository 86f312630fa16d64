//! Splitting of license expressions into atomic identifiers.
use vstd::prelude::*;
use vstd::string::*;

verus! {

/// The characters that group sub-expressions and are dropped before splitting.
pub open spec fn is_paren(c: char) -> bool {
    c == '(' || c == ')'
}

/// The expression with every parenthesis removed.
pub open spec fn without_parens(s: Seq<char>) -> Seq<char> {
    s.filter(|c: char| !is_paren(c))
}

/// Unicode `White_Space` characters.
pub open spec fn is_space(c: char) -> bool {
    let u = c as u32;
    (0x9 <= u && u <= 0xd) || u == 0x20 || u == 0x85 || u == 0xa0 || u == 0x1680 || (0x2000
        <= u && u <= 0x200a) || u == 0x2028 || u == 0x2029 || u == 0x202f || u == 0x205f || u
        == 0x3000
}

/// A token that is empty or made of white space only.
pub open spec fn is_blank(t: Seq<char>) -> bool {
    forall|i: int| 0 <= i < t.len() ==> is_space(#[trigger] t[i])
}

/// The regular expression that matches a boolean operator with its spaces.
pub open spec fn operator_pattern() -> Seq<char> {
    seq![' ', 'O', 'R', ' ', '|', ' ', 'A', 'N', 'D', ' ']
}

pub open spec fn or_operator() -> Seq<char> {
    seq![' ', 'O', 'R', ' ']
}

pub open spec fn and_operator() -> Seq<char> {
    seq![' ', 'A', 'N', 'D', ' ']
}

/// Whether `op` occurs in `s` at position `i`.
pub open spec fn occurs_at(s: Seq<char>, i: int, op: Seq<char>) -> bool {
    0 <= i && i + op.len() <= s.len() && s.subrange(i, i + op.len()) == op
}

/// Length of the operator that starts at `i`, or 0 where none does.
/// The two operators differ in their second character, so at most one matches.
pub open spec fn operator_len_at(s: Seq<char>, i: int) -> int {
    if occurs_at(s, i, or_operator()) {
        4
    } else if occurs_at(s, i, and_operator()) {
        5
    } else {
        0
    }
}

/// Pieces of `s` from `start` on, scanning for operators from `i` on: each
/// operator found ends the current piece, and scanning resumes after it.
pub open spec fn pieces_from(s: Seq<char>, start: int, i: int) -> Seq<Seq<char>>
    decreases s.len() - i,
{
    if i >= s.len() {
        seq![s.subrange(start, s.len() as int)]
    } else if operator_len_at(s, i) > 0 {
        let k = operator_len_at(s, i);
        seq![s.subrange(start, i)] + pieces_from(s, i + k, i + k)
    } else {
        pieces_from(s, start, i + 1)
    }
}

/// `s` cut at each leftmost operator, with empty pieces kept.
pub open spec fn operator_split(s: Seq<char>) -> Seq<Seq<char>> {
    pieces_from(s, 0, 0)
}

/// The atomic identifiers of a license expression, in order.
pub open spec fn license_identifiers(expr: Seq<char>) -> Seq<Seq<char>> {
    operator_split(without_parens(expr)).filter(|t: Seq<char>| !is_blank(t))
}

/// The pieces joined, with `sep` between each two.
pub open spec fn join_with(p: Seq<Seq<char>>, sep: Seq<char>) -> Seq<char>
    decreases p.len(),
{
    if p.len() == 0 {
        seq![]
    } else if p.len() == 1 {
        p[0]
    } else {
        p[0] + sep + join_with(p.drop_first(), sep)
    }
}

pub open spec fn texts(v: Seq<String>) -> Seq<Seq<char>> {
    v.map_values(|t: String| t@)
}

/// Joining one more piece appends the separator and the piece.
pub proof fn lemma_join_push(p: Seq<Seq<char>>, x: Seq<char>, sep: Seq<char>)
    requires
        p.len() >= 1,
    ensures
        join_with(p.push(x), sep) == join_with(p, sep) + sep + x,
    decreases p.len(),
{
    assert(p.push(x)[0] == p[0]);
    if p.len() == 1 {
        assert(p.push(x).drop_first() =~= seq![x]);
        assert(join_with(seq![x], sep) == x);
    } else {
        assert(p.push(x).drop_first() =~= p.drop_first().push(x));
        lemma_join_push(p.drop_first(), x, sep);
        assert(p[0] + sep + (join_with(p.drop_first(), sep) + sep + x) =~= (p[0] + sep
            + join_with(p.drop_first(), sep)) + sep + x);
    }
}

proof fn lemma_pieces_nonempty(s: Seq<char>, start: int, i: int)
    ensures
        pieces_from(s, start, i).len() >= 1,
    decreases s.len() - i,
{
    if i < s.len() {
        let k = operator_len_at(s, i);
        if k > 0 {
            lemma_pieces_nonempty(s, i + k, i + k);
        } else {
            lemma_pieces_nonempty(s, start, i + 1);
        }
    }
}

proof fn lemma_join_pieces(s: Seq<char>, start: int, i: int)
    requires
        0 <= start <= i <= s.len(),
        forall|j: int| i <= j ==> !occurs_at(s, j, and_operator()),
    ensures
        join_with(pieces_from(s, start, i), or_operator()) == s.subrange(start, s.len() as int),
    decreases s.len() - i,
{
    if i < s.len() {
        let k = operator_len_at(s, i);
        if k > 0 {
            assert(!occurs_at(s, i, and_operator()));
            let rest = pieces_from(s, i + 4, i + 4);
            lemma_pieces_nonempty(s, i + 4, i + 4);
            lemma_join_pieces(s, i + 4, i + 4);
            let p = seq![s.subrange(start, i)] + rest;
            assert(p.drop_first() =~= rest);
            assert(s.subrange(start, i) + s.subrange(i, i + 4) + s.subrange(i + 4, s.len() as int)
                =~= s.subrange(start, s.len() as int));
        } else {
            lemma_join_pieces(s, start, i + 1);
        }
    }
}

proof fn lemma_filter_keeps_all(p: Seq<Seq<char>>)
    requires
        forall|k: int| 0 <= k < p.len() ==> !is_blank(#[trigger] p[k]),
    ensures
        p.filter(|t: Seq<char>| !is_blank(t)) == p,
    decreases p.len(),
{
    reveal(Seq::filter);
    if p.len() > 0 {
        let q = p.drop_last();
        assert forall|k: int| 0 <= k < q.len() implies !is_blank(#[trigger] q[k]) by {
            assert(q[k] == p[k]);
        }
        lemma_filter_keeps_all(q);
        assert(q.push(p.last()) =~= p);
    }
}

/// Splitting is lossless on an expression without `" AND "`: joining its
/// identifiers with `" OR "` gives back the expression without parentheses,
/// provided no token between two operators is blank (a blank one is dropped).
pub proof fn lemma_rejoin_identifiers(expr: Seq<char>)
    requires
        forall|j: int| !occurs_at(without_parens(expr), j, and_operator()),
        forall|k: int|
            0 <= k < operator_split(without_parens(expr)).len() ==> !is_blank(
                #[trigger] operator_split(without_parens(expr))[k],
            ),
    ensures
        join_with(license_identifiers(expr), or_operator()) == without_parens(expr),
{
    let s = without_parens(expr);
    lemma_join_pieces(s, 0, 0);
    lemma_filter_keeps_all(operator_split(s));
    assert(s.subrange(0, s.len() as int) =~= s);
}

/// Relies on regex::Regex::new, to compile `pattern`, and on
/// regex::Regex::split, which yields the text between successive leftmost
/// matches, with the text before the first and after the last one.
#[verifier::external_body]
fn regex_split(pattern: &str, text: &str) -> (r: Vec<String>)
    requires
        pattern@ == operator_pattern(),
    ensures
        texts(r@) == operator_split(text@),
{
    match regex::Regex::new(pattern) {
        Ok(re) => re.split(text).map(|piece| piece.to_string()).collect(),
        Err(_) => Vec::new(),
    }
}

/// Whether `c` is a Unicode white-space character.
pub fn is_space_char(c: char) -> (r: bool)
    ensures
        r == is_space(c),
{
    let u = c as u32;
    (0x9 <= u && u <= 0xd) || u == 0x20 || u == 0x85 || u == 0xa0 || u == 0x1680 || (0x2000
        <= u && u <= 0x200a) || u == 0x2028 || u == 0x2029 || u == 0x202f || u == 0x205f || u
        == 0x3000
}

/// Whether `t` holds nothing but white space.
pub fn is_blank_text(t: &str) -> (r: bool)
    ensures
        r == is_blank(t@),
{
    let n = t.unicode_len();
    let mut i: usize = 0;
    while i < n
        invariant
            n == t@.len(),
            0 <= i <= n,
            forall|j: int| 0 <= j < i ==> is_space(#[trigger] t@[j]),
        decreases n - i,
    {
        if !is_space_char(t.get_char(i)) {
            return false;
        }
        i += 1;
    }
    true
}

/// Removes every `(` and `)` from `expr`.
pub fn strip_parens(expr: &str) -> (r: String)
    ensures
        r@ == without_parens(expr@),
{
    let n = expr.unicode_len();
    let mut out = String::new();
    let mut i: usize = 0;
    while i < n
        invariant
            n == expr@.len(),
            0 <= i <= n,
            out@ == without_parens(expr@.subrange(0, i as int)),
        decreases n - i,
    {
        let c = expr.get_char(i);
        if c != '(' && c != ')' {
            out.append(expr.substring_char(i, i + 1));
        }
        proof {
            reveal(Seq::filter);
            assert(expr@.subrange(0, i + 1).drop_last() =~= expr@.subrange(0, i as int));
            assert(expr@.subrange(i as int, i + 1) =~= seq![c]);
        }
        i += 1;
    }
    proof {
        assert(expr@.subrange(0, n as int) =~= expr@);
    }
    out
}

/// Splits a license expression into its atomic identifiers: parentheses are
/// removed, the rest is cut at each `" OR "` and `" AND "`, and blank tokens
/// are dropped. Precedence is not modelled; only the identifiers matter.
pub fn split_license_expression(expr: &str) -> (r: Vec<String>)
    ensures
        texts(r@) == license_identifiers(expr@),
{
    let stripped = strip_parens(expr);
    let pattern = " OR | AND ";
    proof {
        reveal_strlit(" OR | AND ");
        assert(pattern@ =~= operator_pattern());
    }
    let pieces = regex_split(pattern, stripped.as_str());
    let ghost all = texts(pieces@);
    let mut out: Vec<String> = Vec::new();
    let mut i: usize = 0;
    while i < pieces.len()
        invariant
            0 <= i <= pieces.len(),
            all == texts(pieces@),
            all == operator_split(without_parens(expr@)),
            texts(out@) == all.subrange(0, i as int).filter(|t: Seq<char>| !is_blank(t)),
        decreases pieces.len() - i,
    {
        let piece = &pieces[i];
        let blank = is_blank_text(piece.as_str());
        proof {
            reveal(Seq::filter);
            assert(all.subrange(0, i + 1).drop_last() =~= all.subrange(0, i as int));
            assert(all[i as int] == piece@);
        }
        if !blank {
            let ghost before = out@;
            out.push(piece.clone());
            proof {
                assert(texts(out@) =~= texts(before).push(piece@));
            }
        }
        i += 1;
    }
    proof {
        assert(all.subrange(0, pieces.len() as int) =~= all);
    }
    out
}

} // verus!
