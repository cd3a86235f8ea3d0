//! Text primitives of the query engine: "contains" matching for
//! substring filters — exact, and ignoring ASCII case as the backing
//! store's default collation does — and a lexicographic three-way
//! comparison for sort keys, each with its exec counterpart on `&str`.

use vstd::prelude::*;

verus! {

/// A three-way comparison outcome.
#[derive(Clone, Copy, Debug, PartialEq, Eq, Structural)]
pub enum Rel {
    Less,
    Equal,
    Greater,
}

/// The opposite outcome: what the comparison of the swapped operands yields.
pub open spec fn flip(r: Rel) -> Rel {
    match r {
        Rel::Less => Rel::Greater,
        Rel::Equal => Rel::Equal,
        Rel::Greater => Rel::Less,
    }
}

/// The character is an ASCII letter or digit.
pub open spec fn ascii_alphanumeric(c: char) -> bool {
    (48 <= c as u32 <= 57) || (65 <= c as u32 <= 90) || (97 <= c as u32 <= 122)
}

/// The character with ASCII capitals folded to lowercase.
pub open spec fn fold_char(c: char) -> char {
    if 65 <= c as u32 <= 90 {
        (((c as u8) + 32) as char)
    } else {
        c
    }
}

/// The text with ASCII capitals folded to lowercase.
pub open spec fn fold_chars(s: Seq<char>) -> Seq<char> {
    s.map_values(|c: char| fold_char(c))
}

/// The character with ASCII capitals folded to lowercase.
pub fn fold_char_exec(c: char) -> (r: char)
    ensures
        r == fold_char(c),
{
    let v = c as u32;
    if 65 <= v && v <= 90 {
        ((c as u8) + 32) as char
    } else {
        c
    }
}

/// `needle` occurs in `hay` starting at position `i`.
pub open spec fn contains_at(hay: Seq<char>, needle: Seq<char>, i: int) -> bool {
    0 <= i && i + needle.len() <= hay.len() && hay.subrange(i, i + needle.len()) == needle
}

/// `needle` occurs somewhere in `hay`, character for character
/// (wildcard both sides).
pub open spec fn text_contains(hay: Seq<char>, needle: Seq<char>) -> bool {
    exists|i: int| contains_at(hay, needle, i)
}

/// `needle` occurs in `hay` ignoring ASCII case: the matching the backing
/// store's default collation gives substring filters.
pub open spec fn text_contains_fold(hay: Seq<char>, needle: Seq<char>) -> bool {
    text_contains(fold_chars(hay), fold_chars(needle))
}

/// Lexicographic three-way comparison of character sequences, by code point;
/// a proper prefix is less than the longer sequence.
pub open spec fn chars_rel(a: Seq<char>, b: Seq<char>) -> Rel
    decreases a.len(),
{
    if a.len() == 0 && b.len() == 0 {
        Rel::Equal
    } else if a.len() == 0 {
        Rel::Less
    } else if b.len() == 0 {
        Rel::Greater
    } else if a[0] < b[0] {
        Rel::Less
    } else if b[0] < a[0] {
        Rel::Greater
    } else {
        chars_rel(a.drop_first(), b.drop_first())
    }
}

/// Equal sequences, and only they, compare as equal.
pub proof fn lemma_chars_rel_eq(a: Seq<char>, b: Seq<char>)
    ensures
        chars_rel(a, b) == Rel::Equal <==> a == b,
    decreases a.len(),
{
    if a.len() == 0 && b.len() == 0 {
        assert(a =~= b);
    } else if a.len() == 0 || b.len() == 0 {
    } else if a[0] == b[0] {
        lemma_chars_rel_eq(a.drop_first(), b.drop_first());
        if chars_rel(a, b) == Rel::Equal {
            assert(a =~= seq![a[0]] + a.drop_first());
            assert(b =~= seq![b[0]] + b.drop_first());
        }
        if a == b {
            assert(a.drop_first() =~= b.drop_first());
        }
    } else {
        if a == b {
            assert(a[0] == b[0]);
        }
    }
}

/// Swapping the operands flips the outcome.
pub proof fn lemma_chars_rel_flip(a: Seq<char>, b: Seq<char>)
    ensures
        chars_rel(a, b) == flip(chars_rel(b, a)),
    decreases a.len(),
{
    if a.len() != 0 && b.len() != 0 && a[0] == b[0] {
        lemma_chars_rel_flip(a.drop_first(), b.drop_first());
    }
}

/// Strictly-less outcomes chain through a not-greater middle operand.
pub proof fn lemma_chars_rel_trans(a: Seq<char>, b: Seq<char>, c: Seq<char>)
    requires
        chars_rel(a, b) == Rel::Less,
        chars_rel(b, c) != Rel::Greater,
    ensures
        chars_rel(a, c) == Rel::Less,
    decreases a.len(),
{
    lemma_chars_rel_eq(b, c);
    if chars_rel(b, c) == Rel::Equal {
    } else {
        if a.len() == 0 {
            assert(b.len() > 0);
            assert(c.len() > 0);
        } else {
            assert(b.len() > 0);
            assert(c.len() > 0);
            if a[0] == b[0] && b[0] == c[0] {
                lemma_chars_rel_trans(a.drop_first(), b.drop_first(), c.drop_first());
            }
        }
    }
}

/// Combines two comparison outcomes lexicographically: the second breaks
/// the tie the first leaves.
pub open spec fn chain(first: Rel, then: Rel) -> Rel {
    if first == Rel::Equal {
        then
    } else {
        first
    }
}

/// The three facts that make a key comparison compose lexicographically:
/// over any three operands with pairwise outcomes `p` (first, second),
/// `q` (second, third) and `r` (first, third), strict outcomes chain and
/// an equal outcome substitutes one operand for the other.
pub open spec fn rel_coherent(p: Rel, q: Rel, r: Rel) -> bool {
    &&& (p == Rel::Less && q == Rel::Less ==> r == Rel::Less)
    &&& (p == Rel::Equal ==> r == q)
    &&& (q == Rel::Equal ==> r == p)
}

/// Chaining two coherent key comparisons is coherent.
pub proof fn lemma_chain_coherent(p1: Rel, q1: Rel, r1: Rel, p2: Rel, q2: Rel, r2: Rel)
    requires
        rel_coherent(p1, q1, r1),
        rel_coherent(p2, q2, r2),
    ensures
        rel_coherent(chain(p1, p2), chain(q1, q2), chain(r1, r2)),
{
}

/// Chaining flips when both links flip.
pub proof fn lemma_chain_flip(x1: Rel, x2: Rel, y1: Rel, y2: Rel)
    requires
        x1 == flip(y1),
        x2 == flip(y2),
    ensures
        chain(x1, x2) == flip(chain(y1, y2)),
{
}

/// Three-way comparison of unsigned keys.
pub open spec fn u32_rel(a: u32, b: u32) -> Rel {
    if a < b {
        Rel::Less
    } else if b < a {
        Rel::Greater
    } else {
        Rel::Equal
    }
}

/// The view of an optional string: its characters when present.
pub open spec fn opt_view(o: Option<String>) -> Option<Seq<char>> {
    match o {
        Option::None => Option::None,
        Option::Some(s) => Option::Some(s@),
    }
}

/// Lexicographic comparison of optional texts; an absent value sorts
/// before every present one, as the backing store orders absent fields.
pub open spec fn opt_chars_rel(a: Option<Seq<char>>, b: Option<Seq<char>>) -> Rel {
    match (a, b) {
        (Option::None, Option::None) => Rel::Equal,
        (Option::None, Option::Some(_)) => Rel::Less,
        (Option::Some(_), Option::None) => Rel::Greater,
        (Option::Some(x), Option::Some(y)) => chars_rel(x, y),
    }
}

/// The character comparison is coherent and flips with its operands.
pub proof fn lemma_chars_rel_props(a: Seq<char>, b: Seq<char>, c: Seq<char>)
    ensures
        chars_rel(a, b) == flip(chars_rel(b, a)),
        chars_rel(b, c) == flip(chars_rel(c, b)),
        chars_rel(a, c) == flip(chars_rel(c, a)),
        rel_coherent(chars_rel(a, b), chars_rel(b, c), chars_rel(a, c)),
        rel_coherent(chars_rel(c, b), chars_rel(b, a), chars_rel(c, a)),
{
    lemma_chars_rel_flip(a, b);
    lemma_chars_rel_flip(b, c);
    lemma_chars_rel_flip(a, c);
    lemma_chars_rel_eq(a, b);
    lemma_chars_rel_eq(b, c);
    lemma_chars_rel_eq(a, c);
    lemma_chars_rel_eq(b, a);
    lemma_chars_rel_eq(c, b);
    lemma_chars_rel_eq(c, a);
    if chars_rel(a, b) == Rel::Less && chars_rel(b, c) == Rel::Less {
        lemma_chars_rel_trans(a, b, c);
    }
    if chars_rel(c, b) == Rel::Less && chars_rel(b, a) == Rel::Less {
        lemma_chars_rel_trans(c, b, a);
    }
}

/// The optional-text comparison is coherent and flips with its operands.
pub proof fn lemma_opt_chars_rel_props(
    a: Option<Seq<char>>,
    b: Option<Seq<char>>,
    c: Option<Seq<char>>,
)
    ensures
        opt_chars_rel(a, b) == flip(opt_chars_rel(b, a)),
        opt_chars_rel(b, c) == flip(opt_chars_rel(c, b)),
        opt_chars_rel(a, c) == flip(opt_chars_rel(c, a)),
        rel_coherent(opt_chars_rel(a, b), opt_chars_rel(b, c), opt_chars_rel(a, c)),
        rel_coherent(opt_chars_rel(c, b), opt_chars_rel(b, a), opt_chars_rel(c, a)),
{
    let xa = if a is Some {
        a->0
    } else {
        Seq::empty()
    };
    let xb = if b is Some {
        b->0
    } else {
        Seq::empty()
    };
    let xc = if c is Some {
        c->0
    } else {
        Seq::empty()
    };
    lemma_chars_rel_props(xa, xb, xc);
}

/// Three-way comparison of optional strings, by their characters.
pub fn opt_str_cmp(a: &Option<String>, b: &Option<String>) -> (r: Rel)
    ensures
        r == opt_chars_rel(opt_view(*a), opt_view(*b)),
{
    match (a, b) {
        (Option::None, Option::None) => Rel::Equal,
        (Option::None, Option::Some(_)) => Rel::Less,
        (Option::Some(_), Option::None) => Rel::Greater,
        (Option::Some(x), Option::Some(y)) => str_cmp(x.as_str(), y.as_str()),
    }
}

/// Three-way comparison of unsigned keys.
pub fn u32_cmp(a: u32, b: u32) -> (r: Rel)
    ensures
        r == u32_rel(a, b),
{
    if a < b {
        Rel::Less
    } else if b < a {
        Rel::Greater
    } else {
        Rel::Equal
    }
}

/// Whether `needle` occurs in `hay`, character for character.
pub fn str_contains(hay: &str, needle: &str) -> (r: bool)
    ensures
        r == text_contains(hay@, needle@),
{
    let hay_len = hay.unicode_len();
    let needle_len = needle.unicode_len();
    if needle_len > hay_len {
        assert(!text_contains(hay@, needle@));
        return false;
    }
    if needle_len == 0 {
        assert(hay@.subrange(0, 0) =~= needle@);
        assert(contains_at(hay@, needle@, 0));
        return true;
    }
    let mut i: usize = 0;
    while i <= hay_len - needle_len
        invariant
            needle_len == needle@.len(),
            hay_len == hay@.len(),
            0 < needle_len <= hay_len,
            i <= hay_len - needle_len + 1,
            forall|k: int| 0 <= k < i ==> !contains_at(hay@, needle@, k),
        decreases hay_len - i,
    {
        let mut j: usize = 0;
        let mut mismatch = false;
        while j < needle_len
            invariant
                needle_len == needle@.len(),
                hay_len == hay@.len(),
                i + needle_len <= hay_len,
                j <= needle_len,
                !mismatch ==> hay@.subrange(i as int, i + j) == needle@.subrange(0, j as int),
                mismatch ==> !contains_at(hay@, needle@, i as int),
            decreases needle_len - j,
        {
            if !mismatch {
                let hc = hay.get_char(i + j);
                let nc = needle.get_char(j);
                if hc != nc {
                    proof {
                        if contains_at(hay@, needle@, i as int) {
                            assert(hay@.subrange(i as int, i + needle@.len())[j as int]
                                == needle@[j as int]);
                        }
                    }
                    mismatch = true;
                } else {
                    assert(hay@.subrange(i as int, i + j + 1) =~= hay@.subrange(i as int, i + j)
                        + seq![hay@[i + j]]);
                    assert(needle@.subrange(0, j + 1) =~= needle@.subrange(0, j as int)
                        + seq![needle@[j as int]]);
                }
            }
            j = j + 1;
        }
        if !mismatch {
            assert(hay@.subrange(i as int, i + needle@.len()) =~= needle@.subrange(
                0,
                needle@.len() as int,
            ));
            assert(needle@.subrange(0, needle@.len() as int) =~= needle@);
            assert(contains_at(hay@, needle@, i as int));
            return true;
        }
        i = i + 1;
    }
    assert forall|k: int| !contains_at(hay@, needle@, k) by {
        if 0 <= k <= hay@.len() - needle@.len() {
            assert(k < i);
        }
    }
    false
}

/// Whether `needle` occurs in `hay` ignoring ASCII case.
///
/// This is the matching behind every substring filter: anywhere in the
/// text, with ASCII capitals and lowercase identified, as the backing
/// store's default collation matches.
pub fn str_contains_fold(hay: &str, needle: &str) -> (r: bool)
    ensures
        r == text_contains_fold(hay@, needle@),
{
    let ghost fh = fold_chars(hay@);
    let ghost fn_ = fold_chars(needle@);
    let hay_len = hay.unicode_len();
    let needle_len = needle.unicode_len();
    proof {
        assert(fh.len() == hay@.len());
        assert(fn_.len() == needle@.len());
    }
    if needle_len > hay_len {
        assert(!text_contains(fh, fn_));
        return false;
    }
    if needle_len == 0 {
        assert(fh.subrange(0, 0) =~= fn_);
        assert(contains_at(fh, fn_, 0));
        return true;
    }
    let mut i: usize = 0;
    while i <= hay_len - needle_len
        invariant
            fh == fold_chars(hay@),
            fn_ == fold_chars(needle@),
            needle_len == fn_.len(),
            hay_len == fh.len(),
            0 < needle_len <= hay_len,
            i <= hay_len - needle_len + 1,
            forall|k: int| 0 <= k < i ==> !contains_at(fh, fn_, k),
        decreases hay_len - i,
    {
        let mut j: usize = 0;
        let mut mismatch = false;
        while j < needle_len
            invariant
                fh == fold_chars(hay@),
                fn_ == fold_chars(needle@),
                needle_len == fn_.len(),
                hay_len == fh.len(),
                i + needle_len <= hay_len,
                j <= needle_len,
                !mismatch ==> fh.subrange(i as int, i + j) == fn_.subrange(0, j as int),
                mismatch ==> !contains_at(fh, fn_, i as int),
            decreases needle_len - j,
        {
            if !mismatch {
                let hc = fold_char_exec(hay.get_char(i + j));
                let nc = fold_char_exec(needle.get_char(j));
                proof {
                    assert(fh[i + j] == fold_char(hay@[i + j]));
                    assert(fn_[j as int] == fold_char(needle@[j as int]));
                }
                if hc != nc {
                    proof {
                        if contains_at(fh, fn_, i as int) {
                            assert(fh.subrange(i as int, i + fn_.len())[j as int] == fn_[j as int]);
                        }
                    }
                    mismatch = true;
                } else {
                    assert(fh.subrange(i as int, i + j + 1) =~= fh.subrange(i as int, i + j)
                        + seq![fh[i + j]]);
                    assert(fn_.subrange(0, j + 1) =~= fn_.subrange(0, j as int) + seq![
                        fn_[j as int],
                    ]);
                }
            }
            j = j + 1;
        }
        if !mismatch {
            assert(fh.subrange(i as int, i + fn_.len()) =~= fn_.subrange(0, fn_.len() as int));
            assert(fn_.subrange(0, fn_.len() as int) =~= fn_);
            assert(contains_at(fh, fn_, i as int));
            return true;
        }
        i = i + 1;
    }
    assert forall|k: int| !contains_at(fh, fn_, k) by {
        if 0 <= k <= fh.len() - fn_.len() {
            assert(k < i);
        }
    }
    false
}

/// Lexicographic three-way comparison of two strings, by code point.
pub fn str_cmp(a: &str, b: &str) -> (r: Rel)
    ensures
        r == chars_rel(a@, b@),
{
    let a_len = a.unicode_len();
    let b_len = b.unicode_len();
    let mut i: usize = 0;
    assert(a@.skip(0) =~= a@);
    assert(b@.skip(0) =~= b@);
    loop
        invariant
            a_len == a@.len(),
            b_len == b@.len(),
            i <= a_len,
            i <= b_len,
            chars_rel(a@, b@) == chars_rel(a@.skip(i as int), b@.skip(i as int)),
        decreases a_len - i,
    {
        proof {
            lemma_chars_rel_skip(a@, b@, i as int);
        }
        if i >= a_len {
            if i >= b_len {
                return Rel::Equal;
            }
            return Rel::Less;
        }
        if i >= b_len {
            return Rel::Greater;
        }
        let ca = a.get_char(i);
        let cb = b.get_char(i);
        if (ca as u32) < (cb as u32) {
            return Rel::Less;
        }
        if (cb as u32) < (ca as u32) {
            return Rel::Greater;
        }
        proof {
            assert(a@.skip(i as int).drop_first() =~= a@.skip(i + 1));
            assert(b@.skip(i as int).drop_first() =~= b@.skip(i + 1));
        }
        i = i + 1;
    }
}

/// Comparing the suffixes one character past equal prefixes is comparing
/// the suffixes at the prefix end.
proof fn lemma_chars_rel_skip(a: Seq<char>, b: Seq<char>, i: int)
    requires
        0 <= i <= a.len(),
        0 <= i <= b.len(),
    ensures
        i < a.len() ==> a.skip(i)[0] == a[i],
        i < b.len() ==> b.skip(i)[0] == b[i],
        a.skip(i).len() == a.len() - i,
        b.skip(i).len() == b.len() - i,
{
}

/// Whether two strings hold the same characters.
pub fn str_eq(a: &str, b: &str) -> (r: bool)
    ensures
        r == (a@ == b@),
{
    let r = str_cmp(a, b);
    proof {
        lemma_chars_rel_eq(a@, b@);
    }
    match r {
        Rel::Equal => true,
        _ => false,
    }
}

} // verus!
