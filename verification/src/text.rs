use vstd::prelude::*;
use vstd::std_specs::iter::IteratorSpec;

verus! {

/// The first character of `s`, or a space when `s` is empty.
pub open spec fn leading_char(s: Seq<char>) -> char {
    if s.len() > 0 {
        s[0]
    } else {
        ' '
    }
}

/// Lexicographic order on text, character by character, by code point:
/// `a` comes no later than `b`.
pub open spec fn text_le(a: Seq<char>, b: Seq<char>) -> bool
    decreases a.len(),
{
    if a.len() == 0 {
        true
    } else if b.len() == 0 {
        false
    } else if a[0] != b[0] {
        (a[0] as u32) < (b[0] as u32)
    } else {
        text_le(a.drop_first(), b.drop_first())
    }
}

/// Distinct characters have distinct code points.
pub proof fn lemma_code_point_injective(x: char, y: char)
    ensures
        x as u32 == y as u32 ==> x == y,
{
    vstd::utf8::char_u32_cast(x, x as u32);
    vstd::utf8::char_u32_cast(y, y as u32);
}

/// `text_le` relates every text to itself.
pub proof fn lemma_text_le_reflexive(a: Seq<char>)
    ensures
        text_le(a, a),
    decreases a.len(),
{
    if a.len() > 0 {
        lemma_text_le_reflexive(a.drop_first());
    }
}

/// Any two texts are comparable by `text_le`.
pub proof fn lemma_text_le_total(a: Seq<char>, b: Seq<char>)
    ensures
        text_le(a, b) || text_le(b, a),
    decreases a.len(),
{
    if a.len() > 0 && b.len() > 0 {
        if a[0] == b[0] {
            lemma_text_le_total(a.drop_first(), b.drop_first());
        } else {
            lemma_code_point_injective(a[0], b[0]);
        }
    }
}

/// `text_le` is transitive.
pub proof fn lemma_text_le_transitive(a: Seq<char>, b: Seq<char>, c: Seq<char>)
    requires
        text_le(a, b),
        text_le(b, c),
    ensures
        text_le(a, c),
    decreases a.len(),
{
    if a.len() > 0 && b.len() > 0 && c.len() > 0 && a[0] == b[0] && b[0] == c[0] {
        lemma_text_le_transitive(a.drop_first(), b.drop_first(), c.drop_first());
    }
}

/// Two texts that each come no later than the other are the same text.
pub proof fn lemma_text_le_antisymmetric(a: Seq<char>, b: Seq<char>)
    requires
        text_le(a, b),
        text_le(b, a),
    ensures
        a == b,
    decreases a.len(),
{
    if a.len() > 0 && b.len() > 0 {
        lemma_text_le_antisymmetric(a.drop_first(), b.drop_first());
        assert(a =~= seq![a[0]] + a.drop_first());
        assert(b =~= seq![b[0]] + b.drop_first());
    } else {
        assert(a =~= b);
    }
}

/// The first character of the uppercase form that `char::to_uppercase` of std
/// gives for `c`.
pub uninterp spec fn uppercase_head(c: char) -> char;

/// Calls `char::to_uppercase` of std and takes the first character it yields.
/// The contract only names that character: the mapping is Unicode's.
#[verifier::external_body]
pub(crate) fn to_uppercase_head(c: char) -> (upper: char)
    ensures
        upper == uppercase_head(c),
{
    c.to_uppercase().next().unwrap()
}

/// `String::push` of std appends one character to the text.
pub assume_specification[ String::push ](text: &mut String, c: char)
    ensures
        final(text)@ == old(text)@.push(c),
;

/// Returns the first character of `s`, or a space when `s` is empty.
pub fn first_char_or_space(s: &str) -> (c: char)
    ensures
        c == leading_char(s@),
{
    broadcast use vstd::string::group_string_axioms;

    let mut it = s.chars();
    match it.next() {
        Some(c) => c,
        None => ' ',
    }
}

/// Decides whether `a` and `b` are the same text.
pub fn same_text(a: &str, b: &str) -> (same: bool)
    ensures
        same == (a@ == b@),
{
    broadcast use vstd::string::group_string_axioms;

    let mut ia = a.chars();
    let mut ib = b.chars();
    let ghost mut done: int = 0;
    loop
        invariant
            0 <= done <= a@.len(),
            done <= b@.len(),
            ia.remaining() == a@.subrange(done, a@.len() as int),
            ib.remaining() == b@.subrange(done, b@.len() as int),
            a@.subrange(0, done) == b@.subrange(0, done),
            ia.decrease() is Some,
        decreases ia.decrease()->0,
    {
        let ca = ia.next();
        let cb = ib.next();
        match (ca, cb) {
            (None, None) => {
                assert(a@ =~= a@.subrange(0, done));
                assert(b@ =~= b@.subrange(0, done));
                return true;
            },
            (Some(x), Some(y)) => {
                if x != y {
                    assert(a@[done] != b@[done]);
                    return false;
                }
                proof {
                    assert(a@.subrange(0, done + 1) =~= a@.subrange(0, done).push(x));
                    assert(b@.subrange(0, done + 1) =~= b@.subrange(0, done).push(y));
                    assert(ia.remaining() =~= a@.subrange(done + 1, a@.len() as int));
                    assert(ib.remaining() =~= b@.subrange(done + 1, b@.len() as int));
                    done = done + 1;
                }
            },
            _ => {
                assert(a@.len() != b@.len());
                return false;
            },
        }
    }
}

/// Decides whether `a` comes no later than `b` in lexicographic order.
pub fn text_no_later(a: &str, b: &str) -> (r: bool)
    ensures
        r == text_le(a@, b@),
{
    broadcast use vstd::string::group_string_axioms;

    let mut ia = a.chars();
    let mut ib = b.chars();
    loop
        invariant
            text_le(a@, b@) == text_le(ia.remaining(), ib.remaining()),
            ia.decrease() is Some,
        decreases ia.decrease()->0,
    {
        let ca = ia.next();
        let cb = ib.next();
        match (ca, cb) {
            (None, _) => {
                return true;
            },
            (Some(_), None) => {
                return false;
            },
            (Some(x), Some(y)) => {
                if x != y {
                    return (x as u32) < (y as u32);
                }
            },
        }
    }
}

} // verus!
