//! Lexicographic order on text, by code point, and the listing order of
//! sessions built from it.
use vstd::prelude::*;
use vstd::relations::{total_ordering, reflexive, antisymmetric, transitive, strongly_connected};
use vstd::string::StrSliceExecFns;

verus! {

/// `a` comes before `b`, or equals it, comparing code points from the left;
/// a proper prefix comes first.
pub open spec fn lex_le(a: Seq<char>, b: Seq<char>) -> bool
    decreases a.len(),
{
    if a.len() == 0 {
        true
    } else if b.len() == 0 {
        false
    } else if a[0] != b[0] {
        (a[0] as u32) < (b[0] as u32)
    } else {
        lex_le(a.skip(1), b.skip(1))
    }
}

pub proof fn lemma_lex_refl(a: Seq<char>)
    ensures
        lex_le(a, a),
    decreases a.len(),
{
    if a.len() > 0 {
        lemma_lex_refl(a.skip(1));
    }
}

pub proof fn lemma_lex_antisym(a: Seq<char>, b: Seq<char>)
    requires
        lex_le(a, b),
        lex_le(b, a),
    ensures
        a == b,
    decreases a.len(),
{
    if a.len() > 0 && b.len() > 0 {
        if a[0] == b[0] {
            lemma_lex_antisym(a.skip(1), b.skip(1));
            assert(a =~= seq![a[0]] + a.skip(1));
            assert(b =~= seq![b[0]] + b.skip(1));
        } else {
            let x = a[0] as u32;
            let y = b[0] as u32;
            assert(x != y) by {
                if x == y {
                    vstd::utf8::char_u32_cast(a[0], x);
                    vstd::utf8::char_u32_cast(b[0], y);
                }
            }
        }
    } else {
        assert(a =~= b);
    }
}

pub proof fn lemma_lex_trans(a: Seq<char>, b: Seq<char>, c: Seq<char>)
    requires
        lex_le(a, b),
        lex_le(b, c),
    ensures
        lex_le(a, c),
    decreases a.len(),
{
    if a.len() > 0 && b.len() > 0 && c.len() > 0 {
        if a[0] == b[0] && b[0] == c[0] {
            lemma_lex_trans(a.skip(1), b.skip(1), c.skip(1));
        } else if a[0] != c[0] {
            let (x, y, z) = (a[0] as u32, b[0] as u32, c[0] as u32);
            assert(x != z) by {
                if x == z {
                    vstd::utf8::char_u32_cast(a[0], x);
                    vstd::utf8::char_u32_cast(c[0], z);
                }
            }
        }
        else {
            // a[0] == c[0] but b differs from one of them: both steps strict.
            let (x, y) = (a[0] as u32, b[0] as u32);
            assert(x != y) by {
                if x == y {
                    vstd::utf8::char_u32_cast(a[0], x);
                    vstd::utf8::char_u32_cast(b[0], y);
                }
            }
        }
    }
}

pub proof fn lemma_lex_total(a: Seq<char>, b: Seq<char>)
    ensures
        lex_le(a, b) || lex_le(b, a),
    decreases a.len(),
{
    if a.len() > 0 && b.len() > 0 {
        if a[0] == b[0] {
            lemma_lex_total(a.skip(1), b.skip(1));
        } else {
            let (x, y) = (a[0] as u32, b[0] as u32);
            assert(x != y) by {
                if x == y {
                    vstd::utf8::char_u32_cast(a[0], x);
                    vstd::utf8::char_u32_cast(b[0], y);
                }
            }
        }
    }
}

/// Listing key of a session: its update time and its id.
pub type ListKey = (Seq<char>, Seq<char>);

/// Listing order: later update time first; equal times by id.
pub open spec fn key_le(x: ListKey, y: ListKey) -> bool {
    if x.0 == y.0 {
        lex_le(x.1, y.1)
    } else {
        lex_le(y.0, x.0)
    }
}

pub open spec fn key_order() -> spec_fn(ListKey, ListKey) -> bool {
    |x: ListKey, y: ListKey| key_le(x, y)
}

/// The listing order is a total order.
pub proof fn lemma_key_order_total()
    ensures
        total_ordering(key_order()),
{
    let r = key_order();
    assert(reflexive(r)) by {
        assert forall|x: ListKey| #[trigger] r(x, x) by {
            lemma_lex_refl(x.1);
        }
    }
    assert(antisymmetric(r)) by {
        assert forall|x: ListKey, y: ListKey| #[trigger] r(x, y) && #[trigger] r(y, x) implies x
            == y by {
            if x.0 == y.0 {
                lemma_lex_antisym(x.1, y.1);
            } else {
                lemma_lex_antisym(x.0, y.0);
            }
        }
    }
    assert(transitive(r)) by {
        assert forall|x: ListKey, y: ListKey, z: ListKey| #[trigger] r(x, y) && #[trigger] r(
            y,
            z,
        ) implies r(x, z) by {
            if x.0 == y.0 && y.0 == z.0 {
                lemma_lex_trans(x.1, y.1, z.1);
            } else if x.0 == y.0 {
            } else if y.0 == z.0 {
            } else {
                lemma_lex_trans(z.0, y.0, x.0);
                if x.0 == z.0 {
                    lemma_lex_antisym(x.0, y.0);
                }
            }
        }
    }
    assert(strongly_connected(r)) by {
        assert forall|x: ListKey, y: ListKey| #[trigger] r(x, y) || #[trigger] r(y, x) by {
            lemma_lex_total(x.0, y.0);
            lemma_lex_total(x.1, y.1);
        }
    }
}

/// Compares two texts in lexicographic order.
pub fn text_le(a: &str, b: &str) -> (r: bool)
    ensures
        r == lex_le(a@, b@),
{
    let n = a.unicode_len();
    let m = b.unicode_len();
    let mut i: usize = 0;
    assert(a@.skip(0) =~= a@);
    assert(b@.skip(0) =~= b@);
    while i < n
        invariant
            n == a@.len(),
            m == b@.len(),
            i <= m,
            i <= n,
            lex_le(a@, b@) == lex_le(a@.skip(i as int), b@.skip(i as int)),
        decreases n - i,
    {
        if i >= m {
            return false;
        }
        let x = a.get_char(i);
        let y = b.get_char(i);
        if x != y {
            return (x as u32) < (y as u32);
        }
        assert(a@.skip(i as int).skip(1) =~= a@.skip(i + 1));
        assert(b@.skip(i as int).skip(1) =~= b@.skip(i + 1));
        i = i + 1;
    }
    true
}

} // verus!
