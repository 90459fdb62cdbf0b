//! Diagnostic log fields. Whether diagnostics are on, and the log itself, belong to the
//! shell; a field is what any text becomes before it is logged.

use crate::text::{chars_of, is_control, control, push_char};
use vstd::prelude::*;

verus! {

/// The longest a logged field gets, in characters.
pub const FIELD_CHARS: usize = 240;

/// The characters a log field keeps.
pub open spec fn kept_char() -> spec_fn(char) -> bool {
    |c: char| !is_control(c)
}

/// A text as a log field: control characters dropped, then cut to `FIELD_CHARS`.
pub open spec fn spec_field(value: Seq<char>) -> Seq<char> {
    let kept = value.filter(kept_char());
    if kept.len() > FIELD_CHARS {
        kept.take(FIELD_CHARS as int)
    } else {
        kept
    }
}

pub fn field(value: &str) -> (r: String)
    ensures
        r@ == spec_field(value@),
{
    let chars = chars_of(value);
    let mut out = String::new();
    let mut count: usize = 0;
    let mut i: usize = 0;
    while i < chars.len() && count < FIELD_CHARS
        invariant
            0 <= i <= chars@.len(),
            chars@ == value@,
            out@ == value@.take(i as int).filter(kept_char()),
            count == out@.len(),
            count <= FIELD_CHARS,
        decreases chars@.len() - i,
    {
        let c = chars[i];
        proof {
            assert(value@.take(i + 1).drop_last() =~= value@.take(i as int));
            assert(value@.take(i + 1).last() == c);
        }
        let ghost before = out@;
        if !control(c) {
            push_char(&mut out, c);
            count = count + 1;
        }
        proof {
            reveal(Seq::filter);
            let t = value@.take(i + 1);
            assert(t.filter(kept_char()) == (if kept_char()(t.last()) {
                t.drop_last().filter(kept_char()).push(t.last())
            } else {
                t.drop_last().filter(kept_char())
            }));
        }
        i = i + 1;
    }
    proof {
        lemma_filter_prefix(value@, i as int);
    }
    out
}

/// Filtering a longer prefix never loses what a shorter one kept: once `FIELD_CHARS`
/// characters are kept, the rest of the text cannot change the first `FIELD_CHARS`.
proof fn lemma_filter_prefix(s: Seq<char>, i: int)
    requires
        0 <= i <= s.len(),
        s.take(i).filter(kept_char()).len() <= FIELD_CHARS,
        s.take(i).filter(kept_char()).len() == FIELD_CHARS || i == s.len(),
    ensures
        ({
            let kept = s.filter(kept_char());
            let got = s.take(i).filter(kept_char());
            got == (if kept.len() > FIELD_CHARS { kept.take(FIELD_CHARS as int) } else { kept })
        }),
{
    reveal(Seq::filter);
    let a = s.take(i);
    let b = s.skip(i);
    assert(s =~= a + b);
    Seq::filter_distributes_over_add(a, b, kept_char());
    let got = a.filter(kept_char());
    let kept = s.filter(kept_char());
    if i == s.len() {
        assert(b =~= Seq::<char>::empty());
        assert(b.filter(kept_char()) =~= Seq::<char>::empty());
        assert(kept =~= got);
    } else {
        assert(kept == got + b.filter(kept_char()));
        if kept.len() > FIELD_CHARS {
            assert(kept.take(FIELD_CHARS as int) =~= got);
        } else {
            assert(b.filter(kept_char()).len() == 0);
            assert(kept =~= got);
        }
    }
}

} // verus!
