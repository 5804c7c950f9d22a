use vstd::prelude::*;

verus! {

/// Whether `c` has the Unicode `White_Space` property.
pub open spec fn is_unicode_whitespace(c: char) -> bool {
    let n = c as u32;
    (0x09 <= n <= 0x0d) || n == 0x20 || n == 0x85 || n == 0xa0 || n == 0x1680 || (0x2000 <= n
        <= 0x200a) || n == 0x2028 || n == 0x2029 || n == 0x202f || n == 0x205f || n == 0x3000
}

/// The characters of `s` that are not whitespace, in order.
pub open spec fn without_whitespace(s: Seq<char>) -> Seq<char> {
    s.filter(|c: char| !is_unicode_whitespace(c))
}

/// Relies on `char::is_whitespace`: true exactly for the `White_Space` code points.
#[verifier::external_body]
fn char_is_whitespace(c: char) -> (r: bool)
    ensures
        r == is_unicode_whitespace(c),
{
    c.is_whitespace()
}

/// Removes whitespace and line breaks from `s`.
pub fn strip_whitespaces(s: String) -> (r: String)
    ensures
        r@ == without_whitespace(s@),
{
    let text: &str = s.as_str();
    let n: usize = text.unicode_len();
    let mut out = String::new();
    let mut i: usize = 0;
    while i < n
        invariant
            i <= n,
            n == text@.len(),
            out@ == without_whitespace(text@.subrange(0, i as int)),
        decreases n - i,
    {
        let c = text.get_char(i);
        let piece: &str = text.substring_char(i, i + 1);
        proof {
            let pre = text@.subrange(0, i as int);
            assert(text@.subrange(0, i + 1) =~= pre.push(c));
            assert(pre.push(c).drop_last() =~= pre);
            assert(piece@ =~= seq![c]);
            reveal(Seq::filter);
        }
        if !char_is_whitespace(c) {
            out.append(piece);
        }
        i = i + 1;
    }
    proof {
        assert(text@.subrange(0, n as int) =~= text@);
    }
    out
}

} // verus!
