//! Substitution of a token into a URL template.
use vstd::prelude::*;

verus! {

/// The marker that a template holds where the token goes: `{encrypted}`.
pub open spec fn placeholder() -> Seq<char> {
    seq!['{', 'e', 'n', 'c', 'r', 'y', 'p', 't', 'e', 'd', '}']
}

/// Whether the placeholder starts at position `i` of `t`.
pub open spec fn placeholder_at(t: Seq<char>, i: int) -> bool {
    0 <= i && i + 11 <= t.len() && t.subrange(i, i + 11) == placeholder()
}

/// `t` with every occurrence of the placeholder, read from left to right
/// without overlap, replaced by `token`; the rest of `t` is kept as it is.
pub open spec fn expand_spec(t: Seq<char>, token: Seq<char>) -> Seq<char>
    decreases t.len(),
{
    if t.len() == 0 {
        Seq::empty()
    } else if placeholder_at(t, 0) {
        token + expand_spec(t.subrange(11, t.len() as int), token)
    } else {
        seq![t[0]] + expand_spec(t.subrange(1, t.len() as int), token)
    }
}

/// Whether the placeholder starts at char `i` of the template.
fn placeholder_starts(chars: &Vec<char>, i: usize) -> (r: bool)
    requires
        i <= chars@.len(),
    ensures
        r == placeholder_at(chars@, i as int),
{
    let marker: Vec<char> = vec!['{', 'e', 'n', 'c', 'r', 'y', 'p', 't', 'e', 'd', '}'];
    assert(marker@ =~= placeholder());
    if chars.len() - i < 11 {
        return false;
    }
    let mut j: usize = 0;
    while j < 11
        invariant
            0 <= j <= 11,
            i + 11 <= chars@.len() <= usize::MAX,
            marker@ == placeholder(),
            forall|k: int| 0 <= k < j ==> chars@[i + k] == marker@[k],
        decreases 11 - j,
    {
        if chars[i + j] != marker[j] {
            assert(chars@.subrange(i as int, i + 11)[j as int] != placeholder()[j as int]);
            return false;
        }
        j = j + 1;
    }
    assert(chars@.subrange(i as int, i + 11) =~= placeholder());
    true
}

/// Replaces every `{encrypted}` in `template` with `token`. A template without
/// the placeholder comes back unchanged.
pub fn expand(template: &str, token: &str) -> (r: String)
    ensures
        r@ == expand_spec(template@, token@),
{
    let n: usize = template.unicode_len();
    let mut chars: Vec<char> = Vec::new();
    let mut k: usize = 0;
    while k < n
        invariant
            k <= n,
            n == template@.len(),
            chars@ =~= template@.subrange(0, k as int),
        decreases n - k,
    {
        chars.push(template.get_char(k));
        k = k + 1;
    }
    assert(chars@ =~= template@);
    let mut out: String = String::new();
    let mut i: usize = 0;
    while i < n
        invariant
            i <= n,
            n == chars@.len(),
            chars@ == template@,
            out@ + expand_spec(chars@.subrange(i as int, n as int), token@) == expand_spec(
                chars@,
                token@,
            ),
        decreases n - i,
    {
        let ghost rest = chars@.subrange(i as int, n as int);
        if placeholder_starts(&chars, i) {
            assert(rest.subrange(0, 11) =~= chars@.subrange(i as int, i + 11));
            assert(rest.subrange(11, rest.len() as int) =~= chars@.subrange(i + 11, n as int));
            out.append(token);
            i = i + 11;
        } else {
            assert(rest.len() >= 11 ==> rest.subrange(0, 11) =~= chars@.subrange(
                i as int,
                i + 11,
            ));
            assert(rest.subrange(1, rest.len() as int) =~= chars@.subrange(i + 1, n as int));
            out.append(template.substring_char(i, i + 1));
            assert(template@.subrange(i as int, i + 1) =~= seq![rest[0]]);
            i = i + 1;
        }
        assert(out@ + expand_spec(chars@.subrange(i as int, n as int), token@) =~= expand_spec(
            chars@,
            token@,
        ));
    }
    assert(chars@.subrange(n as int, n as int) =~= Seq::<char>::empty());
    assert(out@ =~= out@ + Seq::<char>::empty());
    out
}

} // verus!
