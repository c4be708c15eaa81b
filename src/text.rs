use vstd::prelude::*;
use vstd::string::*;
use vstd::utf8::{decode_utf8, valid_utf8};

verus! {

/// A character as header names compare it: ASCII letters fold to lower case.
pub open spec fn folded(c: char) -> u32 {
    if 65 <= (c as u32) && (c as u32) <= 90 {
        ((c as u32) + 32) as u32
    } else {
        c as u32
    }
}

/// A character with ASCII upper case turned to lower case.
pub open spec fn lower_char(c: char) -> char {
    if 65 <= (c as u32) && (c as u32) <= 90 {
        ((c as u32) + 32) as char
    } else {
        c
    }
}

/// A header name in the lower-case form under which the HTTP layer keeps it.
pub open spec fn lower_name(s: Seq<char>) -> Seq<char> {
    s.map_values(|c: char| lower_char(c))
}

/// Two header names are the same name when they agree up to ASCII case.
pub open spec fn same_name(a: Seq<char>, b: Seq<char>) -> bool {
    a.len() == b.len() && forall|i: int| 0 <= i < a.len() ==> #[trigger] folded(a[i]) == folded(b[i])
}

/// Sameness of header names does not depend on the order of the two.
pub proof fn lemma_same_name_symmetric(a: Seq<char>, b: Seq<char>)
    ensures
        same_name(a, b) == same_name(b, a),
{
    if same_name(a, b) {
        assert forall|i: int| 0 <= i < b.len() implies #[trigger] folded(b[i]) == folded(a[i]) by {
            assert(folded(a[i]) == folded(b[i]));
        }
    }
    if same_name(b, a) {
        assert forall|i: int| 0 <= i < a.len() implies #[trigger] folded(a[i]) == folded(b[i]) by {
            assert(folded(b[i]) == folded(a[i]));
        }
    }
}

/// Two names that are the same as a third are the same as each other.
pub proof fn lemma_same_name_transitive(a: Seq<char>, b: Seq<char>, c: Seq<char>)
    requires
        same_name(a, b),
        same_name(b, c),
    ensures
        same_name(a, c),
{
    assert forall|i: int| 0 <= i < a.len() implies #[trigger] folded(a[i]) == folded(c[i]) by {
        assert(folded(a[i]) == folded(b[i]));
        assert(folded(b[i]) == folded(c[i]));
    }
}

/// Names with one lower-case form are the same name.
pub proof fn lemma_lower_name_same(a: Seq<char>, b: Seq<char>)
    requires
        lower_name(a) == lower_name(b),
    ensures
        same_name(a, b),
{
    assert(a.len() == lower_name(a).len());
    assert forall|i: int| 0 <= i < a.len() implies #[trigger] folded(a[i]) == folded(b[i]) by {
        assert(lower_name(a)[i] == lower_char(a[i]));
        assert(lower_name(b)[i] == lower_char(b[i]));
        assert(lower_char(a[i]) as u32 == folded(a[i]));
        assert(lower_char(b[i]) as u32 == folded(b[i]));
    }
}

fn fold_char(c: char) -> (r: u32)
    ensures
        r == folded(c),
{
    let v = c as u32;
    if 65 <= v && v <= 90 {
        v + 32
    } else {
        v
    }
}

/// Whether two header names are equal up to ASCII case.
pub fn names_match(a: &str, b: &str) -> (r: bool)
    ensures
        r == same_name(a@, b@),
{
    let n = a.unicode_len();
    let m = b.unicode_len();
    if n != m {
        return false;
    }
    let mut i: usize = 0;
    while i < n
        invariant
            n == a@.len(),
            n == b@.len(),
            i <= n,
            forall|k: int| 0 <= k < i ==> #[trigger] folded(a@[k]) == folded(b@[k]),
        decreases n - i,
    {
        if fold_char(a.get_char(i)) != fold_char(b.get_char(i)) {
            assert(folded(a@[i as int]) != folded(b@[i as int]));
            return false;
        }
        i = i + 1;
    }
    true
}

/// Whether `s` begins with `prefix`.
pub fn starts_with(s: &str, prefix: &str) -> (r: bool)
    ensures
        r == prefix@.is_prefix_of(s@),
{
    let n = prefix.unicode_len();
    let m = s.unicode_len();
    if n > m {
        return false;
    }
    let mut i: usize = 0;
    while i < n
        invariant
            n == prefix@.len(),
            n <= m,
            m == s@.len(),
            i <= n,
            forall|k: int| 0 <= k < i ==> prefix@[k] == s@[k],
        decreases n - i,
    {
        if prefix.get_char(i) != s.get_char(i) {
            return false;
        }
        i = i + 1;
    }
    true
}

/// Relies on String::from_utf8: the bytes become text exactly when they
/// are valid UTF-8, and the text is what they encode.
#[verifier::external_body]
pub(crate) fn utf8_text(b: Vec<u8>) -> (r: Option<String>)
    ensures
        r is Some <==> valid_utf8(b@),
        r is Some ==> r->Some_0@ == decode_utf8(b@),
{
    String::from_utf8(b).ok()
}

} // verus!
