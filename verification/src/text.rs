use vstd::prelude::*;

verus! {

/// What `str::to_lowercase` returns for a given character sequence.
pub uninterp spec fn lower_of(s: Seq<char>) -> Seq<char>;

/// Relies on `str::to_lowercase`: the lowercase form of the string, a
/// function of its characters alone.
#[verifier::external_body]
pub(crate) fn lowercase(s: &str) -> (r: String)
    ensures
        r@ == lower_of(s@),
{
    s.to_lowercase()
}

/// `s` with every space replaced by a hyphen, character for character.
pub open spec fn dashed(s: Seq<char>) -> Seq<char> {
    s.map_values(|c: char| if c == ' ' { '-' } else { c })
}

/// Replaces every space with a hyphen, leaving all other characters as they
/// are.
pub(crate) fn dash_spaces(s: &str) -> (r: String)
    ensures
        r@ == dashed(s@),
{
    let n: usize = s.unicode_len();
    let mut out = String::new();
    let mut i: usize = 0;
    while i < n
        invariant
            n == s@.len(),
            0 <= i <= n,
            out@.len() == i,
            forall|k: int| 0 <= k < i ==> out@[k] == (if s@[k] == ' ' { '-' } else { s@[k] }),
        decreases n - i,
    {
        let c = s.get_char(i);
        if c == ' ' {
            push_char(&mut out, '-');
        } else {
            push_char(&mut out, c);
        }
        i = i + 1;
    }
    proof {
        assert(out@ =~= dashed(s@));
    }
    out
}

/// Law (one part of the identifier's shape): replacing spaces leaves no space
/// anywhere in the string handed on to lowercasing, and keeps its length.
pub proof fn lemma_dashed_no_space(s: Seq<char>)
    ensures
        dashed(s).len() == s.len(),
        forall|i: int| 0 <= i < s.len() ==> #[trigger] dashed(s)[i] != ' ',
{
    assert(forall|i: int| 0 <= i < s.len() ==> #[trigger] dashed(s)[i] != ' ');
}

/// Relies on `String::push`: appends the given character to the end of the
/// string, so the new view is the old view with `c` pushed at the back.
#[verifier::external_body]
pub(crate) fn push_char(s: &mut String, c: char)
    ensures
        final(s)@ == old(s)@.push(c),
{
    s.push(c);
}

} // verus!
