use vstd::prelude::*;

use crate::text::push_char;

verus! {

/// Printable ASCII (0x20..=0x7E) other than `"` and `\`: the characters
/// that survive sanitization unchanged.
pub open spec fn is_kept_char(c: char) -> bool {
    &&& ' ' <= c <= '~'
    &&& c != '"'
    &&& c != '\\'
}

/// What one input character becomes: `©`, `®`, `™` map to `(c)`, `(r)`,
/// `(tm)`; kept characters stay; everything else is dropped.
pub open spec fn sanitize_char(c: char) -> Seq<char> {
    if c == '\u{a9}' {
        "(c)"@
    } else if c == '\u{ae}' {
        "(r)"@
    } else if c == '\u{2122}' {
        "(tm)"@
    } else if is_kept_char(c) {
        seq![c]
    } else {
        Seq::empty()
    }
}

/// The sanitized form of a character sequence.
pub open spec fn sanitized(s: Seq<char>) -> Seq<char>
    decreases s.len(),
{
    if s.len() == 0 {
        Seq::empty()
    } else {
        sanitized(s.drop_last()) + sanitize_char(s.last())
    }
}

/// Every character of `s` is a kept character.
pub open spec fn all_kept(s: Seq<char>) -> bool {
    forall|i: int| 0 <= i < s.len() ==> #[trigger] is_kept_char(s[i])
}

/// Sanitizes a string so that it can be embedded verbatim both in the
/// linker script (one byte per character) and in the JSON payload (no
/// character that a JSON encoder would escape).
pub fn sanitize_for_linker_script(input: &str) -> (r: String)
    ensures
        r@ == sanitized(input@),
        (forall|i: int|
            0 <= i < input@.len() ==> ' ' <= #[trigger] input@[i] <= '~' && input@[i] != '"' && input@[i]
                != '\\') ==> r@ == input@,
        forall|i: int| 0 <= i < r@.len() ==> ' ' <= #[trigger] r@[i] <= '~' && r@[i] != '"' && r@[i] != '\\',
{
    proof {
        lemma_printable_text_is_kept(input@);
        lemma_sanitized_printable(input@);
    }
    let n = input.unicode_len();
    let mut out = String::new();
    let mut i: usize = 0;
    while i < n
        invariant
            n == input@.len(),
            i <= n,
            out@ == sanitized(input@.take(i as int)),
        decreases n - i,
    {
        let c = input.get_char(i);
        proof {
            assert(input@.take(i + 1).drop_last() =~= input@.take(i as int));
        }
        if c == '\u{a9}' {
            out.append("(c)");
        } else if c == '\u{ae}' {
            out.append("(r)");
        } else if c == '\u{2122}' {
            out.append("(tm)");
        } else if ' ' <= c && c <= '~' && c != '"' && c != '\\' {
            push_char(&mut out, c);
        }
        i = i + 1;
        proof {
            assert(out@ =~= sanitized(input@.take(i as int)));
        }
    }
    proof {
        assert(input@.take(n as int) =~= input@);
    }
    out
}

/// Sanitization distributes over concatenation.
pub proof fn lemma_sanitized_concat(a: Seq<char>, b: Seq<char>)
    ensures
        sanitized(a + b) == sanitized(a) + sanitized(b),
    decreases b.len(),
{
    if b.len() == 0 {
        assert(a + b =~= a);
        assert(sanitized(a) + sanitized(b) =~= sanitized(a));
    } else {
        assert((a + b).drop_last() =~= a + b.drop_last());
        lemma_sanitized_concat(a, b.drop_last());
        assert(sanitized(a) + sanitized(b) =~= sanitized(a) + sanitized(b.drop_last())
            + sanitize_char(b.last()));
    }
}

proof fn lemma_sanitize_char_kept(c: char)
    ensures
        all_kept(sanitize_char(c)),
{
    reveal_strlit("(c)");
    reveal_strlit("(r)");
    reveal_strlit("(tm)");
}

/// The output of sanitization consists of kept characters only.
pub proof fn lemma_sanitized_all_kept(s: Seq<char>)
    ensures
        all_kept(sanitized(s)),
    decreases s.len(),
{
    if s.len() > 0 {
        lemma_sanitized_all_kept(s.drop_last());
        lemma_sanitize_char_kept(s.last());
        let a = sanitized(s.drop_last());
        let b = sanitize_char(s.last());
        assert forall|i: int| 0 <= i < (a + b).len() implies #[trigger] is_kept_char((a + b)[i]) by {
            if i < a.len() {
                assert((a + b)[i] == a[i]);
            } else {
                assert((a + b)[i] == b[i - a.len()]);
            }
        }
    }
}

/// A sequence of kept characters is left unchanged.
pub proof fn lemma_sanitized_identity(s: Seq<char>)
    requires
        all_kept(s),
    ensures
        sanitized(s) == s,
    decreases s.len(),
{
    if s.len() > 0 {
        let t = s.drop_last();
        assert forall|i: int| 0 <= i < t.len() implies #[trigger] is_kept_char(t[i]) by {
            assert(t[i] == s[i]);
        }
        lemma_sanitized_identity(t);
        assert(is_kept_char(s[s.len() - 1]));
        assert(sanitized(s) =~= s);
    }
}

/// Printable ASCII text without `"` or `\\` passes through sanitization
/// unchanged, character for character.
pub proof fn lemma_printable_text_is_kept(s: Seq<char>)
    ensures
        (forall|i: int| 0 <= i < s.len() ==> ' ' <= #[trigger] s[i] <= '~' && s[i] != '"' && s[i] != '\\')
            ==> sanitized(s) == s,
{
    if forall|i: int| 0 <= i < s.len() ==> ' ' <= #[trigger] s[i] <= '~' && s[i] != '"' && s[i] != '\\' {
        assert forall|i: int| 0 <= i < s.len() implies #[trigger] is_kept_char(s[i]) by {}
        lemma_sanitized_identity(s);
    }
}

/// Each printable ASCII character other than `"` and `\\` is kept as it
/// is.
pub proof fn lemma_printable_char_is_kept(c: char)
    requires
        ' ' <= c <= '~',
        c != '"',
        c != '\\',
    ensures
        sanitized(seq![c]) == seq![c],
{
    lemma_printable_text_is_kept(seq![c]);
}

/// Every character sanitization produces is printable ASCII other than
/// `"` and `\\`.
pub proof fn lemma_sanitized_printable(s: Seq<char>)
    ensures
        forall|i: int|
            0 <= i < sanitized(s).len() ==> ' ' <= #[trigger] sanitized(s)[i] <= '~' && sanitized(s)[i] != '"'
                && sanitized(s)[i] != '\\',
{
    lemma_sanitized_all_kept(s);
    assert forall|i: int| 0 <= i < sanitized(s).len() implies ' ' <= #[trigger] sanitized(s)[i] <= '~'
        && sanitized(s)[i] != '"' && sanitized(s)[i] != '\\' by {
        assert(is_kept_char(sanitized(s)[i]));
    }
}

/// Sanitization is idempotent: sanitizing an already sanitized value
/// changes nothing.
pub proof fn lemma_sanitize_idempotent(s: Seq<char>)
    ensures
        sanitized(sanitized(s)) == sanitized(s),
{
    lemma_sanitized_all_kept(s);
    lemma_sanitized_identity(sanitized(s));
}

} // verus!

verus! {

/// Kept characters are ASCII.
pub proof fn lemma_kept_is_ascii(s: Seq<char>)
    requires
        all_kept(s),
    ensures
        vstd::utf8::is_ascii_chars(s),
{
    assert forall|i: int| 0 <= i < s.len() implies '\0' <= #[trigger] s[i] <= '\u{7f}' by {
        assert(is_kept_char(s[i]));
    }
}

} // verus!
