use vstd::prelude::*;

use crate::error::{ModuleInfoError, ModuleInfoResult};
use crate::text::{decimal, push_char, push_decimal};

verus! {

/// The segments of `s` separated by `a` or `b` (an empty `s` has one empty
/// segment), as `str::split` produces them.
pub open spec fn split_by(s: Seq<char>, a: char, b: char) -> Seq<Seq<char>>
    decreases s.len(),
{
    if s.len() == 0 {
        seq![Seq::<char>::empty()]
    } else {
        let prev = split_by(s.drop_last(), a, b);
        if s.last() == a || s.last() == b {
            prev.push(Seq::<char>::empty())
        } else {
            prev.update(prev.len() - 1, prev.last().push(s.last()))
        }
    }
}

/// The segments of `s` separated by `sep`.
pub open spec fn split_on(s: Seq<char>, sep: char) -> Seq<Seq<char>> {
    split_by(s, sep, sep)
}

pub proof fn lemma_split_nonempty(s: Seq<char>, a: char, b: char)
    ensures
        split_by(s, a, b).len() >= 1,
    decreases s.len(),
{
    if s.len() > 0 {
        lemma_split_nonempty(s.drop_last(), a, b);
    }
}

/// Splits `s` at every `a` or `b`.
pub fn split_chars(s: &str, a: char, b: char) -> (r: Vec<String>)
    ensures
        r@.len() == split_by(s@, a, b).len(),
        forall|i: int| 0 <= i < r@.len() ==> #[trigger] r@[i]@ == split_by(s@, a, b)[i],
{
    let n = s.unicode_len();
    let mut parts: Vec<String> = Vec::new();
    let mut cur = String::new();
    let mut i: usize = 0;
    while i < n
        invariant
            n == s@.len(),
            i <= n,
            parts@.len() + 1 == split_by(s@.take(i as int), a, b).len(),
            forall|j: int| 0 <= j < parts@.len() ==> #[trigger] parts@[j]@ == split_by(s@.take(i as int), a, b)[j],
            cur@ == split_by(s@.take(i as int), a, b).last(),
        decreases n - i,
    {
        let c = s.get_char(i);
        proof {
            assert(s@.take(i + 1).drop_last() =~= s@.take(i as int));
            lemma_split_nonempty(s@.take(i as int), a, b);
        }
        if c == a || c == b {
            parts.push(cur);
            cur = String::new();
        } else {
            push_char(&mut cur, c);
        }
        i = i + 1;
    }
    parts.push(cur);
    proof {
        assert(s@.take(n as int) =~= s@);
    }
    parts
}

/// The value of a non-empty run of ASCII digits.
pub open spec fn digits_value(d: Seq<char>) -> nat
    decreases d.len(),
{
    if d.len() == 0 {
        0
    } else {
        digits_value(d.drop_last()) * 10 + ((d.last() as u32) - 48) as nat
    }
}

pub open spec fn is_digit(c: char) -> bool {
    '0' <= c <= '9'
}

pub open spec fn all_digits(d: Seq<char>) -> bool {
    forall|i: int| 0 <= i < d.len() ==> #[trigger] is_digit(d[i])
}

/// `p` is accepted by `u16::from_str`: an optional `+`, then at least one
/// ASCII digit, with a value of at most 65535.
pub open spec fn parses_as_u16(p: Seq<char>) -> bool {
    let d = if p.len() > 0 && p[0] == '+' {
        p.skip(1)
    } else {
        p
    };
    d.len() > 0 && all_digits(d) && digits_value(d) <= 65535
}

proof fn lemma_digits_value_monotone(d: Seq<char>, k: int)
    requires
        0 <= k <= d.len(),
        all_digits(d),
    ensures
        digits_value(d.take(k)) <= digits_value(d),
    decreases d.len() - k,
{
    if k < d.len() {
        lemma_digits_value_monotone(d, k + 1);
        assert(d.take(k + 1).drop_last() =~= d.take(k));
        assert(is_digit(d[k]));
    } else {
        assert(d.take(k) =~= d);
    }
}

/// Checks that `p` is a decimal `u16` as `u16::from_str` accepts it.
pub fn is_u16_text(p: &str) -> (r: bool)
    ensures
        r == parses_as_u16(p@),
{
    let n = p.unicode_len();
    let mut start: usize = 0;
    if n > 0 && p.get_char(0) == '+' {
        start = 1;
    }
    let ghost d = if p@.len() > 0 && p@[0] == '+' {
        p@.skip(1)
    } else {
        p@
    };
    proof {
        assert(d =~= p@.skip(start as int));
        assert(parses_as_u16(p@) == (d.len() > 0 && all_digits(d) && digits_value(d) <= 65535));
    }
    if start >= n {
        return false;
    }
    let mut value: u32 = 0;
    let mut i: usize = start;
    while i < n
        invariant
            n == p@.len(),
            start <= i <= n,
            parses_as_u16(p@) == (d.len() > 0 && all_digits(d) && digits_value(d) <= 65535),
            d == p@.skip(start as int),
            all_digits(d.take(i - start)),
            value == digits_value(d.take(i - start)),
            value <= 65535,
        decreases n - i,
    {
        let c = p.get_char(i);
        proof {
            assert(d.take(i - start + 1).drop_last() =~= d.take(i - start));
            assert(d[i - start] == c);
        }
        if !('0' <= c && c <= '9') {
            proof {
                assert(!is_digit(d[i - start]));
                assert(!all_digits(d));
            }
            return false;
        }
        value = value * 10 + ((c as u32) - 48);
        i = i + 1;
        proof {
            assert(value == digits_value(d.take(i - start)));
            assert(all_digits(d.take(i - start))) by {
                assert forall|j: int| 0 <= j < d.take(i - start).len() implies #[trigger] is_digit(
                    d.take(i - start)[j],
                ) by {
                    if j < i - start - 1 {
                        assert(d.take(i - start)[j] == d.take(i - start - 1)[j]);
                    }
                }
            }
        }
        if value > 65535 {
            proof {
                if all_digits(d) {
                    lemma_digits_value_monotone(d, i - start);
                    assert(digits_value(d) > 65535);
                }
                assert(!parses_as_u16(p@));
            }
            return false;
        }
    }
    proof {
        assert(d.take(n - start) =~= d);
    }
    true
}

/// `format!("{s:?}")` for a string slice: the quoted, escaped text.
pub uninterp spec fn str_debug(s: Seq<char>) -> Seq<char>;

/// Renders a string slice with `Debug` (quoted and escaped).
#[verifier::external_body]
fn debug_quoted(s: &str) -> (r: String)
    ensures
        r@ == str_debug(s@),
{
    format!("{s:?}")
}

pub open spec fn part_count_message(n: nat, mv: Seq<char>) -> Seq<char> {
    "moduleVersion must have exactly 4 dot-separated parts, got "@ + decimal(n) + " in "@
        + str_debug(mv)
}

pub open spec fn empty_part_message(i: nat, mv: Seq<char>) -> Seq<char> {
    "moduleVersion part "@ + decimal(i) + " is empty in "@ + str_debug(mv)
}

pub open spec fn range_part_message(i: nat, part: Seq<char>, mv: Seq<char>) -> Seq<char> {
    "moduleVersion part "@ + decimal(i) + " ("@ + str_debug(part)
        + ") must be a non-negative integer that fits in 16 bits (0..=65535) in "@ + str_debug(mv)
}

/// The first problem among parts `i..4`, if any.
pub open spec fn part_error(parts: Seq<Seq<char>>, i: nat, mv: Seq<char>) -> Option<Seq<char>>
    decreases 4 - i,
{
    if i >= 4 {
        None
    } else if parts[i as int].len() == 0 {
        Some(empty_part_message(i, mv))
    } else if !parses_as_u16(parts[i as int]) {
        Some(range_part_message(i, parts[i as int], mv))
    } else {
        part_error(parts, i + 1, mv)
    }
}

/// Why `mv` is not a valid module version, if it is not: it must be four
/// dot-separated parts, each a `u16`.
pub open spec fn module_version_error(mv: Seq<char>) -> Option<Seq<char>> {
    let parts = split_on(mv, '.');
    if parts.len() != 4 {
        Some(part_count_message(parts.len(), mv))
    } else {
        part_error(parts, 0, mv)
    }
}

/// Validates that `module_version` is exactly four dot-separated numeric
/// parts, each of which fits in a `u16` (0..=65535).
pub fn validate_module_version(module_version: &str) -> (r: ModuleInfoResult<()>)
    ensures
        match module_version_error(module_version@) {
            None => r is Ok,
            Some(msg) => r matches Err(ModuleInfoError::MalformedJson(m)) && m@ == msg,
        },
{
    let parts = split_chars(module_version, '.', '.');
    if parts.len() != 4 {
        let mut m = String::from_str("moduleVersion must have exactly 4 dot-separated parts, got ");
        push_decimal(&mut m, parts.len());
        m.append(" in ");
        let q = debug_quoted(module_version);
        m.append(q.as_str());
        return Err(ModuleInfoError::MalformedJson(m));
    }
    let ghost all = split_on(module_version@, '.');
    let mut i: usize = 0;
    while i < 4
        invariant
            parts@.len() == 4,
            all.len() == 4,
            forall|j: int| 0 <= j < 4 ==> #[trigger] parts@[j]@ == all[j],
            i <= 4,
            module_version_error(module_version@) == part_error(all, i as nat, module_version@),
        decreases 4 - i,
    {
        let part = parts[i].as_str();
        if part.unicode_len() == 0 {
            let mut m = String::from_str("moduleVersion part ");
            push_decimal(&mut m, i);
            m.append(" is empty in ");
            let q = debug_quoted(module_version);
            m.append(q.as_str());
            return Err(ModuleInfoError::MalformedJson(m));
        }
        if !is_u16_text(part) {
            let mut m = String::from_str("moduleVersion part ");
            push_decimal(&mut m, i);
            m.append(" (");
            let qp = debug_quoted(part);
            m.append(qp.as_str());
            m.append(") must be a non-negative integer that fits in 16 bits (0..=65535) in ");
            let q = debug_quoted(module_version);
            m.append(q.as_str());
            return Err(ModuleInfoError::MalformedJson(m));
        }
        i = i + 1;
    }
    Ok(())
}

} // verus!

verus! {

pub open spec fn is_suffix_mark(c: char) -> bool {
    c == '-' || c == '+'
}

/// Position of the first `-` or `+` (the length when there is none).
pub open spec fn suffix_start(s: Seq<char>) -> nat
    decreases s.len(),
{
    if s.len() == 0 {
        0
    } else if is_suffix_mark(s[0]) {
        0
    } else {
        1 + suffix_start(s.drop_first())
    }
}

proof fn lemma_suffix_start(s: Seq<char>, k: int)
    requires
        0 <= k <= s.len(),
        forall|j: int| 0 <= j < k ==> !#[trigger] is_suffix_mark(s[j]),
        k == s.len() || is_suffix_mark(s[k]),
    ensures
        suffix_start(s) == k,
    decreases k,
{
    if k > 0 {
        assert(!is_suffix_mark(s[0]));
        let t = s.drop_first();
        assert forall|j: int| 0 <= j < k - 1 implies !#[trigger] is_suffix_mark(t[j]) by {
            assert(t[j] == s[j + 1]);
        }
        if k < s.len() {
            assert(t[k - 1] == s[k]);
        }
        lemma_suffix_start(t, k - 1);
    }
}

/// The numeric core of a version: everything before the first `-` or `+`.
pub open spec fn version_core(s: Seq<char>) -> Seq<char> {
    s.take(suffix_start(s) as int)
}

/// The dot-separated components of the core (none for an empty core).
pub open spec fn version_fields(s: Seq<char>) -> Seq<Seq<char>> {
    let core = version_core(s);
    if core.len() == 0 {
        Seq::empty()
    } else {
        split_on(core, '.')
    }
}

/// Component `i` of the normalized version: the `i`-th field, or `0`.
pub open spec fn version_part(s: Seq<char>, i: int) -> Seq<char> {
    if i < version_fields(s).len() {
        version_fields(s)[i]
    } else {
        seq!['0']
    }
}

/// The first `n` normalized components joined with dots.
pub open spec fn joined_parts(s: Seq<char>, n: nat) -> Seq<char>
    decreases n,
{
    if n == 0 {
        Seq::empty()
    } else if n == 1 {
        version_part(s, 0)
    } else {
        joined_parts(s, (n - 1) as nat) + seq!['.'] + version_part(s, n - 1)
    }
}

/// The pre-release / build suffix: everything from the first `-` or `+`.
pub open spec fn version_suffix(s: Seq<char>) -> Seq<char> {
    s.skip(suffix_start(s) as int)
}

/// Splits a version string into its numeric core and its suffix (from the
/// first `-` or `+`, empty when there is none).
pub fn split_version(version_str: &str) -> (r: (&str, &str))
    ensures
        r.0@ == version_core(version_str@),
        r.1@ == version_suffix(version_str@),
{
    let n = version_str.unicode_len();
    let mut k: usize = 0;
    while k < n
        invariant
            n == version_str@.len(),
            k <= n,
            forall|j: int| 0 <= j < k ==> !#[trigger] is_suffix_mark(version_str@[j]),
        ensures
            k == n || is_suffix_mark(version_str@[k as int]),
        decreases n - k,
    {
        let c = version_str.get_char(k);
        if c == '-' || c == '+' {
            break;
        }
        k = k + 1;
    }
    proof {
        lemma_suffix_start(version_str@, k as int);
    }
    let core = version_str.substring_char(0, k);
    let suffix = version_str.substring_char(k, n);
    proof {
        assert(core@ =~= version_core(version_str@));
        assert(suffix@ =~= version_suffix(version_str@));
    }
    (core, suffix)
}

/// Normalizes a dotted version string to exactly `parts` components: the
/// pre-release / build suffix (from the first `-` or `+`) is dropped,
/// missing components become `0`, extra components are cut.
pub fn format_version_parts(version_str: &str, parts: usize) -> (r: String)
    ensures
        r@ == joined_parts(version_str@, parts as nat),
{
    let (core, _suffix) = split_version(version_str);
    let k = core.unicode_len();
    let fields: Vec<String> = if k == 0 {
        Vec::new()
    } else {
        split_chars(core, '.', '.')
    };
    proof {
        assert(core@ =~= version_core(version_str@));
    }
    let mut out = String::new();
    let mut i: usize = 0;
    while i < parts
        invariant
            i <= parts,
            fields@.len() == version_fields(version_str@).len(),
            forall|j: int| 0 <= j < fields@.len() ==> #[trigger] fields@[j]@ == version_fields(version_str@)[j],
            out@ == joined_parts(version_str@, i as nat),
        decreases parts - i,
    {
        if i > 0 {
            push_char(&mut out, '.');
        }
        if i < fields.len() {
            out.append(fields[i].as_str());
        } else {
            push_char(&mut out, '0');
        }
        i = i + 1;
        proof {
            assert(out@ =~= joined_parts(version_str@, i as nat));
        }
    }
    out
}

} // verus!

verus! {

/// No segment produced by `split_by` contains a separator.
proof fn lemma_split_segments_clean(s: Seq<char>, a: char, b: char)
    ensures
        forall|i: int, j: int|
            0 <= i < split_by(s, a, b).len() && 0 <= j < split_by(s, a, b)[i].len() ==> #[trigger] split_by(s, a, b)[i][j]
                != a && split_by(s, a, b)[i][j] != b,
    decreases s.len(),
{
    if s.len() > 0 {
        lemma_split_segments_clean(s.drop_last(), a, b);
        lemma_split_nonempty(s.drop_last(), a, b);
    }
}

proof fn lemma_split_no_sep(s: Seq<char>, c: char)
    requires
        forall|j: int| 0 <= j < s.len() ==> #[trigger] s[j] != c,
    ensures
        split_on(s, c) == seq![s],
    decreases s.len(),
{
    if s.len() > 0 {
        lemma_split_no_sep(s.drop_last(), c);
        assert(s.last() == s[s.len() - 1]);
        assert(s.drop_last().push(s.last()) =~= s);
        assert(seq![s.drop_last()].update(0, s) =~= seq![s]);
    } else {
        assert(s =~= Seq::<char>::empty());
    }
}

proof fn lemma_split_concat(x: Seq<char>, y: Seq<char>, c: char)
    ensures
        split_on(x + seq![c] + y, c) == split_on(x, c) + split_on(y, c),
    decreases y.len(),
{
    lemma_split_nonempty(x, c, c);
    if y.len() == 0 {
        assert(x + seq![c] + y =~= x.push(c));
        assert((x.push(c)).drop_last() =~= x);
        assert(split_on(x, c).push(Seq::<char>::empty()) =~= split_on(x, c) + seq![Seq::<char>::empty()]);
    } else {
        let y0 = y.drop_last();
        lemma_split_concat(x, y0, c);
        lemma_split_nonempty(y0, c, c);
        let whole = x + seq![c] + y;
        assert(whole.drop_last() =~= x + seq![c] + y0);
        assert(whole.last() == y.last());
        let p = split_on(x, c);
        let q = split_on(y0, c);
        if y.last() == c {
            assert((p + q).push(Seq::<char>::empty()) =~= p + q.push(Seq::<char>::empty()));
        } else {
            assert((p + q).update((p + q).len() - 1, (p + q).last().push(y.last())) =~= p + q.update(
                q.len() - 1,
                q.last().push(y.last()),
            ));
        }
    }
}

proof fn lemma_version_part_clean(s: Seq<char>, i: int)
    requires
        0 <= i,
    ensures
        forall|j: int| 0 <= j < version_part(s, i).len() ==> #[trigger] version_part(s, i)[j] != '.',
{
    if i < version_fields(s).len() {
        lemma_split_segments_clean(version_core(s), '.', '.');
        assert(version_fields(s) == split_by(version_core(s), '.', '.'));
    }
}

/// `format_version_parts` yields exactly `n` dot-separated components:
/// the core's fields in order, `0` for each missing one, extras dropped.
pub proof fn lemma_version_parts_count(s: Seq<char>, n: nat)
    requires
        n >= 1,
    ensures
        split_on(joined_parts(s, n), '.') == Seq::new(n, |i: int| version_part(s, i)),
    decreases n,
{
    if n == 1 {
        lemma_version_part_clean(s, 0);
        lemma_split_no_sep(version_part(s, 0), '.');
        assert(seq![version_part(s, 0)] =~= Seq::new(1, |i: int| version_part(s, i)));
    } else {
        lemma_version_parts_count(s, (n - 1) as nat);
        lemma_version_part_clean(s, n - 1);
        lemma_split_no_sep(version_part(s, n - 1), '.');
        lemma_split_concat(joined_parts(s, (n - 1) as nat), version_part(s, n - 1), '.');
        assert(Seq::new((n - 1) as nat, |i: int| version_part(s, i)) + seq![version_part(s, n - 1)] =~= Seq::new(
            n,
            |i: int| version_part(s, i),
        ));
    }
}

} // verus!
