use vstd::prelude::*;

use crate::error::{ModuleInfoError, ModuleInfoResult};
use crate::text::{decimal, push_char, push_decimal};
use crate::version::{split_by, split_chars, split_on};

verus! {

/// The lines of `s` as `str::lines` yields them for matching purposes: the
/// `\n`-separated pieces, each but the last without one trailing `\r` (a
/// trailing empty piece is kept; it matches no key).
pub open spec fn text_lines(s: Seq<char>) -> Seq<Seq<char>> {
    let pieces = split_on(s, '\n');
    Seq::new(
        pieces.len(),
        |i: int|
            if i + 1 < pieces.len() && pieces[i].len() > 0 && pieces[i].last() == '\r' {
                pieces[i].drop_last()
            } else {
                pieces[i]
            },
    )
}

pub open spec fn starts_with(s: Seq<char>, p: Seq<char>) -> bool {
    s.len() >= p.len() && s.take(p.len() as int) == p
}

/// `s` with every repetition of the non-empty prefix `p` removed
/// (`str::trim_start_matches`).
pub open spec fn strip_prefixes(s: Seq<char>, p: Seq<char>) -> Seq<char>
    decreases s.len(),
{
    if p.len() > 0 && starts_with(s, p) {
        strip_prefixes(s.skip(p.len() as int), p)
    } else {
        s
    }
}

pub open spec fn strip_leading_quotes(s: Seq<char>) -> Seq<char>
    decreases s.len(),
{
    if s.len() > 0 && s[0] == '"' {
        strip_leading_quotes(s.drop_first())
    } else {
        s
    }
}

pub open spec fn strip_trailing_quotes(s: Seq<char>) -> Seq<char>
    decreases s.len(),
{
    if s.len() > 0 && s.last() == '"' {
        strip_trailing_quotes(s.drop_last())
    } else {
        s
    }
}

/// `s` without leading and trailing `"` (`str::trim_matches('"')`).
pub open spec fn unquoted(s: Seq<char>) -> Seq<char> {
    strip_trailing_quotes(strip_leading_quotes(s))
}

/// The value of an `os-release` assignment line for key prefix `p`.
pub open spec fn assigned_value(line: Seq<char>, p: Seq<char>) -> Seq<char> {
    unquoted(strip_prefixes(line, p))
}

/// The `ID` and `VERSION_ID` values after the first `n` lines (the last
/// assignment of each wins; empty when never assigned).
pub open spec fn os_ids(lines: Seq<Seq<char>>, n: nat) -> (Seq<char>, Seq<char>)
    decreases n,
{
    if n == 0 {
        (Seq::empty(), Seq::empty())
    } else {
        let prev = os_ids(lines, (n - 1) as nat);
        let l = lines[n - 1];
        if starts_with(l, "ID="@) {
            (assigned_value(l, "ID="@), prev.1)
        } else if starts_with(l, "VERSION_ID="@) {
            (prev.0, assigned_value(l, "VERSION_ID="@))
        } else {
            prev
        }
    }
}

/// `(os, os_version)` from the text of `/etc/os-release`: its `ID` and
/// `VERSION_ID` (`"Unknown"` when it names no non-empty `VERSION_ID`), or
/// `("Linux", "Unknown")` when the file could not be opened or names no
/// `ID`. Both values are therefore never empty.
pub open spec fn distro_of(content: Option<Seq<char>>) -> (Seq<char>, Seq<char>) {
    match content {
        Some(c) => {
            let ids = os_ids(text_lines(c), text_lines(c).len());
            if ids.0.len() > 0 {
                if ids.1.len() > 0 {
                    ids
                } else {
                    (ids.0, "Unknown"@)
                }
            } else {
                ("Linux"@, "Unknown"@)
            }
        },
        None => ("Linux"@, "Unknown"@),
    }
}

/// The value assigned by the last of the first `n` lines that starts with
/// `p` (`None` when no such line).
pub open spec fn last_assignment(lines: Seq<Seq<char>>, p: Seq<char>, n: nat) -> Option<Seq<char>>
    decreases n,
{
    if n == 0 {
        None
    } else if starts_with(lines[n - 1], p) {
        Some(assigned_value(lines[n - 1], p))
    } else {
        last_assignment(lines, p, (n - 1) as nat)
    }
}

pub open spec fn value_or_empty(v: Option<Seq<char>>) -> Seq<char> {
    match v {
        Some(x) => x,
        None => Seq::empty(),
    }
}

proof fn lemma_keys_exclusive(l: Seq<char>)
    ensures
        !(starts_with(l, "ID="@) && starts_with(l, "VERSION_ID="@)),
{
    reveal_strlit("ID=");
    reveal_strlit("VERSION_ID=");
    if starts_with(l, "ID="@) && starts_with(l, "VERSION_ID="@) {
        assert(l.take(3)[0] == 'I');
        assert(l.take(11)[0] == 'V');
    }
}

/// Each key reads independently of the other: the OS name is the value of
/// the last `ID=` line and the version that of the last `VERSION_ID=` line,
/// however the two kinds of lines are interleaved.
pub proof fn lemma_os_ids_last_assignment(lines: Seq<Seq<char>>, n: nat)
    requires
        n <= lines.len(),
    ensures
        os_ids(lines, n).0 == value_or_empty(last_assignment(lines, "ID="@, n)),
        os_ids(lines, n).1 == value_or_empty(last_assignment(lines, "VERSION_ID="@, n)),
    decreases n,
{
    if n > 0 {
        lemma_os_ids_last_assignment(lines, (n - 1) as nat);
        lemma_keys_exclusive(lines[n - 1]);
    }
}

/// The distribution of an os-release text, by its last `ID=` and last
/// `VERSION_ID=` lines alone: the name is the `ID` value when non-empty
/// (else `("Linux", "Unknown")`), and the version the `VERSION_ID` value
/// when non-empty, else `"Unknown"`.
pub proof fn lemma_distro_by_last_lines(c: Seq<char>)
    ensures
        ({
            let lines = text_lines(c);
            let id = value_or_empty(last_assignment(lines, "ID="@, lines.len()));
            let ver = value_or_empty(last_assignment(lines, "VERSION_ID="@, lines.len()));
            distro_of(Some(c)) == if id.len() > 0 {
                (id, if ver.len() > 0 { ver } else { "Unknown"@ })
            } else {
                ("Linux"@, "Unknown"@)
            }
        }),
{
    lemma_os_ids_last_assignment(text_lines(c), text_lines(c).len());
}

fn starts_with_exec(s: &str, p: &str) -> (r: bool)
    ensures
        r == starts_with(s@, p@),
{
    let n = p.unicode_len();
    if s.unicode_len() < n {
        return false;
    }
    let mut i: usize = 0;
    while i < n
        invariant
            n == p@.len(),
            n <= s@.len(),
            i <= n,
            forall|j: int| 0 <= j < i ==> s@[j] == p@[j],
        decreases n - i,
    {
        if s.get_char(i) != p.get_char(i) {
            assert(s@.take(n as int)[i as int] != p@[i as int]);
            return false;
        }
        i = i + 1;
    }
    assert(s@.take(n as int) =~= p@);
    true
}

proof fn lemma_strip_prefixes_step(s: Seq<char>, p: Seq<char>, k: int)
    requires
        p.len() > 0,
        0 <= k <= s.len(),
        strip_prefixes(s, p) == strip_prefixes(s.skip(k), p),
        starts_with(s.skip(k), p),
    ensures
        strip_prefixes(s, p) == strip_prefixes(s.skip(k + p.len()), p),
{
    assert(s.skip(k).skip(p.len() as int) =~= s.skip(k + p.len()));
}

fn assigned_value_exec(line: &str, p: &str) -> (r: String)
    requires
        p@.len() > 0,
    ensures
        r@ == assigned_value(line@, p@),
{
    let n = line.unicode_len();
    let m = p.unicode_len();
    let mut k: usize = 0;
    proof {
        assert(line@.skip(0) =~= line@);
    }
    loop
        invariant
            n == line@.len(),
            m == p@.len(),
            m > 0,
            k <= n,
            strip_prefixes(line@, p@) == strip_prefixes(line@.skip(k as int), p@),
        ensures
            k <= n,
            strip_prefixes(line@, p@) == line@.skip(k as int),
        decreases n - k,
    {
        let rest = line.substring_char(k, n);
        assert(rest@ =~= line@.skip(k as int));
        if starts_with_exec(rest, p) {
            proof {
                lemma_strip_prefixes_step(line@, p@, k as int);
            }
            k = k + m;
        } else {
            assert(strip_prefixes(line@.skip(k as int), p@) == line@.skip(k as int));
            break;
        }
    }
    let mut lo = k;
    let mut hi = n;
    let ghost stripped = line@.skip(k as int);
    proof {
        assert(strip_prefixes(line@, p@) == stripped);
        assert(line@.subrange(k as int, n as int) =~= stripped);
    }
    while lo < hi && line.get_char(lo) == '"'
        invariant
            n == line@.len(),
            k <= lo <= hi <= n,
            hi == n,
            stripped == line@.skip(k as int),
            strip_leading_quotes(stripped) == strip_leading_quotes(line@.subrange(lo as int, hi as int)),
        decreases hi - lo,
    {
        assert(line@.subrange(lo as int, hi as int).drop_first() =~= line@.subrange(lo + 1, hi as int));
        lo = lo + 1;
    }
    let ghost lead = line@.subrange(lo as int, hi as int);
    proof {
        assert(strip_leading_quotes(stripped) == lead);
    }
    while lo < hi && line.get_char(hi - 1) == '"'
        invariant
            n == line@.len(),
            k <= lo <= hi <= n,
            strip_trailing_quotes(lead) == strip_trailing_quotes(line@.subrange(lo as int, hi as int)),
        decreases hi - lo,
    {
        assert(line@.subrange(lo as int, hi as int).drop_last() =~= line@.subrange(lo as int, hi - 1));
        hi = hi - 1;
    }
    let v = line.substring_char(lo, hi);
    String::from_str(v)
}

/// The largest `/etc/os-release` that is read, in bytes.
pub const MAX_OS_RELEASE_SIZE: usize = 10240;

pub open spec fn os_release_too_large_message() -> Seq<char> {
    "os-release file too large: exceeds "@ + decimal(MAX_OS_RELEASE_SIZE as nat) + " bytes"@
}

/// Accepts the text of `/etc/os-release`, read with a cap of one byte more
/// than `MAX_OS_RELEASE_SIZE` (`bytes_read` bytes came back): a file past
/// the limit is refused with `Other`.
pub fn accept_os_release(bytes_read: usize, text: String) -> (r: ModuleInfoResult<String>)
    ensures
        bytes_read > MAX_OS_RELEASE_SIZE ==> (r matches Err(ModuleInfoError::Other(m)) && m@
            == os_release_too_large_message()),
        bytes_read <= MAX_OS_RELEASE_SIZE ==> (r matches Ok(t) && t@ == text@),
{
    if bytes_read > MAX_OS_RELEASE_SIZE {
        let mut m = String::from_str("os-release file too large: exceeds ");
        push_decimal(&mut m, MAX_OS_RELEASE_SIZE);
        m.append(" bytes");
        Err(ModuleInfoError::Other(m))
    } else {
        Ok(text)
    }
}

/// Reads `(os, os_version)` from the text of `/etc/os-release` (`None`
/// when the file could not be opened): the last `ID=` and `VERSION_ID=`
/// lines, without their quotes; `"Unknown"` for the version when no
/// non-empty `VERSION_ID` is named, and `("Linux", "Unknown")` when no `ID`
/// is named.
pub fn distro_from_os_release(content: Option<&str>) -> (r: (String, String))
    ensures
        match content {
            Some(c) => {
                let lines = text_lines(c@);
                let id = value_or_empty(last_assignment(lines, "ID="@, lines.len()));
                let ver = value_or_empty(last_assignment(lines, "VERSION_ID="@, lines.len()));
                (r.0@, r.1@) == if id.len() > 0 {
                    (id, if ver.len() > 0 { ver } else { "Unknown"@ })
                } else {
                    ("Linux"@, "Unknown"@)
                }
            },
            None => r.0@ == "Linux"@ && r.1@ == "Unknown"@,
        },
        r.0@ == distro_of(match content {
            Some(c) => Some(c@),
            None => None,
        }).0,
        r.1@ == distro_of(match content {
            Some(c) => Some(c@),
            None => None,
        }).1,
{
    let c = match content {
        Some(c) => c,
        None => {
            return (String::from_str("Linux"), String::from_str("Unknown"));
        },
    };
    proof {
        lemma_distro_by_last_lines(c@);
    }
    let pieces = split_chars(c, '\n', '\n');
    let ghost lines = text_lines(c@);
    let mut name = String::new();
    let mut version = String::new();
    let mut i: usize = 0;
    while i < pieces.len()
        invariant
            pieces@.len() == split_on(c@, '\n').len(),
            forall|j: int| 0 <= j < pieces@.len() ==> #[trigger] pieces@[j]@ == split_on(c@, '\n')[j],
            lines == text_lines(c@),
            lines.len() == pieces@.len(),
            i <= pieces@.len(),
            name@ == os_ids(lines, i as nat).0,
            version@ == os_ids(lines, i as nat).1,
        decreases pieces@.len() - i,
    {
        let piece = pieces[i].as_str();
        let pn = piece.unicode_len();
        let line = if i + 1 < pieces.len() && pn > 0 && piece.get_char(pn - 1) == '\r' {
            piece.substring_char(0, pn - 1)
        } else {
            piece
        };
        proof {
            assert(line@ =~= lines[i as int]);
            reveal_strlit("ID=");
            reveal_strlit("VERSION_ID=");
        }
        if starts_with_exec(line, "ID=") {
            name = assigned_value_exec(line, "ID=");
        } else if starts_with_exec(line, "VERSION_ID=") {
            version = assigned_value_exec(line, "VERSION_ID=");
        }
        i = i + 1;
    }
    if name.unicode_len() > 0 {
        if version.unicode_len() > 0 {
            (name, version)
        } else {
            (name, String::from_str("Unknown"))
        }
    } else {
        (String::from_str("Linux"), String::from_str("Unknown"))
    }
}

} // verus!
