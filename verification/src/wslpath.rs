//! Remapping of native drive-letter paths to the POSIX-style convention
//! of a secondary environment sharing the same file system.

use vstd::prelude::*;
use vstd::string::*;

verus! {

/// ASCII upper-case letters map to their lower-case forms; every other
/// character is unchanged.
pub open spec fn lower_char_spec(c: char) -> char {
    if 65 <= c as int && c as int <= 90 {
        ((c as int) + 32) as char
    } else {
        c
    }
}

/// Lower-cases one ASCII letter.
fn lower_char(c: char) -> (r: char)
    ensures
        r == lower_char_spec(c),
{
    let v = c as u32;
    if 65 <= v && v <= 90 {
        ((v + 32) as u8) as char
    } else {
        c
    }
}

/// Every backslash replaced by a forward slash.
pub open spec fn replace_backslashes(s: Seq<char>) -> Seq<char> {
    s.map(|_i: int, c: char| if c == '\\' {
        '/'
    } else {
        c
    })
}

/// At most one leading forward slash removed.
pub open spec fn strip_one_leading_slash(s: Seq<char>) -> Seq<char> {
    if s.len() > 0 && s[0] == '/' {
        s.subrange(1, s.len() as int)
    } else {
        s
    }
}

/// Whether a character can stand as a drive letter: an ASCII letter.
pub open spec fn is_ascii_letter(c: char) -> bool {
    (65 <= c as int && c as int <= 90) || (97 <= c as int && c as int <= 122)
}

/// Whether a character can stand as a drive letter.
fn is_drive_letter(c: char) -> (r: bool)
    ensures
        r == is_ascii_letter(c),
{
    let v = c as u32;
    (65 <= v && v <= 90) || (97 <= v && v <= 122)
}

/// Leading double-quote characters removed.
pub open spec fn trim_leading_quotes(s: Seq<char>) -> Seq<char>
    decreases s.len(),
{
    if s.len() > 0 && s[0] == '"' {
        trim_leading_quotes(s.subrange(1, s.len() as int))
    } else {
        s
    }
}

/// Trailing double-quote characters removed.
pub open spec fn trim_trailing_quotes(s: Seq<char>) -> Seq<char>
    decreases s.len(),
{
    if s.len() > 0 && s[s.len() - 1] == '"' {
        trim_trailing_quotes(s.subrange(0, s.len() - 1))
    } else {
        s
    }
}

/// Double-quote characters removed from both ends.
pub open spec fn trim_quotes(s: Seq<char>) -> Seq<char> {
    trim_trailing_quotes(trim_leading_quotes(s))
}

/// The `/mnt/<lower-case drive letter>/` prefix of a remapped path.
pub open spec fn mnt_prefix_spec(drive: char) -> Seq<char> {
    seq!['/', 'm', 'n', 't', '/', lower_char_spec(drive), '/']
}

/// The remapped form of a native path: after stripping surrounding
/// quotes, a path with a drive-letter prefix (an ASCII letter and a
/// colon) becomes `/mnt/<letter>/<rest>` with every separator replaced
/// and a single leading separator of the remainder dropped; anything
/// else is unmappable and becomes the empty string.
pub open spec fn wsl_path_spec(input: Seq<char>) -> Seq<char> {
    let t = trim_quotes(input);
    if t.len() >= 3 && is_ascii_letter(t[0]) && t[1] == ':' && t[2] == '\\' {
        mnt_prefix_spec(t[0]) + strip_one_leading_slash(
            replace_backslashes(t.subrange(3, t.len() as int)),
        )
    } else if t.len() >= 3 && is_ascii_letter(t[0]) && t[1] == ':' {
        mnt_prefix_spec(t[0]) + strip_one_leading_slash(
            replace_backslashes(t.subrange(2, t.len() as int)),
        )
    } else {
        Seq::empty()
    }
}

/// Relies on `String::push`: appends exactly the given character.
#[verifier::external_body]
fn push_char(s: &mut String, c: char)
    ensures
        final(s)@ == old(s)@.push(c),
{
    s.push(c);
}

/// A quote prefix of length `k` means the leading-quote trim keeps
/// exactly the suffix from `k` on.
proof fn lemma_trim_leading_quotes_at(s: Seq<char>, k: int)
    requires
        0 <= k <= s.len(),
        forall|j: int| 0 <= j < k ==> s[j] == '"',
        k == s.len() || s[k] != '"',
    ensures
        trim_leading_quotes(s) == s.subrange(k, s.len() as int),
    decreases k,
{
    if k == 0 {
        assert(s.subrange(0, s.len() as int) =~= s);
    } else {
        lemma_trim_leading_quotes_at(s.subrange(1, s.len() as int), k - 1);
        assert(s.subrange(1, s.len() as int).subrange(k - 1, s.len() - 1) =~= s.subrange(
            k,
            s.len() as int,
        ));
    }
}

/// A quote suffix starting at `e` means the trailing-quote trim keeps
/// exactly the prefix up to `e`.
proof fn lemma_trim_trailing_quotes_at(s: Seq<char>, e: int)
    requires
        0 <= e <= s.len(),
        forall|j: int| e <= j < s.len() ==> s[j] == '"',
        e == 0 || s[e - 1] != '"',
    ensures
        trim_trailing_quotes(s) == s.subrange(0, e),
    decreases s.len() - e,
{
    if e == s.len() {
        if e == 0 {
            assert(s.subrange(0, 0) =~= s);
        } else {
            assert(s.subrange(0, s.len() as int) =~= s);
        }
    } else {
        lemma_trim_trailing_quotes_at(s.subrange(0, s.len() - 1), e);
        assert(s.subrange(0, s.len() - 1).subrange(0, e) =~= s.subrange(0, e));
    }
}

/// Whether a character is one of the two path separators.
fn is_separator(c: char) -> (r: bool)
    ensures
        r == (c == '\\' || c == '/'),
{
    c == '\\' || c == '/'
}

/// Maps a native absolute path to its remapped form. A path whose (quote
/// stripped) text starts with a drive letter and a colon becomes
/// `/mnt/<lower-case letter>/<rest>` with every backslash turned into a
/// forward slash and a single leading separator of the remainder
/// dropped; a path with no drive-letter pattern yields the empty string,
/// signalling that it cannot be remapped.
pub fn convert_path_to_wsl(path_str: &str) -> (r: String)
    ensures
        r@ == wsl_path_spec(path_str@),
{
    let ghost s = path_str@;
    let n = path_str.unicode_len();

    let mut start: usize = 0;
    while start < n && path_str.get_char(start) == '"'
        invariant
            start <= n,
            n == s.len(),
            s == path_str@,
            forall|j: int| 0 <= j < start ==> s[j] == '"',
        decreases n - start,
    {
        start = start + 1;
    }

    let mut end: usize = n;
    while end > start && path_str.get_char(end - 1) == '"'
        invariant
            start <= end <= n,
            n == s.len(),
            s == path_str@,
            forall|j: int| 0 <= j < start ==> s[j] == '"',
            start == n || s[start as int] != '"',
            forall|j: int| end <= j < n ==> s[j] == '"',
        decreases end,
    {
        end = end - 1;
    }

    let ghost t = trim_quotes(s);
    proof {
        lemma_trim_leading_quotes_at(s, start as int);
        let lead = s.subrange(start as int, n as int);
        if end == start {
            lemma_trim_trailing_quotes_at(lead, 0);
        } else {
            lemma_trim_trailing_quotes_at(lead, end - start);
        }
        assert(lead.subrange(0, end - start) =~= s.subrange(start as int, end as int));
        assert(t == s.subrange(start as int, end as int));
    }

    let trimmed = path_str.substring_char(start, end);
    proof {
        assert(trimmed@ =~= t);
    }
    let tl = end - start;

    if tl < 3 {
        return String::new();
    }
    if !is_drive_letter(trimmed.get_char(0)) {
        return String::new();
    }
    if trimmed.get_char(1) != ':' {
        return String::new();
    }

    let k: usize = if trimmed.get_char(2) == '\\' {
        3
    } else {
        2
    };

    let drive = trimmed.get_char(0);
    let mut out = String::from_str("/mnt/");
    proof {
        reveal_strlit("/mnt/");
    }
    push_char(&mut out, lower_char(drive));
    push_char(&mut out, '/');
    proof {
        assert(out@ =~= mnt_prefix_spec(t[0]));
    }

    let ghost tail = t.subrange(k as int, tl as int);
    let ghost replaced = replace_backslashes(tail);

    let mut base: usize = k;
    if base < tl && is_separator(trimmed.get_char(base)) {
        base = base + 1;
    }

    proof {
        if base > k {
            assert(tail[0] == '\\' || tail[0] == '/');
            assert(replaced[0] == '/');
            assert(replaced.subrange(1, replaced.len() as int) =~= replace_backslashes(
                t.subrange(base as int, tl as int),
            ));
        } else {
            if k < tl {
                assert(tail[0] != '\\' && tail[0] != '/');
                assert(replaced[0] != '/');
            }
            assert(replaced =~= replace_backslashes(t.subrange(base as int, tl as int)));
        }
        assert(strip_one_leading_slash(replaced) == replace_backslashes(
            t.subrange(base as int, tl as int),
        ));
    }
    let mut j: usize = base;
    while j < tl
        invariant
            base <= j <= tl,
            tl == t.len(),
            trimmed@ == t,
            out@ == mnt_prefix_spec(t[0]) + replace_backslashes(
                t.subrange(base as int, j as int),
            ),
        decreases tl - j,
    {
        let c = trimmed.get_char(j);
        let mapped = if c == '\\' {
            '/'
        } else {
            c
        };
        push_char(&mut out, mapped);
        proof {
            assert(replace_backslashes(t.subrange(base as int, j + 1)) =~= replace_backslashes(
                t.subrange(base as int, j as int),
            ).push(mapped));
        }
        j = j + 1;
    }

    proof {
        assert(out@ == mnt_prefix_spec(t[0]) + strip_one_leading_slash(replaced));
    }
    out
}

} // verus!
