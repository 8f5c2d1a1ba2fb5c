//! Text utilities for field extraction: whitespace normalization and
//! URL handling over plain characters.

use vstd::prelude::*;

verus! {

/// Characters treated as blank when text is normalized.
pub open spec fn is_blank(c: char) -> bool {
    c == ' ' || c == '\t' || c == '\n' || c == '\r'
}

/// One step of whitespace normalization: fold the next character into the
/// output built so far. `pending` records that a blank was seen after some
/// output and no space has been emitted for it yet.
pub open spec fn norm_step(acc: Seq<char>, pending: bool, c: char) -> (Seq<char>, bool) {
    if is_blank(c) {
        (acc, acc.len() > 0)
    } else if pending {
        (acc.push(' ').push(c), false)
    } else {
        (acc.push(c), false)
    }
}

/// The first `i` characters of `s`, folded through `norm_step`.
pub open spec fn norm_fold(s: Seq<char>, i: int) -> (Seq<char>, bool)
    decreases i,
{
    if i <= 0 {
        (Seq::empty(), false)
    } else {
        let prev = norm_fold(s, i - 1);
        norm_step(prev.0, prev.1, s[i - 1])
    }
}

/// Whitespace-normalized text: runs of blanks collapse to a single space,
/// leading and trailing blanks are dropped.
pub open spec fn normalize_ws_spec(s: Seq<char>) -> Seq<char> {
    norm_fold(s, s.len() as int).0
}

fn is_blank_char(c: char) -> (r: bool)
    ensures
        r == is_blank(c),
{
    c == ' ' || c == '\t' || c == '\n' || c == '\r'
}

/// Relies on `String::from_iter` over `char`: the resulting string holds
/// exactly the characters of the vector, in order.
#[verifier::external_body]
fn chars_to_string(v: &Vec<char>) -> (r: String)
    ensures
        r@ == v@,
{
    v.iter().collect()
}

/// Collapse runs of blanks to one space and trim the ends.
pub fn normalize_ws(s: &str) -> (r: String)
    ensures
        r@ == normalize_ws_spec(s@),
{
    let n = s.unicode_len();
    let mut out: Vec<char> = Vec::new();
    let mut pending = false;
    let mut i: usize = 0;
    while i < n
        invariant
            i <= n,
            n == s@.len(),
            (out@, pending) == norm_fold(s@, i as int),
        decreases n - i,
    {
        let c = s.get_char(i);
        if is_blank_char(c) {
            if out.len() > 0 {
                pending = true;
            }
        } else {
            if pending {
                out.push(' ');
            }
            out.push(c);
            pending = false;
        }
        i = i + 1;
    }
    chars_to_string(&out)
}

/// `p` is a prefix of `s`.
pub open spec fn has_prefix(s: Seq<char>, p: Seq<char>) -> bool {
    p.len() <= s.len() && s.subrange(0, p.len() as int) == p
}

/// Character-by-character string equality.
pub fn str_eq(a: &str, b: &str) -> (r: bool)
    ensures
        r == (a@ == b@),
{
    let an = a.unicode_len();
    let bn = b.unicode_len();
    if an != bn {
        return false;
    }
    let mut i: usize = 0;
    while i < an
        invariant
            i <= an,
            an == a@.len(),
            an == b@.len(),
            forall|j: int| 0 <= j < i ==> a@[j] == b@[j],
        decreases an - i,
    {
        if a.get_char(i) != b.get_char(i) {
            return false;
        }
        i = i + 1;
    }
    proof {
        assert(a@ =~= b@);
    }
    true
}

/// Whether `s` starts with `p`.
pub fn starts_with_str(s: &str, p: &str) -> (r: bool)
    ensures
        r == has_prefix(s@, p@),
{
    let sn = s.unicode_len();
    let pn = p.unicode_len();
    if pn > sn {
        return false;
    }
    let mut i: usize = 0;
    while i < pn
        invariant
            i <= pn,
            pn <= sn,
            sn == s@.len(),
            pn == p@.len(),
            forall|j: int| 0 <= j < i ==> s@[j] == p@[j],
        decreases pn - i,
    {
        if s.get_char(i) != p.get_char(i) {
            proof {
                assert(s@.subrange(0, pn as int)[i as int] == s@[i as int]);
            }
            return false;
        }
        i = i + 1;
    }
    proof {
        assert(s@.subrange(0, pn as int) =~= p@);
    }
    true
}

/// The number of characters of `s` before the first occurrence of `c`
/// (the length of `s` when `c` does not occur).
pub open spec fn until_char(s: Seq<char>, c: char) -> int
    decreases s.len(),
{
    if s.len() == 0 {
        0
    } else if s[0] == c {
        0
    } else {
        1 + until_char(s.drop_first(), c)
    }
}

/// `until_char` is the position of the first occurrence of `c`, or the
/// length of the sequence when `c` does not occur.
pub proof fn lemma_until_char(s: Seq<char>, c: char)
    ensures
        0 <= until_char(s, c) <= s.len(),
        until_char(s, c) < s.len() ==> s[until_char(s, c)] == c,
        forall|j: int| 0 <= j < until_char(s, c) ==> s[j] != c,
    decreases s.len(),
{
    if s.len() != 0 && s[0] != c {
        lemma_until_char(s.drop_first(), c);
        assert forall|j: int| 0 <= j < until_char(s, c) implies s[j] != c by {
            if j > 0 {
                assert(s.drop_first()[j - 1] == s[j]);
            }
        }
    }
}

/// The prefix of `s` before the first occurrence of `c`.
pub open spec fn before_char(s: Seq<char>, c: char) -> Seq<char> {
    s.take(until_char(s, c))
}

/// The position of the first occurrence of `c` in `s`, or the length of
/// `s` when `c` does not occur.
pub fn find_char(s: &str, c: char) -> (i: usize)
    ensures
        i as int == until_char(s@, c),
{
    let n = s.unicode_len();
    let mut i: usize = 0;
    while i < n
        invariant
            i <= n,
            n == s@.len(),
            forall|j: int| 0 <= j < i ==> s@[j] != c,
        decreases n - i,
    {
        if s.get_char(i) == c {
            proof {
                lemma_until_char(s@, c);
            }
            return i;
        }
        i = i + 1;
    }
    proof {
        lemma_until_char(s@, c);
    }
    n
}

/// The prefix of `s` before the first occurrence of `c`, as a new string.
pub fn take_before_char(s: &str, c: char) -> (r: String)
    ensures
        r@ == before_char(s@, c),
{
    let i = find_char(s, c);
    proof {
        lemma_until_char(s@, c);
    }
    let pre = s.substring_char(0, i);
    proof {
        assert(pre@ =~= before_char(s@, c));
    }
    pre.to_owned()
}

/// The first whitespace-separated candidate of a source-set value.
pub open spec fn first_word_spec(s: Seq<char>) -> Seq<char> {
    before_char(s, ' ')
}

/// The first whitespace-separated candidate of a source-set value: when a
/// responsive image lists several sources, the first one is canonical.
pub fn first_word(s: &str) -> (r: String)
    ensures
        r@ == first_word_spec(s@),
{
    take_before_char(s, ' ')
}

/// The length of the directory prefix of `s`: everything up to and
/// including the last `/`, or nothing when `s` holds no `/`.
pub open spec fn dir_len(s: Seq<char>) -> int
    decreases s.len(),
{
    if s.len() == 0 {
        0
    } else if s[s.len() - 1] == '/' {
        s.len() as int
    } else {
        dir_len(s.drop_last())
    }
}

/// `dir_len` ends just after the last `/` of the sequence.
pub proof fn lemma_dir_len(s: Seq<char>)
    ensures
        0 <= dir_len(s) <= s.len(),
        dir_len(s) > 0 ==> s[dir_len(s) - 1] == '/',
        forall|j: int| dir_len(s) <= j < s.len() ==> s[j] != '/',
    decreases s.len(),
{
    if s.len() != 0 && s[s.len() - 1] != '/' {
        lemma_dir_len(s.drop_last());
        assert forall|j: int| dir_len(s) <= j < s.len() implies s[j] != '/' by {
            if j < s.len() - 1 {
                assert(s.drop_last()[j] == s[j]);
            }
        }
    }
}

/// The directory prefix of `s`.
pub open spec fn dir_of(s: Seq<char>) -> Seq<char> {
    s.take(dir_len(s))
}

/// The directory prefix of `s`, as a new string.
pub fn dir_prefix(s: &str) -> (r: String)
    ensures
        r@ == dir_of(s@),
{
    let n = s.unicode_len();
    let mut i: usize = n;
    while i > 0
        invariant
            i <= n,
            n == s@.len(),
            forall|j: int| i <= j < n ==> s@[j] != '/',
        decreases i,
    {
        if s.get_char(i - 1) == '/' {
            proof {
                lemma_dir_len(s@);
                if dir_len(s@) < i {
                    assert(s@[i - 1] != '/');
                }
            }
            let pre = s.substring_char(0, i);
            proof {
                assert(pre@ =~= dir_of(s@));
            }
            return pre.to_owned();
        }
        i = i - 1;
    }
    proof {
        lemma_dir_len(s@);
        if dir_len(s@) > 0 {
            assert(s@[dir_len(s@) - 1] != '/');
        }
        assert(dir_of(s@) =~= Seq::<char>::empty());
    }
    String::new()
}

/// Concatenation of two strings.
pub fn concat2(a: &str, b: &str) -> (r: String)
    ensures
        r@ == a@ + b@,
{
    let s = String::from_str(a);
    s.concat(b)
}

/// A letter, as a URI scheme must start with one.
pub open spec fn is_alpha(c: char) -> bool {
    ('a' <= c && c <= 'z') || ('A' <= c && c <= 'Z')
}

/// A character allowed inside a URI scheme: a letter, a digit, `+`, `-`
/// or `.`.
pub open spec fn is_scheme_char(c: char) -> bool {
    is_alpha(c) || ('0' <= c && c <= '9') || c == '+' || c == '-' || c == '.'
}

/// The value starts with a URI scheme: a letter, then scheme characters,
/// then `:`.
pub open spec fn has_scheme(s: Seq<char>) -> bool {
    exists|i: int|
        1 <= i < s.len() && #[trigger] s[i] == ':' && is_alpha(s[0]) && (forall|j: int|
            0 <= j < i ==> is_scheme_char(#[trigger] s[j]))
}

fn is_scheme_char_exec(c: char) -> (r: bool)
    ensures
        r == is_scheme_char(c),
{
    ('a' <= c && c <= 'z') || ('A' <= c && c <= 'Z') || ('0' <= c && c <= '9') || c == '+' || c
        == '-' || c == '.'
}

/// Whether the value starts with a URI scheme.
pub fn str_has_scheme(s: &str) -> (r: bool)
    ensures
        r == has_scheme(s@),
{
    let n = s.unicode_len();
    if n == 0 {
        return false;
    }
    let c0 = s.get_char(0);
    if !(('a' <= c0 && c0 <= 'z') || ('A' <= c0 && c0 <= 'Z')) {
        return false;
    }
    let mut i: usize = 0;
    while i < n
        invariant
            i <= n,
            n == s@.len(),
            n > 0,
            is_alpha(s@[0]),
            forall|j: int| 0 <= j < i ==> is_scheme_char(#[trigger] s@[j]) && s@[j] != ':',
        decreases n - i,
    {
        let c = s.get_char(i);
        if c == ':' {
            proof {
                assert(i >= 1);
                assert(s@[i as int] == ':' && is_alpha(s@[0]) && (forall|j: int|
                    0 <= j < i ==> is_scheme_char(#[trigger] s@[j])));
            }
            return true;
        }
        if !is_scheme_char_exec(c) {
            proof {
                assert forall|k: int|
                    1 <= k < s@.len() && s@[k] == ':' implies !(forall|j: int|
                    0 <= j < k ==> is_scheme_char(#[trigger] s@[j])) by {
                    if k > i {
                        assert(!is_scheme_char(s@[i as int]));
                    } else {
                        assert(s@[k] != ':');
                    }
                }
            }
            return false;
        }
        i = i + 1;
    }
    proof {
        assert forall|k: int| 1 <= k < s@.len() implies s@[k] != ':' by {
            assert(s@[k] != ':');
        }
    }
    false
}

/// A raw URL value that already looks absolute: it starts with a scheme
/// or with `/`.
pub open spec fn is_absolute_spec(s: Seq<char>) -> bool {
    (s.len() > 0 && s[0] == '/') || has_scheme(s)
}

/// Whether a raw URL value already looks absolute.
pub fn is_absolute(s: &str) -> (r: bool)
    ensures
        r == is_absolute_spec(s@),
{
    if s.unicode_len() > 0 {
        if s.get_char(0) == '/' {
            return true;
        }
    }
    str_has_scheme(s)
}

/// Field-URL resolution: a value that already looks absolute is kept; any
/// other value is resolved against the configured base origin.
pub open spec fn resolve_field_spec(base: Seq<char>, raw: Seq<char>) -> Seq<char> {
    if is_absolute_spec(raw) {
        raw
    } else {
        base + seq!['/'] + raw
    }
}

/// Resolve an extracted URL field against the configured base origin,
/// unless the raw value already looks absolute.
pub fn resolve_field_url(base: &str, raw: &str) -> (r: String)
    ensures
        r@ == resolve_field_spec(base@, raw@),
{
    if is_absolute(raw) {
        raw.to_owned()
    } else {
        proof {
            reveal_strlit("/");
            assert("/"@ =~= seq!['/']);
        }
        let s = concat2(base, "/");
        let r = s.concat(raw);
        proof {
            assert(r@ =~= base@ + seq!['/'] + raw@);
        }
        r
    }
}

/// Reference resolution policy: a target with a scheme is kept; a
/// site-relative target (leading `/`) is joined to the base origin; a
/// query-only target (leading `?`) replaces the query of the current page
/// URL; anything else is joined to the directory of the current page URL.
pub open spec fn resolve_ref_spec(base: Seq<char>, page: Seq<char>, raw: Seq<char>) -> Seq<char> {
    if has_scheme(raw) {
        raw
    } else if raw.len() > 0 && raw[0] == '/' {
        base + raw
    } else if raw.len() > 0 && raw[0] == '?' {
        before_char(page, '?') + raw
    } else {
        dir_of(page) + raw
    }
}

/// Resolve a reference target found on the page at `page` against the
/// configured base origin, following the documented policy.
pub fn resolve_reference_url(base: &str, page: &str, raw: &str) -> (r: String)
    ensures
        r@ == resolve_ref_spec(base@, page@, raw@),
{
    if str_has_scheme(raw) {
        raw.to_owned()
    } else if raw.unicode_len() > 0 && raw.get_char(0) == '/' {
        concat2(base, raw)
    } else if raw.unicode_len() > 0 && raw.get_char(0) == '?' {
        let pre = take_before_char(page, '?');
        let r = pre.concat(raw);
        r
    } else {
        let pre = dir_prefix(page);
        let r = pre.concat(raw);
        r
    }
}

/// The normalized form of a resolved URL: a single trailing `/` is
/// dropped, so that two spellings of one page share a visited-set key.
pub open spec fn strip_slash_spec(s: Seq<char>) -> Seq<char> {
    if s.len() > 0 && s[s.len() - 1] == '/' {
        s.drop_last()
    } else {
        s
    }
}

/// Normalize a resolved URL for visited-set keying.
pub fn normalize_key(s: &str) -> (r: String)
    ensures
        r@ == strip_slash_spec(s@),
{
    let n = s.unicode_len();
    if n > 0 && s.get_char(n - 1) == '/' {
        let pre = s.substring_char(0, n - 1);
        proof {
            assert(pre@ =~= strip_slash_spec(s@));
        }
        pre.to_owned()
    } else {
        s.to_owned()
    }
}

} // verus!
