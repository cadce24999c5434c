//! Text helpers shared by the configuration, MIDI and mixer-command
//! logic: character extraction, equality, substring search, whitespace
//! trimming, and splitting, all specified over `Seq<char>`.

use vstd::prelude::*;
use vstd::string::StrSliceExecFns;
use vstd::string::StringExecFns;

verus! {

/// What `str::to_lowercase` returns for the characters of `s`.
pub uninterp spec fn lower_of(s: Seq<char>) -> Seq<char>;

/// Relies on `str::to_lowercase`: the result is a function of the
/// characters alone, and an empty string stays empty.
#[verifier::external_body]
pub fn fold_lower_chars(v: &Vec<char>) -> (r: Vec<char>)
    ensures
        r@ == lower_of(v@),
        v@.len() == 0 ==> r@.len() == 0,
{
    v.iter().collect::<String>().to_lowercase().chars().collect()
}

/// The characters of `s`, as a vector.
pub fn str_chars(s: &str) -> (r: Vec<char>)
    ensures
        r@ == s@,
{
    let n = s.unicode_len();
    let mut r: Vec<char> = Vec::new();
    let mut i: usize = 0;
    while i < n
        invariant
            i <= n,
            n == s@.len(),
            r@ =~= s@.take(i as int),
        decreases n - i,
    {
        r.push(s.get_char(i));
        proof {
            assert(r@ =~= s@.take(i + 1));
        }
        i += 1;
    }
    proof {
        assert(s@.take(n as int) =~= s@);
    }
    r
}

/// Whether two strings hold the same characters.
pub fn str_eq(a: &str, b: &str) -> (r: bool)
    ensures
        r == (a@ == b@),
{
    let la = a.unicode_len();
    let lb = b.unicode_len();
    if la != lb {
        return false;
    }
    let mut i: usize = 0;
    while i < la
        invariant
            i <= la,
            la == a@.len(),
            la == b@.len(),
            forall|j: int| 0 <= j < i ==> a@[j] == b@[j],
        decreases la - i,
    {
        if a.get_char(i) != b.get_char(i) {
            return false;
        }
        i += 1;
    }
    proof {
        assert(a@ =~= b@);
    }
    true
}

/// Whether `needle` occurs in `hay` starting at position `k`.
pub open spec fn matches_at<T>(hay: Seq<T>, needle: Seq<T>, k: int) -> bool {
    hay.subrange(k, k + needle.len() as int) == needle
}

/// Whether `needle` occurs anywhere in `hay` (an empty needle always
/// does, as with `str::contains`).
pub open spec fn contains_seq<T>(hay: Seq<T>, needle: Seq<T>) -> bool {
    exists|k: int| 0 <= k <= hay.len() - needle.len() && matches_at(hay, needle, k)
}

/// Substring search over character vectors.
pub fn contains_chars(hay: &Vec<char>, needle: &Vec<char>) -> (r: bool)
    ensures
        r == contains_seq(hay@, needle@),
{
    let nh = hay.len();
    let nn = needle.len();
    if nn > nh {
        return false;
    }
    let mut k: usize = 0;
    while k <= nh - nn
        invariant
            nn <= nh,
            nh == hay@.len(),
            nn == needle@.len(),
            k <= nh - nn + 1,
            forall|t: int| 0 <= t < k ==> !matches_at(hay@, needle@, t),
        decreases nh - nn - k + 1,
    {
        let mut j: usize = 0;
        while j < nn && hay[k + j] == needle[j]
            invariant
                j <= nn,
                k + nn <= nh,
                nh == hay@.len(),
                nn == needle@.len(),
                forall|t: int| 0 <= t < j ==> hay@[k + t] == needle@[t],
            decreases nn - j,
        {
            j += 1;
        }
        if j == nn {
            proof {
                assert(hay@.subrange(k as int, k + nn) =~= needle@);
                assert(matches_at(hay@, needle@, k as int));
            }
            return true;
        }
        proof {
            assert(hay@.subrange(k as int, k + nn) != needle@) by {
                assert(hay@.subrange(k as int, k + nn)[j as int] != needle@[j as int]);
            }
        }
        k += 1;
    }
    proof {
        assert(forall|t: int|
            0 <= t <= hay@.len() - needle@.len() ==> !matches_at(hay@, needle@, t));
    }
    false
}

/// Whether `c` has the White_Space property, as `char::is_whitespace`
/// reports it.
pub open spec fn is_unicode_ws(c: char) -> bool {
    let u = c as u32;
    u == 0x9 || u == 0xA || u == 0xB || u == 0xC || u == 0xD || u == 0x20 || u == 0x85 || u == 0xA0
        || u == 0x1680 || (0x2000 <= u <= 0x200A) || u == 0x2028 || u == 0x2029 || u == 0x202F
        || u == 0x205F || u == 0x3000
}

/// `s` without leading whitespace.
pub open spec fn trim_start_spec(s: Seq<char>) -> Seq<char>
    decreases s.len(),
{
    if s.len() > 0 && is_unicode_ws(s[0]) {
        trim_start_spec(s.drop_first())
    } else {
        s
    }
}

/// `s` without trailing whitespace.
pub open spec fn trim_end_spec(s: Seq<char>) -> Seq<char>
    decreases s.len(),
{
    if s.len() > 0 && is_unicode_ws(s.last()) {
        trim_end_spec(s.drop_last())
    } else {
        s
    }
}

/// `s` without leading and trailing whitespace, as `str::trim` cuts it.
pub open spec fn trim_spec(s: Seq<char>) -> Seq<char> {
    trim_end_spec(trim_start_spec(s))
}

fn is_ws_char(c: char) -> (r: bool)
    ensures
        r == is_unicode_ws(c),
{
    let u = c as u32;
    u == 0x9 || u == 0xA || u == 0xB || u == 0xC || u == 0xD || u == 0x20 || u == 0x85 || u == 0xA0
        || u == 0x1680 || (0x2000 <= u && u <= 0x200A) || u == 0x2028 || u == 0x2029 || u == 0x202F
        || u == 0x205F || u == 0x3000
}

proof fn lemma_trim_start_skip(s: Seq<char>, a: int)
    requires
        0 <= a <= s.len(),
        forall|j: int| 0 <= j < a ==> is_unicode_ws(#[trigger] s[j]),
        a < s.len() ==> !is_unicode_ws(s[a]),
    ensures
        trim_start_spec(s) == s.skip(a),
    decreases a,
{
    if a == 0 {
        if s.len() > 0 {
            assert(!is_unicode_ws(s[0]));
        }
        assert(s.skip(0) =~= s);
    } else {
        assert(is_unicode_ws(s[0]));
        let t = s.drop_first();
        assert(forall|j: int| 0 <= j < a - 1 ==> is_unicode_ws(#[trigger] t[j]));
        lemma_trim_start_skip(t, a - 1);
        assert(t.skip(a - 1) =~= s.skip(a));
    }
}

proof fn lemma_trim_end_take(s: Seq<char>, b: int)
    requires
        0 <= b <= s.len(),
        forall|j: int| b <= j < s.len() ==> is_unicode_ws(#[trigger] s[j]),
        b > 0 ==> !is_unicode_ws(s[b - 1]),
    ensures
        trim_end_spec(s) == s.take(b),
    decreases s.len() - b,
{
    if b == s.len() {
        if s.len() > 0 {
            assert(!is_unicode_ws(s.last()));
        }
        assert(s.take(b) =~= s);
    } else {
        assert(is_unicode_ws(s.last()));
        let t = s.drop_last();
        assert(forall|j: int| b <= j < t.len() ==> is_unicode_ws(#[trigger] t[j]));
        lemma_trim_end_take(t, b);
        assert(t.take(b) =~= s.take(b));
    }
}

/// The characters of `v` with leading and trailing whitespace removed.
pub fn trim_chars(v: &Vec<char>) -> (r: Vec<char>)
    ensures
        r@ == trim_spec(v@),
{
    let n = v.len();
    let mut a: usize = 0;
    while a < n && is_ws_char(v[a])
        invariant
            a <= n,
            n == v@.len(),
            forall|j: int| 0 <= j < a ==> is_unicode_ws(#[trigger] v@[j]),
        decreases n - a,
    {
        a += 1;
    }
    let mut b: usize = n;
    while b > a && is_ws_char(v[b - 1])
        invariant
            a <= b <= n,
            n == v@.len(),
            forall|j: int| 0 <= j < a ==> is_unicode_ws(#[trigger] v@[j]),
            forall|j: int| b <= j < n ==> is_unicode_ws(#[trigger] v@[j]),
        decreases b,
    {
        b -= 1;
    }
    proof {
        lemma_trim_start_skip(v@, a as int);
        let t = v@.skip(a as int);
        if b > a {
            assert(!is_unicode_ws(t[b - a - 1]));
        }
        assert(forall|j: int| b - a <= j < t.len() ==> is_unicode_ws(#[trigger] t[j]));
        lemma_trim_end_take(t, b - a);
    }
    let mut r: Vec<char> = Vec::new();
    let mut i: usize = a;
    while i < b
        invariant
            a <= i <= b <= n,
            n == v@.len(),
            r@ =~= v@.subrange(a as int, i as int),
        decreases b - i,
    {
        r.push(v[i]);
        proof {
            assert(r@ =~= v@.subrange(a as int, i + 1));
        }
        i += 1;
    }
    proof {
        assert(v@.subrange(a as int, b as int) =~= v@.skip(a as int).take(b - a));
    }
    r
}

/// `s` with leading and trailing whitespace removed, as a `String`.
pub fn trim_string(s: &str) -> (r: String)
    ensures
        r@ == trim_spec(s@),
{
    let n = s.unicode_len();
    let mut a: usize = 0;
    while a < n && is_ws_char(s.get_char(a))
        invariant
            a <= n,
            n == s@.len(),
            forall|j: int| 0 <= j < a ==> is_unicode_ws(#[trigger] s@[j]),
        decreases n - a,
    {
        a += 1;
    }
    let mut b: usize = n;
    while b > a && is_ws_char(s.get_char(b - 1))
        invariant
            a <= b <= n,
            n == s@.len(),
            forall|j: int| 0 <= j < a ==> is_unicode_ws(#[trigger] s@[j]),
            forall|j: int| b <= j < n ==> is_unicode_ws(#[trigger] s@[j]),
        decreases b,
    {
        b -= 1;
    }
    proof {
        lemma_trim_start_skip(s@, a as int);
        let t = s@.skip(a as int);
        if b > a {
            assert(!is_unicode_ws(t[b - a - 1]));
        }
        assert(forall|j: int| b - a <= j < t.len() ==> is_unicode_ws(#[trigger] t[j]));
        lemma_trim_end_take(t, b - a);
        assert(s@.subrange(a as int, b as int) =~= t.take(b - a));
    }
    String::from_str(s.substring_char(a, b))
}

/// The pieces of `s` between occurrences of `sep`, front first, with
/// `rest` of the current piece accumulated; `split_on_spec` starts it
/// with an empty accumulator.  A trailing separator yields a final
/// empty piece, as `str::split` does.
pub open spec fn split_from<T>(s: Seq<T>, sep: T, cur: Seq<T>) -> Seq<Seq<T>>
    decreases s.len(),
{
    if s.len() == 0 {
        seq![cur]
    } else if s[0] == sep {
        seq![cur] + split_from(s.drop_first(), sep, Seq::empty())
    } else {
        split_from(s.drop_first(), sep, cur.push(s[0]))
    }
}

/// What `str::split(sep)` yields on the characters of `s`.
pub open spec fn split_on_spec<T>(s: Seq<T>, sep: T) -> Seq<Seq<T>> {
    split_from(s, sep, Seq::empty())
}

/// Splits `v` at every occurrence of `sep`.
pub fn split_on_char(v: &Vec<char>, sep: char) -> (r: Vec<Vec<char>>)
    ensures
        r@.len() == split_on_spec(v@, sep).len(),
        forall|t: int| 0 <= t < r@.len() ==> (#[trigger] r@[t])@ == split_on_spec(v@, sep)[t],
{
    let n = v.len();
    let mut r: Vec<Vec<char>> = Vec::new();
    let ghost mut done: Seq<Seq<char>> = Seq::empty();
    let mut cur: Vec<char> = Vec::new();
    let mut i: usize = 0;
    proof {
        assert(v@.skip(0) =~= v@);
    }
    while i < n
        invariant
            i <= n,
            n == v@.len(),
            r@.len() == done.len(),
            forall|t: int| 0 <= t < done.len() ==> (#[trigger] r@[t])@ == done[t],
            done + split_from(v@.skip(i as int), sep, cur@) =~= split_on_spec(v@, sep),
        decreases n - i,
    {
        let c = v[i];
        proof {
            assert(v@.skip(i as int)[0] == v@[i as int]);
            assert(v@.skip(i as int).drop_first() =~= v@.skip(i + 1));
        }
        if c == sep {
            proof {
                done = done.push(cur@);
            }
            r.push(cur);
            cur = Vec::new();
        } else {
            cur.push(c);
        }
        i += 1;
    }
    proof {
        assert(v@.skip(n as int) =~= Seq::<char>::empty());
    }
    r.push(cur);
    r
}

/// The lines of `s`, as `str::lines` yields them: split at `'\n'`, a
/// carriage return directly before the newline is dropped, and a final
/// empty piece after a trailing newline is not a line.
pub open spec fn lines_from(s: Seq<char>, cur: Seq<char>) -> Seq<Seq<char>>
    decreases s.len(),
{
    if s.len() == 0 {
        if cur.len() == 0 {
            Seq::empty()
        } else {
            seq![cur]
        }
    } else if s[0] == '\n' {
        seq![strip_cr(cur)] + lines_from(s.drop_first(), Seq::empty())
    } else {
        lines_from(s.drop_first(), cur.push(s[0]))
    }
}

/// `line` without one trailing carriage return.
pub open spec fn strip_cr(line: Seq<char>) -> Seq<char> {
    if line.len() > 0 && line.last() == '\r' {
        line.drop_last()
    } else {
        line
    }
}

/// What `str::lines` yields on the characters of `s`.
pub open spec fn lines_spec(s: Seq<char>) -> Seq<Seq<char>> {
    lines_from(s, Seq::empty())
}

/// Splits `v` into its lines.
pub fn split_lines(v: &Vec<char>) -> (r: Vec<Vec<char>>)
    ensures
        r@.len() == lines_spec(v@).len(),
        forall|t: int| 0 <= t < r@.len() ==> (#[trigger] r@[t])@ == lines_spec(v@)[t],
{
    let n = v.len();
    let mut r: Vec<Vec<char>> = Vec::new();
    let ghost mut done: Seq<Seq<char>> = Seq::empty();
    let mut cur: Vec<char> = Vec::new();
    let mut i: usize = 0;
    proof {
        assert(v@.skip(0) =~= v@);
    }
    while i < n
        invariant
            i <= n,
            n == v@.len(),
            r@.len() == done.len(),
            forall|t: int| 0 <= t < done.len() ==> (#[trigger] r@[t])@ == done[t],
            done + lines_from(v@.skip(i as int), cur@) =~= lines_spec(v@),
        decreases n - i,
    {
        let c = v[i];
        proof {
            assert(v@.skip(i as int)[0] == v@[i as int]);
            assert(v@.skip(i as int).drop_first() =~= v@.skip(i + 1));
        }
        if c == '\n' {
            let ghost pre_cur = cur@;
            let trimmed = if cur.len() > 0 && cur[cur.len() - 1] == '\r' {
                let mut t = cur;
                let _ = t.pop();
                t
            } else {
                cur
            };
            proof {
                assert(trimmed@ == strip_cr(pre_cur));
                done = done.push(strip_cr(pre_cur));
            }
            r.push(trimmed);
            cur = Vec::new();
        } else {
            cur.push(c);
        }
        i += 1;
    }
    proof {
        assert(v@.skip(n as int) =~= Seq::<char>::empty());
    }
    if cur.len() > 0 {
        r.push(cur);
    }
    r
}

} // verus!
