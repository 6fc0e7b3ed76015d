//! Verified string utilities used throughout the library.
//!
//! All executable functions here are specified against `Seq<char>` views.

use vstd::prelude::*;

verus! {

/// `p` is a prefix of `s`.
pub open spec fn is_prefix(p: Seq<char>, s: Seq<char>) -> bool {
    p.len() <= s.len() && s.subrange(0, p.len() as int) == p
}

/// `s` with every leading occurrence of `c` removed.
pub open spec fn trim_leading(s: Seq<char>, c: char) -> Seq<char>
    decreases s.len(),
{
    if s.len() > 0 && s[0] == c {
        trim_leading(s.subrange(1, s.len() as int), c)
    } else {
        s
    }
}

/// JSON-Pointer token unescaping: `~1` becomes `/` and `~0` becomes `~`,
/// scanning left to right.
pub open spec fn unescape_pointer(s: Seq<char>) -> Seq<char>
    decreases s.len(),
{
    if s.len() == 0 {
        Seq::empty()
    } else if s.len() >= 2 && s[0] == '~' && s[1] == '1' {
        seq!['/'] + unescape_pointer(s.subrange(2, s.len() as int))
    } else if s.len() >= 2 && s[0] == '~' && s[1] == '0' {
        seq!['~'] + unescape_pointer(s.subrange(2, s.len() as int))
    } else {
        seq![s[0]] + unescape_pointer(s.subrange(1, s.len() as int))
    }
}

/// The decimal digit character for `d` (0 through 9).
pub open spec fn digit_char(d: nat) -> char {
    if d == 0 { '0' }
    else if d == 1 { '1' }
    else if d == 2 { '2' }
    else if d == 3 { '3' }
    else if d == 4 { '4' }
    else if d == 5 { '5' }
    else if d == 6 { '6' }
    else if d == 7 { '7' }
    else if d == 8 { '8' }
    else { '9' }
}

/// The decimal representation of `n`.
pub open spec fn dec_str(n: nat) -> Seq<char>
    decreases n,
{
    if n < 10 {
        seq![digit_char(n)]
    } else {
        dec_str(n / 10) + seq![digit_char(n % 10)]
    }
}

/// The first index at or after `i` where `c` occurs in `s`.
pub open spec fn index_of_from(s: Seq<char>, c: char, i: int) -> Option<int>
    decreases s.len() - i,
{
    if i < 0 || i >= s.len() {
        None
    } else if s[i] == c {
        Some(i)
    } else {
        index_of_from(s, c, i + 1)
    }
}

/// An index found by `index_of_from` lies in range and holds `c`.
pub proof fn lemma_index_of_from_range(s: Seq<char>, c: char, i: int)
    ensures
        match index_of_from(s, c, i) {
            Some(j) => i <= j < s.len() && s[j] == c,
            None => true,
        },
    decreases s.len() - i,
{
    if 0 <= i < s.len() && s[i] != c {
        lemma_index_of_from_range(s, c, i + 1);
    }
}

/// The last index below `i` where `c` occurs in `s`.
pub open spec fn rindex_of(s: Seq<char>, c: char, i: int) -> Option<int>
    decreases i,
{
    if i <= 0 || i > s.len() {
        None
    } else if s[i - 1] == c {
        Some(i - 1)
    } else {
        rindex_of(s, c, i - 1)
    }
}

/// Character-by-character string equality.
pub fn str_eq(a: &str, b: &str) -> (r: bool)
    ensures
        r == (a@ == b@),
{
    let alen = a.unicode_len();
    let blen = b.unicode_len();
    if alen != blen {
        return false;
    }
    let mut i: usize = 0;
    while i < alen
        invariant
            alen == a@.len(),
            blen == b@.len(),
            alen == blen,
            i <= alen,
            forall|k: int| 0 <= k < i ==> a@[k] == b@[k],
        decreases alen - i,
    {
        if a.get_char(i) != b.get_char(i) {
            return false;
        }
        i += 1;
    }
    proof {
        assert(a@ =~= b@);
    }
    true
}

/// Does `s` start with the prefix `p`?
pub fn starts_with(s: &str, p: &str) -> (r: bool)
    ensures
        r == is_prefix(p@, s@),
{
    let plen = p.unicode_len();
    let slen = s.unicode_len();
    if plen > slen {
        return false;
    }
    let head = s.substring_char(0, plen);
    str_eq(head, p)
}

/// The first index at or after `from` where `c` occurs in `s`.
pub fn find_char_from(s: &str, c: char, from: usize) -> (r: Option<usize>)
    requires
        from <= s@.len(),
    ensures
        match r {
            Some(i) => index_of_from(s@, c, from as int) == Some(i as int)
                && from <= i < s@.len() && s@[i as int] == c,
            None => index_of_from(s@, c, from as int) is None,
        },
{
    let len = s.unicode_len();
    let mut i: usize = from;
    while i < len
        invariant
            from <= i <= len,
            len == s@.len(),
            index_of_from(s@, c, from as int) == index_of_from(s@, c, i as int),
        decreases len - i,
    {
        if s.get_char(i) == c {
            return Some(i);
        }
        i += 1;
    }
    None
}

/// The last index where `c` occurs in `s`.
pub fn rfind_char(s: &str, c: char) -> (r: Option<usize>)
    ensures
        match r {
            Some(i) => rindex_of(s@, c, s@.len() as int) == Some(i as int) && i < s@.len(),
            None => rindex_of(s@, c, s@.len() as int) is None,
        },
{
    let len = s.unicode_len();
    let mut i: usize = len;
    while i > 0
        invariant
            i <= len,
            len == s@.len(),
            rindex_of(s@, c, len as int) == rindex_of(s@, c, i as int),
        decreases i,
    {
        if s.get_char(i - 1) == c {
            return Some(i - 1);
        }
        i -= 1;
    }
    None
}

/// Copies `s` into an owned `String`.
pub fn str_copy(s: &str) -> (r: String)
    ensures
        r@ == s@,
{
    s.to_owned()
}

/// Concatenation of two string slices.
pub fn str_concat(a: &str, b: &str) -> (r: String)
    ensures
        r@ == a@ + b@,
{
    let mut r = a.to_owned();
    r.append(b);
    r
}

/// Concatenation of three string slices.
pub fn str_concat3(a: &str, b: &str, c: &str) -> (r: String)
    ensures
        r@ == a@ + b@ + c@,
{
    let mut r = a.to_owned();
    r.append(b);
    r.append(c);
    r
}

/// `s` with all leading occurrences of `c` removed.
pub fn trim_leading_char(s: &str, c: char) -> (r: &str)
    ensures
        r@ == trim_leading(s@, c),
{
    let len = s.unicode_len();
    let mut i: usize = 0;
    while i < len && s.get_char(i) == c
        invariant
            i <= len,
            len == s@.len(),
            forall|k: int| 0 <= k < i ==> s@[k] == c,
        decreases len - i,
    {
        i += 1;
    }
    assert(i < len ==> s@[i as int] != c);
    let r = s.substring_char(i, len);
    proof {
        lemma_trim_leading_at(s@, c, i as int);
    }
    r
}

/// If the first `i` characters of `s` are all `c` and position `i` (when in
/// range) is not, then trimming `c` from the front of `s` leaves the suffix
/// starting at `i`.
proof fn lemma_trim_leading_at(s: Seq<char>, c: char, i: int)
    requires
        0 <= i <= s.len(),
        forall|k: int| 0 <= k < i ==> s[k] == c,
        i < s.len() ==> s[i] != c,
    ensures
        trim_leading(s, c) == s.subrange(i, s.len() as int),
    decreases i,
{
    if i == 0 {
        if s.len() > 0 && s[0] == c {
            assert(false);
        }
        assert(s =~= s.subrange(0, s.len() as int));
    } else {
        assert(s[0] == c);
        let t = s.subrange(1, s.len() as int);
        lemma_trim_leading_at(t, c, i - 1);
        assert(t.subrange(i - 1, t.len() as int) =~= s.subrange(i, s.len() as int));
    }
}

/// Unescapes JSON-Pointer tokens in `s` from position `pos` on.
pub fn unescape_from(s: &str, pos: usize) -> (r: String)
    requires
        pos <= s@.len(),
    ensures
        r@ == unescape_pointer(s@.subrange(pos as int, s@.len() as int)),
    decreases s@.len() - pos,
{
    let ghost sub = s@.subrange(pos as int, s@.len() as int);
    let len = s.unicode_len();
    if pos == len {
        proof {
            assert(sub =~= Seq::<char>::empty());
        }
        return String::new();
    }
    let c = s.get_char(pos);
    if c == '~' && pos + 1 < len {
        let c2 = s.get_char(pos + 1);
        if c2 == '1' {
            let rest = unescape_from(s, pos + 2);
            let r = str_concat("/", rest.as_str());
            proof {
                reveal_strlit("/");
                assert(sub.subrange(2, sub.len() as int)
                    =~= s@.subrange(pos + 2, s@.len() as int));
                assert(r@ =~= seq!['/'] + unescape_pointer(sub.subrange(2, sub.len() as int)));
            }
            return r;
        }
        if c2 == '0' {
            let rest = unescape_from(s, pos + 2);
            let r = str_concat("~", rest.as_str());
            proof {
                reveal_strlit("~");
                assert(sub.subrange(2, sub.len() as int)
                    =~= s@.subrange(pos + 2, s@.len() as int));
                assert(r@ =~= seq!['~'] + unescape_pointer(sub.subrange(2, sub.len() as int)));
            }
            return r;
        }
    }
    let head = s.substring_char(pos, pos + 1);
    let rest = unescape_from(s, pos + 1);
    let r = str_concat(head, rest.as_str());
    proof {
        assert(sub.len() >= 2 ==> sub[1] == s@[pos + 1]);
        assert(sub.subrange(1, sub.len() as int) =~= s@.subrange(pos + 1, s@.len() as int));
        assert(head@ =~= seq![sub[0]]);
        assert(r@ =~= seq![sub[0]] + unescape_pointer(sub.subrange(1, sub.len() as int)));
    }
    r
}

/// The `/`-separated segments of a path.
pub open spec fn path_segments(s: Seq<char>) -> Seq<Seq<char>>
    decreases s.len() via path_segments_dec
{
    match index_of_from(s, '/', 0) {
        Some(i) => seq![s.subrange(0, i)] + path_segments(s.subrange(i + 1, s.len() as int)),
        None => seq![s],
    }
}

/// One step of lexical normalization: `.` disappears, `..` pops the
/// segment before it when one is there to pop.
pub open spec fn norm_push(stack: Seq<Seq<char>>, seg: Seq<char>) -> Seq<Seq<char>> {
    if seg == "."@ {
        stack
    } else if seg == ".."@ {
        if stack.len() > 0 && stack.last() != ".."@ && stack.last() != ""@ {
            stack.drop_last()
        } else {
            stack.push(seg)
        }
    } else {
        stack.push(seg)
    }
}

/// The first `i` segments, lexically normalized.
pub open spec fn norm_segments(segs: Seq<Seq<char>>, i: int) -> Seq<Seq<char>>
    decreases i,
{
    if i <= 0 || i > segs.len() {
        Seq::empty()
    } else {
        norm_push(norm_segments(segs, i - 1), segs[i - 1])
    }
}

/// The first `i` segments joined with `/`.
pub open spec fn join_segments(segs: Seq<Seq<char>>, i: int) -> Seq<char>
    decreases i,
{
    if i <= 0 || i > segs.len() {
        Seq::empty()
    } else if i == 1 {
        segs[0]
    } else {
        join_segments(segs, i - 1) + "/"@ + segs[i - 1]
    }
}

/// A path in lexical normal form: `.` segments dropped and `..`
/// segments applied, without consulting a file system.
pub open spec fn normalize_path(s: Seq<char>) -> Seq<char> {
    let ns = norm_segments(path_segments(s), path_segments(s).len() as int);
    join_segments(ns, ns.len() as int)
}

#[via_fn]
proof fn path_segments_dec(s: Seq<char>) {
    lemma_index_of_from_range(s, '/', 0);
}

/// Splits a path at `/` characters.
fn split_path(s: &str) -> (r: Vec<String>)
    ensures
        r.deep_view() == path_segments(s@),
    decreases s@.len(),
{
    proof {
        lemma_index_of_from_range(s@, '/', 0);
    }
    let len = s.unicode_len();
    match find_char_from(s, '/', 0) {
        Some(i) => {
            let head = str_copy(s.substring_char(0, i));
            let rest = split_path(s.substring_char(i + 1, len));
            let ghost rv = rest.deep_view();
            let mut out: Vec<String> = Vec::new();
            out.push(head);
            proof {
                assert(out.deep_view() =~= seq![s@.subrange(0, i as int)]);
            }
            let mut tail = rest;
            while tail.len() > 0
                invariant
                    out.deep_view() + tail.deep_view() =~= seq![s@.subrange(0, i as int)]
                        + rv,
                decreases tail@.len(),
            {
                let ghost tv = tail.deep_view();
                let ghost ov = out.deep_view();
                let seg = tail.remove(0);
                let ghost sv = seg@;
                out.push(seg);
                proof {
                    assert(seg@ == tv[0]);
                    assert(tail.deep_view() =~= tv.subrange(1, tv.len() as int));
                    assert(out.deep_view() =~= ov.push(sv));
                    assert(out.deep_view() + tail.deep_view()
                        =~= seq![s@.subrange(0, i as int)] + rv);
                }
            }
            proof {
                assert(tail.deep_view() =~= Seq::<Seq<char>>::empty());
                assert(out.deep_view() =~= out.deep_view() + tail.deep_view());
            }
            out
        },
        None => {
            let mut out: Vec<String> = Vec::new();
            out.push(str_copy(s));
            proof {
                assert(out.deep_view() =~= seq![s@]);
            }
            out
        },
    }
}

/// Lexically normalizes a path: `.` segments are dropped and `..`
/// segments pop what they can.
pub fn normalize_path_str(s: &str) -> (r: String)
    ensures
        r@ == normalize_path(s@),
{
    let segs = split_path(s);
    let ghost segs_v = segs.deep_view();
    let n = segs.len();
    let mut stack: Vec<String> = Vec::new();
    let mut i: usize = 0;
    proof {
        assert(stack.deep_view() =~= Seq::<Seq<char>>::empty());
    }
    while i < n
        invariant
            n == segs@.len(),
            segs_v == segs.deep_view(),
            segs_v.len() == n,
            i <= n,
            stack.deep_view() == norm_segments(segs_v, i as int),
        decreases n - i,
    {
        let ghost pre = stack.deep_view();
        let seg = &segs[i];
        if str_eq(seg.as_str(), ".") {
        } else if str_eq(seg.as_str(), "..") {
            let top_pops = if stack.len() > 0 {
                let last = &stack[stack.len() - 1];
                !str_eq(last.as_str(), "..") && !str_eq(last.as_str(), "")
            } else {
                false
            };
            if top_pops {
                proof {
                    assert(pre.last() == stack.deep_view()[stack@.len() - 1]);
                }
                let _ = stack.pop();
                proof {
                    assert(stack.deep_view() =~= pre.drop_last());
                }
            } else {
                stack.push(seg.clone());
                proof {
                    assert(stack.deep_view() =~= pre.push(segs_v[i as int]));
                }
            }
        } else {
            stack.push(seg.clone());
            proof {
                assert(stack.deep_view() =~= pre.push(segs_v[i as int]));
            }
        }
        i += 1;
    }
    let ghost ns = stack.deep_view();
    let m = stack.len();
    let mut out = String::new();
    let mut j: usize = 0;
    while j < m
        invariant
            m == stack@.len(),
            ns == stack.deep_view(),
            ns.len() == m,
            j <= m,
            out@ == join_segments(ns, j as int),
        decreases m - j,
    {
        if j == 0 {
            out = str_copy(stack[0].as_str());
        } else {
            out = str_concat3(out.as_str(), "/", stack[j].as_str());
        }
        j += 1;
    }
    out
}

/// A copy of a list of strings.
pub fn copy_names(v: &Vec<String>) -> (r: Vec<String>)
    ensures
        r.deep_view() == v.deep_view(),
{
    let n = v.len();
    let mut out: Vec<String> = Vec::new();
    let mut i: usize = 0;
    while i < n
        invariant
            n == v@.len(),
            i <= n,
            out@.len() == i,
            forall|k: int| 0 <= k < i ==> out@[k]@ == v@[k]@,
        decreases n - i,
    {
        out.push(v[i].clone());
        i += 1;
    }
    proof {
        assert(out.deep_view() =~= v.deep_view());
    }
    out
}

/// The decimal representation of `n` as an owned string.
pub fn usize_to_string(n: usize) -> (r: String)
    ensures
        r@ == dec_str(n as nat),
    decreases n,
{
    proof {
        reveal_strlit("0123456789");
    }
    let digits = "0123456789";
    if n < 10 {
        let d = digits.substring_char(n, n + 1);
        let r = str_copy(d);
        proof {
            assert(r@ =~= seq![digit_char(n as nat)]);
        }
        r
    } else {
        let mut r = usize_to_string(n / 10);
        let d = digits.substring_char(n % 10, n % 10 + 1);
        r.append(d);
        proof {
            assert(d@ =~= seq![digit_char((n % 10) as nat)]);
            assert(r@ =~= dec_str((n / 10) as nat) + seq![digit_char((n % 10) as nat)]);
        }
        r
    }
}

} // verus!
