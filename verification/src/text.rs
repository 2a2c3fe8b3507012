//! Clean-up of what the engine returns: the segments are joined, surrounding white
//! space is cut away, and the markers that the engine writes for non-speech are
//! removed.

use vstd::prelude::*;
use vstd::string::*;

verus! {

/// White space, as Unicode defines it.
pub open spec fn is_space(c: char) -> bool {
    let u = c as u32;
    ||| 0x09 <= u <= 0x0d
    ||| u == 0x20
    ||| u == 0x85
    ||| u == 0xa0
    ||| u == 0x1680
    ||| 0x2000 <= u <= 0x200a
    ||| u == 0x2028
    ||| u == 0x2029
    ||| u == 0x202f
    ||| u == 0x205f
    ||| u == 0x3000
}

fn space(c: char) -> (r: bool)
    ensures
        r == is_space(c),
{
    let u: u32 = c as u32;
    (0x09 <= u && u <= 0x0d) || u == 0x20 || u == 0x85 || u == 0xa0 || u == 0x1680 || (0x2000 <= u
        && u <= 0x200a) || u == 0x2028 || u == 0x2029 || u == 0x202f || u == 0x205f || u
        == 0x3000
}

/// Number of white-space characters at the start.
pub open spec fn leading_spaces(t: Seq<char>) -> nat
    decreases t.len(),
{
    if t.len() == 0 || !is_space(t[0]) {
        0
    } else {
        1 + leading_spaces(t.drop_first())
    }
}

/// Number of white-space characters at the end.
pub open spec fn trailing_spaces(t: Seq<char>) -> nat
    decreases t.len(),
{
    if t.len() == 0 || !is_space(t.last()) {
        0
    } else {
        1 + trailing_spaces(t.drop_last())
    }
}

/// The text without the white space around it.
pub open spec fn trimmed(t: Seq<char>) -> Seq<char> {
    if leading_spaces(t) == t.len() {
        Seq::empty()
    } else {
        t.subrange(leading_spaces(t) as int, t.len() - trailing_spaces(t))
    }
}

/// `t` opens with `p`.
pub open spec fn starts_with(t: Seq<char>, p: Seq<char>) -> bool {
    t.len() >= p.len() && t.take(p.len() as int) == p
}

/// The text without the occurrences of `p`, found from left to right; characters of
/// one occurrence are not part of another. An empty `p` occurs nowhere.
pub open spec fn stripped(t: Seq<char>, p: Seq<char>) -> Seq<char>
    decreases t.len(),
{
    if p.len() == 0 || t.len() < p.len() {
        t
    } else if starts_with(t, p) {
        stripped(t.skip(p.len() as int), p)
    } else {
        seq![t[0]] + stripped(t.skip(1), p)
    }
}

/// The text without the markers that stand for silence, music, noise and the like,
/// removed one kind after the other.
pub open spec fn without_artifacts(t: Seq<char>) -> Seq<char> {
    let a = stripped(t, "[BLANK_AUDIO]"@);
    let b = stripped(a, "(BLANK_AUDIO)"@);
    let c = stripped(b, "[MUSIC]"@);
    let d = stripped(c, "[NOISE]"@);
    let e = stripped(d, "(music)"@);
    let f = stripped(e, "(inaudible)"@);
    stripped(f, "..."@)
}

/// What is shown of a raw transcript.
pub open spec fn cleaned(raw: Seq<char>) -> Seq<char> {
    trimmed(without_artifacts(trimmed(raw)))
}

/// The segments one after the other, with nothing between them.
pub open spec fn joined(segments: Seq<Seq<char>>) -> Seq<char>
    decreases segments.len(),
{
    if segments.len() == 0 {
        Seq::empty()
    } else {
        joined(segments.drop_last()) + segments.last()
    }
}

fn chars_of(text: &str) -> (chars: Vec<char>)
    ensures
        chars@ == text@,
{
    broadcast use vstd::string::group_string_axioms;

    let mut chars: Vec<char> = Vec::new();
    for c in it: text.chars()
        invariant
            it.seq() == text@,
            chars@ == it.seq().take(it.index()),
    {
        chars.push(c);
    }
    chars
}

/// Where white space ends at the start of `t`, all of it counted.
proof fn lemma_leading_spaces(t: Seq<char>, a: int)
    requires
        0 <= a <= t.len(),
        forall|j: int| 0 <= j < a ==> is_space(#[trigger] t[j]),
        a == t.len() || !is_space(t[a]),
    ensures
        leading_spaces(t) == a,
    decreases a,
{
    if a > 0 {
        let rest = t.drop_first();
        assert forall|j: int| 0 <= j < a - 1 implies is_space(#[trigger] rest[j]) by {
            assert(rest[j] == t[j + 1]);
        }
        lemma_leading_spaces(rest, a - 1);
    }
}

/// Where white space begins at the end of `t`, all of it counted.
proof fn lemma_trailing_spaces(t: Seq<char>, b: int)
    requires
        0 <= b <= t.len(),
        forall|j: int| b <= j < t.len() ==> is_space(#[trigger] t[j]),
        b == 0 || !is_space(t[b - 1]),
    ensures
        trailing_spaces(t) == t.len() - b,
    decreases t.len() - b,
{
    if b < t.len() {
        let rest = t.drop_last();
        assert forall|j: int| b <= j < rest.len() implies is_space(#[trigger] rest[j]) by {
            assert(rest[j] == t[j]);
        }
        lemma_trailing_spaces(rest, b);
    }
}

/// The trimmed text is a part of the text, and it neither starts nor ends with
/// white space.
pub proof fn lemma_trimmed_has_no_outer_space(t: Seq<char>)
    ensures
        trimmed(t).len() <= t.len(),
        trimmed(t).len() > 0 ==> !is_space(trimmed(t).first()) && !is_space(trimmed(t).last()),
        trimmed(t).len() == 0 <==> forall|j: int| 0 <= j < t.len() ==> is_space(#[trigger] t[j]),
{
    lemma_space_counts(t);
    let a = leading_spaces(t) as int;
    let b = t.len() - trailing_spaces(t);
    if a < t.len() {
        assert(!is_space(t[a]));
        if b <= a {
            assert(is_space(t[a]));
        }
        assert(trimmed(t).first() == t[a]);
        assert(trimmed(t).last() == t[b - 1]);
    }
}

/// The counted white space is white space, and the character next to it is not.
proof fn lemma_space_counts(t: Seq<char>)
    ensures
        leading_spaces(t) <= t.len(),
        trailing_spaces(t) <= t.len(),
        forall|j: int| 0 <= j < leading_spaces(t) ==> is_space(#[trigger] t[j]),
        leading_spaces(t) < t.len() ==> !is_space(t[leading_spaces(t) as int]),
        forall|j: int| t.len() - trailing_spaces(t) <= j < t.len() ==> is_space(#[trigger] t[j]),
        trailing_spaces(t) < t.len() ==> !is_space(t[t.len() - trailing_spaces(t) - 1]),
    decreases t.len(),
{
    if t.len() > 0 {
        if is_space(t[0]) {
            let rest = t.drop_first();
            lemma_space_counts(rest);
            assert forall|j: int| 0 <= j < leading_spaces(t) implies is_space(#[trigger] t[j]) by {
                if j > 0 {
                    assert(t[j] == rest[j - 1]);
                }
            }
            if leading_spaces(t) < t.len() {
                assert(t[leading_spaces(t) as int] == rest[leading_spaces(rest) as int]);
            }
        }
        if is_space(t.last()) {
            let rest = t.drop_last();
            lemma_space_counts(rest);
            assert forall|j: int| t.len() - trailing_spaces(t) <= j < t.len() implies is_space(
                #[trigger] t[j],
            ) by {
                if j < t.len() - 1 {
                    assert(t[j] == rest[j]);
                }
            }
            if trailing_spaces(t) < t.len() {
                assert(t[t.len() - trailing_spaces(t) - 1] == rest[rest.len() - trailing_spaces(
                    rest,
                ) - 1]);
            }
        }
    }
}

/// Cuts the white space off both ends.
pub fn trim(text: &str) -> (out: &str)
    ensures
        out@ == trimmed(text@),
{
    let chars: Vec<char> = chars_of(text);
    let n: usize = chars.len();
    let mut a: usize = 0;
    while a < n && space(chars[a])
        invariant
            a <= n,
            n == chars.len(),
            forall|j: int| 0 <= j < a ==> is_space(#[trigger] chars[j]),
        decreases n - a,
    {
        a += 1;
    }
    proof {
        lemma_leading_spaces(chars@, a as int);
    }
    if a == n {
        return text.substring_char(0, 0);
    }
    let mut b: usize = n;
    while b > a && space(chars[b - 1])
        invariant
            a <= b <= n,
            n == chars.len(),
            forall|j: int| b <= j < n ==> is_space(#[trigger] chars[j]),
        decreases b,
    {
        b -= 1;
    }
    proof {
        lemma_trailing_spaces(chars@, b as int);
    }
    text.substring_char(a, b)
}

fn occurs_at(t: &Vec<char>, at: usize, p: &Vec<char>) -> (r: bool)
    requires
        at <= t.len(),
    ensures
        r == starts_with(t@.skip(at as int), p@),
{
    let k: usize = p.len();
    if t.len() - at < k {
        return false;
    }
    let mut j: usize = 0;
    while j < k
        invariant
            j <= k,
            k == p.len(),
            at + k <= t.len(),
            forall|m: int| 0 <= m < j ==> t[at + m] == #[trigger] p[m],
        decreases k - j,
    {
        if t[at + j] != p[j] {
            assert(t@.skip(at as int).take(k as int)[j as int] != p@[j as int]);
            return false;
        }
        j += 1;
    }
    assert(t@.skip(at as int).take(k as int) =~= p@);
    true
}

/// Removes every occurrence of `pattern`.
pub fn strip(text: &str, pattern: &str) -> (out: String)
    ensures
        out@ == stripped(text@, pattern@),
{
    let t: Vec<char> = chars_of(text);
    let p: Vec<char> = chars_of(pattern);
    let n: usize = t.len();
    let k: usize = p.len();
    if k == 0 || n < k {
        return String::from_str(text);
    }
    let mut out: String = String::new();
    let mut kept: usize = 0;
    let mut i: usize = 0;
    assert(out@ + (t@.subrange(0, 0) + stripped(t@.skip(0), p@)) =~= stripped(t@, p@)) by {
        assert(t@.skip(0) =~= t@);
    }
    while i <= n - k
        invariant
            0 < k <= n,
            n == t.len(),
            k == p.len(),
            t@ == text@,
            kept <= i <= n,
            out@ + (t@.subrange(kept as int, i as int) + stripped(t@.skip(i as int), p@))
                == stripped(t@, p@),
        decreases n - i,
    {
        let ghost rest = t@.skip(i as int);
        if occurs_at(&t, i, &p) {
            let ghost before = out@;
            out.append(text.substring_char(kept, i));
            proof {
                assert(rest.skip(k as int) =~= t@.skip(i + k));
                assert(t@.subrange(i + k, i + k) =~= Seq::<char>::empty());
                assert(out@ + (t@.subrange(i + k, i + k) + stripped(t@.skip(i + k), p@))
                    =~= before + (t@.subrange(kept as int, i as int) + stripped(rest, p@)));
            }
            i += k;
            kept = i;
        } else {
            proof {
                assert(rest.skip(1) =~= t@.skip(i + 1));
                assert(rest[0] == t@[i as int]);
                assert(t@.subrange(kept as int, i + 1) =~= t@.subrange(kept as int, i as int)
                    + seq![t@[i as int]]);
                assert(out@ + (t@.subrange(kept as int, i + 1) + stripped(t@.skip(i + 1), p@))
                    =~= out@ + (t@.subrange(kept as int, i as int) + stripped(rest, p@)));
            }
            i += 1;
        }
    }
    proof {
        assert(stripped(t@.skip(i as int), p@) == t@.skip(i as int));
        assert(t@.subrange(kept as int, i as int) + t@.skip(i as int) =~= t@.subrange(
            kept as int,
            n as int,
        ));
    }
    out.append(text.substring_char(kept, n));
    out
}

/// Cleans a raw transcript.
pub fn clean_text(raw: &str) -> (text: String)
    ensures
        text@ == cleaned(raw@),
{
    let a: String = strip(trim(raw), "[BLANK_AUDIO]");
    let b: String = strip(a.as_str(), "(BLANK_AUDIO)");
    let c: String = strip(b.as_str(), "[MUSIC]");
    let d: String = strip(c.as_str(), "[NOISE]");
    let e: String = strip(d.as_str(), "(music)");
    let f: String = strip(e.as_str(), "(inaudible)");
    let g: String = strip(f.as_str(), "...");
    String::from_str(trim(g.as_str()))
}

/// Joins the segments of one inference pass and cleans the result.
pub fn clean_transcript(segments: &Vec<String>) -> (text: String)
    ensures
        text@ == cleaned(joined(segments.deep_view())),
{
    let mut raw: String = String::new();
    let mut i: usize = 0;
    assert(segments.deep_view().take(0) =~= Seq::<Seq<char>>::empty());
    while i < segments.len()
        invariant
            i <= segments.len(),
            raw@ == joined(segments.deep_view().take(i as int)),
        decreases segments.len() - i,
    {
        proof {
            let run = segments.deep_view().take(i + 1);
            assert(run.drop_last() =~= segments.deep_view().take(i as int));
            assert(run.last() == segments[i as int]@);
        }
        raw.append(segments[i].as_str());
        i += 1;
    }
    assert(segments.deep_view().take(segments.len() as int) =~= segments.deep_view());
    clean_text(raw.as_str())
}

} // verus!
