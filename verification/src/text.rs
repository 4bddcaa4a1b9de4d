use unicode_segmentation::UnicodeSegmentation;
use vstd::prelude::*;

verus! {

/// `String::into_boxed_str`: the same text, in a box.
pub assume_specification[ String::into_boxed_str ](s: String) -> (r: Box<str>)
    ensures
        r@ == s@,
;

/// Appends one character to the end of a string.
#[verifier::external_body]
pub(crate) fn push_char(s: &mut String, c: char)
    ensures
        final(s)@ == old(s)@.push(c),
{
    s.push(c)
}

/// The characters of a string slice, in order.
pub fn chars_of(s: &str) -> (r: Vec<char>)
    ensures
        r@ == s@,
{
    let mut out: Vec<char> = Vec::new();
    for c in it: s.chars()
        invariant
            out@ == it.seq().take(it.index() as int),
            it.seq() == s@,
    {
        out.push(c);
    }
    out
}

/// The string made of the given characters, in order.
pub fn string_of(cs: &[char]) -> (r: String)
    ensures
        r@ == cs@,
{
    let mut out = String::new();
    let mut i: usize = 0;
    while i < cs.len()
        invariant
            i <= cs.len(),
            out@ == cs@.take(i as int),
        decreases cs.len() - i,
    {
        push_char(&mut out, cs[i]);
        proof {
            assert(cs@.take(i as int).push(cs@[i as int]) =~= cs@.take(i + 1));
        }
        i = i + 1;
    }
    proof {
        assert(cs@.take(cs@.len() as int) =~= cs@);
    }
    out
}


/// The pieces laid end to end.
pub open spec fn concat_all(parts: Seq<Seq<char>>) -> Seq<char>
    decreases parts.len(),
{
    if parts.len() == 0 {
        Seq::empty()
    } else {
        concat_all(parts.drop_last()) + parts.last()
    }
}

/// The extended grapheme clusters of a text, in order, as the segmentation
/// of Unicode Standard Annex #29 cuts it.
pub uninterp spec fn graphemes_of(text: Seq<char>) -> Seq<Seq<char>>;

/// Number of grapheme clusters of a text.
pub open spec fn grapheme_count(text: Seq<char>) -> nat {
    graphemes_of(text).len()
}

/// Character offset at which cluster `n` of a text begins; the text's length
/// for every `n` past the last cluster.
pub open spec fn grapheme_start(text: Seq<char>, n: int) -> int {
    if 0 <= n < grapheme_count(text) {
        concat_all(graphemes_of(text).take(n)).len() as int
    } else {
        text.len() as int
    }
}

/// The clusters of a text are non-empty and spell the text out.
pub open spec fn well_segmented(text: Seq<char>) -> bool {
    &&& concat_all(graphemes_of(text)) == text
    &&& forall|i: int| 0 <= i < graphemes_of(text).len() ==> (#[trigger] graphemes_of(text)[i]).len() > 0
}

/// Splits a string into its extended grapheme clusters with
/// `UnicodeSegmentation::graphemes(s, true)`, each cluster copied into a `String`.
/// The contract names the cut (`graphemes_of`) and states what the crate's
/// iterator shows: the clusters are consecutive, non-empty slices that together
/// cover the whole string.
#[verifier::external_body]
pub(crate) fn split_graphemes(s: &str) -> (r: Vec<String>)
    ensures
        r@.map_values(|g: String| g@) == graphemes_of(s@),
        concat_all(r@.map_values(|g: String| g@)) == s@,
        forall|i: int| 0 <= i < r@.len() ==> (#[trigger] r@[i])@.len() > 0,
{
    s.graphemes(true).map(String::from).collect()
}

pub proof fn lemma_concat_take_step(parts: Seq<Seq<char>>, n: int)
    requires
        0 <= n < parts.len(),
    ensures
        concat_all(parts.take(n + 1)) == concat_all(parts.take(n)) + parts[n],
{
    assert(parts.take(n + 1).drop_last() =~= parts.take(n));
}

pub proof fn lemma_concat_take_all(parts: Seq<Seq<char>>)
    ensures
        concat_all(parts.take(parts.len() as int)) == concat_all(parts),
{
    assert(parts.take(parts.len() as int) =~= parts);
}

/// Longer prefixes of the pieces spell out longer texts, strictly so when the
/// pieces are non-empty.
pub proof fn lemma_concat_take_mono(parts: Seq<Seq<char>>, m: int, n: int)
    requires
        0 <= m <= n <= parts.len(),
    ensures
        concat_all(parts.take(m)).len() <= concat_all(parts.take(n)).len(),
        (forall|i: int| 0 <= i < parts.len() ==> (#[trigger] parts[i]).len() > 0) && m < n
            ==> concat_all(parts.take(m)).len() < concat_all(parts.take(n)).len(),
        concat_all(parts.take(n)).take(concat_all(parts.take(m)).len() as int) == concat_all(parts.take(m)),
    decreases n - m,
{
    if m < n {
        lemma_concat_take_mono(parts, m, n - 1);
        lemma_concat_take_step(parts, n - 1);
        let a = concat_all(parts.take(m));
        let b = concat_all(parts.take(n - 1));
        assert((b + parts[n - 1]).take(a.len() as int) =~= b.take(a.len() as int));
    } else {
        assert(concat_all(parts.take(n)).take(concat_all(parts.take(m)).len() as int) =~= concat_all(parts.take(m)));
    }
}

/// Cluster starts of a well cut text grow with the cluster index and stay
/// within the text.
pub proof fn lemma_grapheme_start_mono(text: Seq<char>, m: int, n: int)
    requires
        well_segmented(text),
        0 <= m <= n,
    ensures
        0 <= grapheme_start(text, m) <= grapheme_start(text, n) <= text.len(),
        m < n <= grapheme_count(text) ==> grapheme_start(text, m) < grapheme_start(text, n),
        grapheme_start(text, 0) == 0,
{
    let g = graphemes_of(text);
    lemma_concat_take_all(g);
    if g.len() == 0 {
        assert(text == concat_all(g));
    } else {
        assert(g.take(0) =~= Seq::<Seq<char>>::empty());
    }
    let mm = if m < g.len() { m } else { g.len() as int };
    let nn = if n < g.len() { n } else { g.len() as int };
    lemma_concat_take_mono(g, mm, nn);
    lemma_concat_take_mono(g, nn, g.len() as int);
    lemma_concat_take_mono(g, 0, mm);
}

/// Number of characters of a string slice.
pub fn char_len(s: &str) -> (r: usize)
    ensures
        r == s@.len(),
{
    chars_of(s).len()
}

/// Character offsets at which the grapheme clusters of a string begin.
pub fn grapheme_starts(s: &str) -> (r: Vec<usize>)
    ensures
        r.len() == grapheme_count(s@),
        forall|i: int| 0 <= i < r.len() ==> r[i] == grapheme_start(s@, i),
        well_segmented(s@),
{
    let parts = split_graphemes(s);
    let total = char_len(s);
    let ghost g = graphemes_of(s@);
    proof {
        assert forall|i: int| 0 <= i < g.len() implies (#[trigger] g[i]).len() > 0 by {
            assert(g[i] == parts@[i]@);
        }
        lemma_concat_take_all(g);
    }
    let mut out: Vec<usize> = Vec::new();
    let mut acc: usize = 0;
    let mut i: usize = 0;
    while i < parts.len()
        invariant
            g == graphemes_of(s@),
            parts@.map_values(|p: String| p@) == g,
            concat_all(g) == s@,
            total == s@.len(),
            i <= parts.len(),
            out.len() == i,
            acc == concat_all(g.take(i as int)).len(),
            forall|k: int| 0 <= k < i ==> out[k] == grapheme_start(s@, k),
        decreases parts.len() - i,
    {
        out.push(acc);
        proof {
            lemma_concat_take_step(g, i as int);
            lemma_concat_take_mono(g, i + 1, g.len() as int);
            lemma_concat_take_all(g);
            assert(g[i as int] == parts@[i as int]@);
        }
        let n = char_len(parts[i].as_str());
        acc = acc + n;
        i = i + 1;
    }
    out
}

/// Number of grapheme clusters of a string.
pub fn grapheme_len(s: &str) -> (r: usize)
    ensures
        r == grapheme_count(s@),
{
    split_graphemes(s).len()
}

/// The characters `from..to` of `cs` replaced by `ins`.
pub fn splice_chars(cs: &[char], from: usize, to: usize, ins: &[char]) -> (r: Vec<char>)
    requires
        from <= to <= cs.len(),
    ensures
        r@ == cs@.take(from as int) + ins@ + cs@.skip(to as int),
{
    let mut out: Vec<char> = Vec::new();
    let mut i: usize = 0;
    while i < from
        invariant
            from <= to <= cs.len(),
            i <= from,
            out@ == cs@.take(i as int),
        decreases from - i,
    {
        out.push(cs[i]);
        proof { assert(cs@.take(i as int).push(cs@[i as int]) =~= cs@.take(i + 1)); }
        i = i + 1;
    }
    let mut j: usize = 0;
    while j < ins.len()
        invariant
            j <= ins.len(),
            out@ == cs@.take(from as int) + ins@.take(j as int),
        decreases ins.len() - j,
    {
        out.push(ins[j]);
        proof { assert((cs@.take(from as int) + ins@.take(j as int)).push(ins@[j as int]) =~= cs@.take(from as int) + ins@.take(j + 1)); }
        j = j + 1;
    }
    let mut k: usize = to;
    while k < cs.len()
        invariant
            to <= k <= cs.len(),
            out@ == cs@.take(from as int) + ins@ + cs@.subrange(to as int, k as int),
        decreases cs.len() - k,
    {
        out.push(cs[k]);
        proof { assert((cs@.take(from as int) + ins@ + cs@.subrange(to as int, k as int)).push(cs@[k as int]) =~= cs@.take(from as int) + ins@ + cs@.subrange(to as int, k + 1)); }
        k = k + 1;
    }
    proof {
        assert(ins@.take(ins@.len() as int) =~= ins@);
        assert(cs@.subrange(to as int, cs@.len() as int) =~= cs@.skip(to as int));
    }
    out
}

/// Cluster `n` of a text; empty past the last cluster.
pub open spec fn cluster_at(text: Seq<char>, n: int) -> Seq<char> {
    if 0 <= n < grapheme_count(text) {
        graphemes_of(text)[n]
    } else {
        Seq::empty()
    }
}

/// A cluster ends where the next one begins.
pub proof fn lemma_cluster_end(text: Seq<char>, n: int)
    requires
        well_segmented(text),
        0 <= n,
    ensures
        grapheme_start(text, n) + cluster_at(text, n).len() == grapheme_start(text, n + 1),
        text.subrange(grapheme_start(text, n), grapheme_start(text, n + 1)) == cluster_at(text, n),
{
    let g = graphemes_of(text);
    lemma_concat_take_all(g);
    if n < g.len() {
        lemma_concat_take_step(g, n);
        lemma_concat_take_mono(g, n + 1, g.len() as int);
        let a = concat_all(g.take(n));
        let b = concat_all(g.take(n + 1));
        assert(text.take(b.len() as int) == b);
        assert(text.subrange(a.len() as int, b.len() as int) =~= b.subrange(a.len() as int, b.len() as int));
        assert(b.subrange(a.len() as int, b.len() as int) =~= g[n]);
    } else {
        assert(text.subrange(text.len() as int, text.len() as int) =~= Seq::<char>::empty());
    }
}

/// The characters `from..to` of `cs`.
pub fn slice_chars(cs: &[char], from: usize, to: usize) -> (r: Vec<char>)
    requires
        from <= to <= cs.len(),
    ensures
        r@ == cs@.subrange(from as int, to as int),
{
    let mut out: Vec<char> = Vec::new();
    let mut i: usize = from;
    while i < to
        invariant
            from <= i <= to <= cs.len(),
            out@ == cs@.subrange(from as int, i as int),
        decreases to - i,
    {
        out.push(cs[i]);
        proof { assert(cs@.subrange(from as int, i as int).push(cs@[i as int]) =~= cs@.subrange(from as int, i + 1)); }
        i = i + 1;
    }
    out
}

/// Where cluster `n` of a string begins, and that cluster; past the last
/// cluster, the string's length and no characters.
pub fn grapheme_index_str(s: &str, n: usize) -> (r: (usize, Vec<char>))
    ensures
        r.0 == grapheme_start(s@, n as int),
        r.1@ == cluster_at(s@, n as int),
        well_segmented(s@),
        r.0 + r.1@.len() <= s@.len(),
{
    let starts = grapheme_starts(s);
    let chars = chars_of(s);
    proof {
        lemma_cluster_end(s@, n as int);
        lemma_grapheme_start_mono(s@, n as int, n + 1);
    }
    if n < starts.len() {
        let begin = starts[n];
        let end = if n + 1 < starts.len() { starts[n + 1] } else { chars.len() };
        (begin, slice_chars(chars.as_slice(), begin, end))
    } else {
        (chars.len(), Vec::new())
    }
}

/// Where the `k` clusters that follow the start of a string end, and whether
/// the string ran out of clusters before that.
pub open spec fn grapheme_end_spec(text: Seq<char>, k: int) -> (int, bool) {
    if k == 0 {
        (0, false)
    } else if k - 1 < grapheme_count(text) {
        (grapheme_start(text, k), false)
    } else {
        (text.len() as int, true)
    }
}

/// Where the first `k` clusters of a string end, and whether the string ran
/// out of clusters before that.
pub fn grapheme_index_end(s: &str, k: usize) -> (r: (usize, bool))
    ensures
        (r.0 as int, r.1) == grapheme_end_spec(s@, k as int),
        r.0 <= s@.len(),
{
    let starts = grapheme_starts(s);
    let len = char_len(s);
    proof { lemma_grapheme_start_mono(s@, k as int, k as int); }
    if k == 0 {
        (0, false)
    } else if k - 1 < starts.len() {
        if k < starts.len() {
            (starts[k], false)
        } else {
            (len, false)
        }
    } else {
        (len, true)
    }
}

/// `needle` occurs in `hay` as a run of consecutive characters.
pub open spec fn is_substring(needle: Seq<char>, hay: Seq<char>) -> bool {
    exists|i: int| 0 <= i && i + needle.len() <= hay.len() && #[trigger] hay.subrange(i, i + needle.len()) == needle
}

/// Whether `needle` occurs in `hay`, as `str::contains` tells.
pub fn str_contains(hay: &str, needle: &str) -> (r: bool)
    ensures
        r == is_substring(needle@, hay@),
{
    let h = chars_of(hay);
    let n = chars_of(needle);
    if n.len() > h.len() {
        return false;
    }
    let last = h.len() - n.len();
    let mut i: usize = 0;
    while i <= last
        invariant
            i <= last,
            last + n@.len() == h@.len(),
            h@ == hay@,
            n@ == needle@,
            forall|k: int| 0 <= k < i ==> #[trigger] h@.subrange(k, k + n@.len()) != n@,
        decreases last - i,
    {
        let mut j: usize = 0;
        while j < n.len() && h[i + j] == n[j]
            invariant
                j <= n@.len(),
                i + n.len() <= h.len(),
                forall|t: int| 0 <= t < j ==> h@[i + t] == n@[t],
            decreases n@.len() - j,
        {
            j = j + 1;
        }
        if j == n.len() {
            proof { assert(h@.subrange(i as int, i + n@.len()) =~= n@); }
            return true;
        }
        proof { assert(h@.subrange(i as int, i + n@.len())[j as int] != n@[j as int]); }
        if i == last {
            proof {
                assert forall|k: int| 0 <= k && k + n@.len() <= h@.len() implies #[trigger] h@.subrange(k, k + n@.len()) != n@ by {
                    assert(k <= i);
                }
            }
            return false;
        }
        i = i + 1;
    }
    false
}

/// A copy of a list of strings.
pub fn clone_strings(v: &Vec<String>) -> (r: Vec<String>)
    ensures
        r@ == v@,
{
    let mut out: Vec<String> = Vec::new();
    let mut i: usize = 0;
    while i < v.len()
        invariant
            i <= v@.len(),
            out@ == v@.take(i as int),
        decreases v@.len() - i,
    {
        out.push(v[i].clone());
        proof { assert(v@.take(i + 1) =~= v@.take(i as int).push(v@[i as int])); }
        i = i + 1;
    }
    proof { assert(v@.take(v@.len() as int) =~= v@); }
    out
}

/// The strings laid end to end.
pub fn concat_strs(parts: &[&str]) -> (r: String)
    ensures
        r@ == concat_all(parts@.map_values(|p: &str| p@)),
{
    let mut out: Vec<char> = Vec::new();
    let mut i: usize = 0;
    while i < parts.len()
        invariant
            i <= parts.len(),
            out@ == concat_all(parts@.take(i as int).map_values(|p: &str| p@)),
        decreases parts.len() - i,
    {
        let cs = chars_of(parts[i]);
        let mut j: usize = 0;
        let ghost head = out@;
        while j < cs.len()
            invariant
                j <= cs.len(),
                out@ == head + cs@.take(j as int),
            decreases cs.len() - j,
        {
            out.push(cs[j]);
            proof { assert(cs@.take(j + 1) =~= cs@.take(j as int).push(cs@[j as int])); }
            j = j + 1;
        }
        proof {
            assert(cs@.take(cs@.len() as int) =~= cs@);
            assert(parts@.take(i + 1).map_values(|p: &str| p@).drop_last() =~= parts@.take(i as int).map_values(|p: &str| p@));
        }
        i = i + 1;
    }
    proof { assert(parts@.take(parts@.len() as int) =~= parts@); }
    string_of(&out)
}

/// Three pieces laid end to end.
pub proof fn lemma_concat_three(a: Seq<char>, b: Seq<char>, c: Seq<char>)
    ensures
        concat_all(seq![a, b, c]) == a + b + c,
{
    let v = seq![a, b, c];
    assert(v.drop_last() =~= seq![a, b]);
    assert(seq![a, b].drop_last() =~= seq![a]);
    assert(seq![a].drop_last() =~= Seq::<Seq<char>>::empty());
    assert(concat_all(Seq::<Seq<char>>::empty()) == Seq::<char>::empty());
    assert(concat_all(seq![a]) == Seq::<char>::empty() + a);
    assert(Seq::<char>::empty() + a =~= a);
    assert(concat_all(seq![a, b]) == concat_all(seq![a]) + b);
    assert(concat_all(v) == concat_all(seq![a, b]) + c);
}

/// Two pieces laid end to end.
pub proof fn lemma_concat_two(a: Seq<char>, b: Seq<char>)
    ensures
        concat_all(seq![a, b]) == a + b,
{
    assert(seq![a, b].drop_last() =~= seq![a]);
    assert(seq![a].drop_last() =~= Seq::<Seq<char>>::empty());
    assert(concat_all(Seq::<Seq<char>>::empty()) == Seq::<char>::empty());
    assert(seq![a].last() == a);
    assert(concat_all(seq![a]) == concat_all(seq![a].drop_last()) + seq![a].last());
    assert(Seq::<char>::empty() + a =~= a);
    assert(seq![a, b].last() == b);
    assert(concat_all(seq![a, b]) == concat_all(seq![a, b].drop_last()) + seq![a, b].last());
}

/// The decimal digit of `d`, for `d` below ten.
pub open spec fn digit_char(d: nat) -> char {
    if d == 0 { '0' }
    else if d == 1 { '1' }
    else if d == 2 { '2' }
    else if d == 3 { '3' }
    else if d == 4 { '4' }
    else if d == 5 { '5' }
    else if d == 6 { '6' }
    else if d == 7 { '7' }
    else if d == 8 { '8' }
    else { '9' }
}

/// The decimal digits of `n`, without leading zeros.
pub open spec fn nat_decimal(n: nat) -> Seq<char>
    decreases n,
{
    if n < 10 {
        seq![digit_char(n)]
    } else {
        nat_decimal(n / 10).push(digit_char(n % 10))
    }
}

/// The decimal form of `n`, with a minus sign when it is negative.
pub open spec fn int_decimal(n: int) -> Seq<char> {
    if n < 0 {
        seq!['-'] + nat_decimal((-n) as nat)
    } else {
        nat_decimal(n as nat)
    }
}

fn digit_of(d: u64) -> (r: char)
    requires
        d < 10,
    ensures
        r == digit_char(d as nat),
{
    if d == 0 { '0' }
    else if d == 1 { '1' }
    else if d == 2 { '2' }
    else if d == 3 { '3' }
    else if d == 4 { '4' }
    else if d == 5 { '5' }
    else if d == 6 { '6' }
    else if d == 7 { '7' }
    else if d == 8 { '8' }
    else { '9' }
}

fn push_decimal(n: u64, out: &mut Vec<char>)
    ensures
        final(out)@ == old(out)@ + nat_decimal(n as nat),
    decreases n,
{
    if n >= 10 {
        push_decimal(n / 10, out);
    }
    let d = digit_of(n % 10);
    out.push(d);
    proof {
        if n < 10 {
            assert(old(out)@ + nat_decimal(n as nat) =~= old(out)@.push(d));
        } else {
            assert(old(out)@ + nat_decimal(n as nat) =~= (old(out)@ + nat_decimal((n / 10) as nat)).push(d));
        }
    }
}

/// `n` written in decimal, as `format!("{}", n)` writes it.
pub fn decimal_string(n: i32) -> (r: String)
    ensures
        r@ == int_decimal(n as int),
{
    let mut out: Vec<char> = Vec::new();
    let wide: i64 = n as i64;
    if wide < 0 {
        out.push('-');
        push_decimal((-wide) as u64, &mut out);
    } else {
        push_decimal(wide as u64, &mut out);
    }
    proof {
        if wide < 0 {
            assert(out@ =~= seq!['-'] + nat_decimal((-n) as nat));
        } else {
            assert(out@ =~= nat_decimal(n as nat));
        }
    }
    string_of(&out)
}

} // verus!
