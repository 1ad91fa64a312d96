//! Text helpers over character sequences: trimming, line splitting, searching,
//! joining and decimal rendering, each stated over `Seq<char>`.
use vstd::prelude::*;

verus! {

/// Whether `c` carries the Unicode `White_Space` property, as `char::is_whitespace`
/// reports it: the 25 code points that `PropList.txt` lists.
pub open spec fn white_space(c: char) -> bool {
    let n = c as u32;
    ||| 0x9 <= n <= 0xD
    ||| n == 0x20
    ||| n == 0x85
    ||| n == 0xA0
    ||| n == 0x1680
    ||| 0x2000 <= n <= 0x200A
    ||| n == 0x2028
    ||| n == 0x2029
    ||| n == 0x202F
    ||| n == 0x205F
    ||| n == 0x3000
}

/// What `str::to_lowercase` gives for a string: its Unicode lowercase mapping.
pub uninterp spec fn lowercase(s: Seq<char>) -> Seq<char>;

/// Whether `c` is white space, as `char::is_whitespace` reports it: one of
/// the code points with the Unicode `White_Space` property.
pub fn is_whitespace(c: char) -> (r: bool)
    ensures
        r == white_space(c),
{
    let n = c as u32;
    (0x9 <= n && n <= 0xD) || n == 0x20 || n == 0x85 || n == 0xA0 || n == 0x1680 || (0x2000 <= n
        && n <= 0x200A) || n == 0x2028 || n == 0x2029 || n == 0x202F || n == 0x205F || n == 0x3000
}

/// Calls `str::to_lowercase`. The result depends on the argument alone and is
/// named by `lowercase`; the Unicode case mapping itself is not stated.
#[verifier::external_body]
pub fn to_lowercase(s: &str) -> (r: String)
    ensures
        r@ == lowercase(s@),
{
    s.to_lowercase()
}

/// Calls `String::push`, which appends one character.
#[verifier::external_body]
pub fn push_char(s: &mut String, c: char)
    ensures
        final(s)@ == old(s)@.push(c),
{
    s.push(c);
}

/// The characters of `s`, in order.
pub fn chars_of(s: &str) -> (v: Vec<char>)
    ensures
        v@ == s@,
{
    let mut v: Vec<char> = Vec::new();
    for c in it: s.chars()
        invariant
            v@ == it.seq().take(it.index() as int),
    {
        v.push(c);
    }
    v
}

/// The characters `v[from..to]` as a string.
pub fn collect(v: &Vec<char>, from: usize, to: usize) -> (s: String)
    requires
        from <= to <= v.len(),
    ensures
        s@ == v@.subrange(from as int, to as int),
{
    let mut s = String::new();
    let mut i = from;
    while i < to
        invariant
            from <= i <= to <= v.len(),
            s@ == v@.subrange(from as int, i as int),
        decreases to - i,
    {
        push_char(&mut s, v[i]);
        assert(v@.subrange(from as int, i + 1) =~= v@.subrange(from as int, i as int).push(v@[i as int]));
        i = i + 1;
    }
    s
}

/// A copy of `s` as an owned string.
pub fn owned(s: &str) -> (r: String)
    ensures
        r@ == s@,
{
    s.to_owned()
}

/// Whether two strings hold the same characters.
pub fn same(a: &str, b: &str) -> (r: bool)
    ensures
        r == (a@ == b@),
{
    let x = chars_of(a);
    let y = chars_of(b);
    if x.len() != y.len() {
        return false;
    }
    let mut i: usize = 0;
    while i < x.len()
        invariant
            x.len() == y.len(),
            x@ == a@,
            y@ == b@,
            i <= x.len(),
            forall|k: int| 0 <= k < i ==> x@[k] == y@[k],
        decreases x.len() - i,
    {
        if x[i] != y[i] {
            assert(a@[i as int] != b@[i as int]);
            return false;
        }
        i = i + 1;
    }
    assert(x@ =~= y@);
    true
}

// ------------------------------------------------------------------------
// Trimming
// ------------------------------------------------------------------------

/// `s` without its trailing white space.
pub open spec fn trim_end(s: Seq<char>) -> Seq<char>
    decreases s.len(),
{
    if s.len() > 0 && white_space(s.last()) {
        trim_end(s.drop_last())
    } else {
        s
    }
}

/// `s` without its leading white space.
pub open spec fn trim_start(s: Seq<char>) -> Seq<char>
    decreases s.len(),
{
    if s.len() > 0 && white_space(s[0]) {
        trim_start(s.drop_first())
    } else {
        s
    }
}

/// `s` without white space at either end.
pub open spec fn trim(s: Seq<char>) -> Seq<char> {
    trim_start(trim_end(s))
}

/// The end of the untrimmed part of `v[..to]`.
fn trimmed_end(v: &Vec<char>, to: usize) -> (j: usize)
    requires
        to <= v.len(),
    ensures
        j <= to,
        trim_end(v@.take(to as int)) == v@.take(j as int),
{
    let mut j = to;
    while j > 0 && is_whitespace(v[j - 1])
        invariant
            j <= to <= v.len(),
            trim_end(v@.take(to as int)) == trim_end(v@.take(j as int)),
        decreases j,
    {
        assert(v@.take(j as int).drop_last() =~= v@.take(j - 1));
        j = j - 1;
    }
    j
}

/// The start of the untrimmed part of `v[from..to]`.
fn trimmed_start(v: &Vec<char>, from: usize, to: usize) -> (i: usize)
    requires
        from <= to <= v.len(),
    ensures
        from <= i <= to,
        trim_start(v@.subrange(from as int, to as int)) == v@.subrange(i as int, to as int),
{
    let mut i = from;
    while i < to && is_whitespace(v[i])
        invariant
            from <= i <= to <= v.len(),
            trim_start(v@.subrange(from as int, to as int)) == trim_start(
                v@.subrange(i as int, to as int),
            ),
        decreases to - i,
    {
        assert(v@.subrange(i as int, to as int).drop_first() =~= v@.subrange(i + 1, to as int));
        i = i + 1;
    }
    i
}

/// `s` without its trailing white space.
pub fn trim_end_str(s: &str) -> (r: String)
    ensures
        r@ == trim_end(s@),
{
    let v = chars_of(s);
    let j = trimmed_end(&v, v.len());
    assert(v@.take(v.len() as int) =~= v@);
    proof {
        assert(v@.take(j as int) =~= v@.subrange(0, j as int));
    }
    collect(&v, 0, j)
}

/// `s` without white space at either end.
pub fn trim_str(s: &str) -> (r: String)
    ensures
        r@ == trim(s@),
{
    let v = chars_of(s);
    let j = trimmed_end(&v, v.len());
    assert(v@.take(v.len() as int) =~= v@);
    assert(v@.take(j as int) =~= v@.subrange(0, j as int));
    let i = trimmed_start(&v, 0, j);
    collect(&v, i, j)
}

// ------------------------------------------------------------------------
// Lines
// ------------------------------------------------------------------------

/// A line as `str::lines` yields it: a carriage return before the newline is dropped.
pub open spec fn strip_cr(line: Seq<char>) -> Seq<char> {
    if line.len() > 0 && line.last() == '\r' {
        line.drop_last()
    } else {
        line
    }
}

/// The lines of `s`, given that `cur` is the unfinished line before it.
pub open spec fn lines_after(s: Seq<char>, cur: Seq<char>) -> Seq<Seq<char>>
    decreases s.len(),
{
    if s.len() == 0 {
        if cur.len() == 0 {
            seq![]
        } else {
            seq![cur]
        }
    } else if s[0] == '\n' {
        seq![strip_cr(cur)] + lines_after(s.drop_first(), seq![])
    } else {
        lines_after(s.drop_first(), cur.push(s[0]))
    }
}

/// The lines of `s` as `str::lines` splits them: at each newline, with a
/// carriage return before it dropped and no empty line after a final newline.
pub open spec fn lines(s: Seq<char>) -> Seq<Seq<char>> {
    lines_after(s, seq![])
}

/// The lines of `s` that are not empty.
pub open spec fn nonempty_lines(s: Seq<char>) -> Seq<Seq<char>> {
    lines(s).filter(nonempty())
}

/// The test that keeps a line: that it is not empty.
pub open spec fn nonempty() -> spec_fn(Seq<char>) -> bool {
    |l: Seq<char>| l.len() > 0
}

/// The lines of `s`, split as `str::lines` splits them.
pub fn split_lines(s: &str) -> (out: Vec<String>)
    ensures
        out.deep_view() == lines(s@),
{
    let v = chars_of(s);
    let mut out: Vec<String> = Vec::new();
    let mut start: usize = 0;
    let mut i: usize = 0;
    assert(v@.skip(0) =~= v@);
    assert(v@.subrange(0, 0) =~= Seq::<char>::empty());
    while i < v.len()
        invariant
            start <= i <= v.len(),
            out.deep_view() + lines_after(v@.skip(i as int), v@.subrange(start as int, i as int))
                == lines(v@),
        decreases v.len() - i,
    {
        let ghost rest = v@.skip(i as int);
        let ghost cur = v@.subrange(start as int, i as int);
        assert(rest[0] == v@[i as int]);
        assert(rest.drop_first() =~= v@.skip(i + 1));
        if v[i] == '\n' {
            let mut end = i;
            if end > start && v[end - 1] == '\r' {
                end = end - 1;
                assert(strip_cr(cur) =~= v@.subrange(start as int, end as int));
            } else {
                assert(strip_cr(cur) =~= v@.subrange(start as int, end as int));
            }
            let line = collect(&v, start, end);
            let ghost before = out.deep_view();
            out.push(line);
            assert(out.deep_view() =~= before.push(strip_cr(cur)));
            assert(v@.subrange(i + 1, i + 1) =~= Seq::<char>::empty());
            assert(before + (seq![strip_cr(cur)] + lines_after(
                v@.skip(i + 1),
                seq![],
            )) =~= before.push(strip_cr(cur)) + lines_after(v@.skip(i + 1), seq![]));
            start = i + 1;
        } else {
            assert(cur.push(v@[i as int]) =~= v@.subrange(start as int, i + 1));
        }
        i = i + 1;
    }
    if start < v.len() {
        let line = collect(&v, start, v.len());
        let ghost before = out.deep_view();
        out.push(line);
        assert(out.deep_view() =~= before.push(v@.subrange(start as int, v.len() as int)));
        assert(before + seq![v@.subrange(start as int, v.len() as int)] =~= out.deep_view());
    } else {
        assert(out.deep_view() + seq![] =~= out.deep_view());
    }
    out
}

/// The lines of `s` that are not empty, in order.
pub fn nonempty_lines_of(s: &str) -> (out: Vec<String>)
    ensures
        out.deep_view() == nonempty_lines(s@),
{
    let all = split_lines(s);
    let ghost pred = nonempty();
    let mut out: Vec<String> = Vec::new();
    let mut i: usize = 0;
    assert(all.deep_view().take(0) =~= Seq::<Seq<char>>::empty());
    while i < all.len()
        invariant
            i <= all.len(),
            pred == nonempty(),
            all.deep_view() == lines(s@),
            out.deep_view() == all.deep_view().take(i as int).filter(pred),
        decreases all.len() - i,
    {
        let ghost prefix = all.deep_view().take(i as int);
        let ghost line = all.deep_view()[i as int];
        assert(all.deep_view().take(i + 1) =~= prefix.push(line));
        proof {
            prefix.lemma_filter_push(line, pred);
        }
        assert(line == all[i as int]@);
        if !all[i].as_str().is_empty() {
            let ghost before = out.deep_view();
            let copy = all[i].clone();
            out.push(copy);
            assert(out.deep_view() =~= before.push(line));
        } else {
            assert(!pred(line));
        }
        i = i + 1;
    }
    assert(all.deep_view().take(all.len() as int) =~= all.deep_view());
    out
}

// ------------------------------------------------------------------------
// Searching
// ------------------------------------------------------------------------

/// `needle` stands in `hay` starting at position `i`.
pub open spec fn occurs_at(hay: Seq<char>, needle: Seq<char>, i: int) -> bool {
    0 <= i && i + needle.len() <= hay.len() && hay.subrange(i, i + needle.len()) == needle
}

/// `needle` stands somewhere in `hay`.
pub open spec fn contains(hay: Seq<char>, needle: Seq<char>) -> bool {
    exists|i: int| occurs_at(hay, needle, i)
}

fn matches_at(hay: &Vec<char>, needle: &Vec<char>, i: usize) -> (r: bool)
    requires
        i + needle.len() <= hay.len(),
    ensures
        r == occurs_at(hay@, needle@, i as int),
{
    let mut k: usize = 0;
    while k < needle.len()
        invariant
            i + needle.len() <= hay.len(),
            k <= needle.len(),
            forall|j: int| 0 <= j < k ==> hay@[i + j] == needle@[j],
        decreases needle.len() - k,
    {
        if hay[i + k] != needle[k] {
            assert(hay@.subrange(i as int, i + needle.len())[k as int] != needle@[k as int]);
            return false;
        }
        k = k + 1;
    }
    assert(hay@.subrange(i as int, i + needle.len()) =~= needle@);
    true
}

/// Whether `needle` stands somewhere in `hay`.
pub fn contains_str(hay: &str, needle: &str) -> (r: bool)
    ensures
        r == contains(hay@, needle@),
{
    let h = chars_of(hay);
    let n = chars_of(needle);
    if n.len() > h.len() {
        return false;
    }
    let last = h.len() - n.len();
    let mut i: usize = 0;
    loop
        invariant
            last + n.len() == h.len(),
            h@ == hay@,
            n@ == needle@,
            i <= last,
            forall|j: int| 0 <= j < i ==> !occurs_at(h@, n@, j),
        decreases last - i,
    {
        if matches_at(&h, &n, i) {
            assert(occurs_at(hay@, needle@, i as int));
            return true;
        }
        if i == last {
            assert forall|j: int| !occurs_at(h@, n@, j) by {
                if 0 <= j <= last {
                }
            }
            return false;
        }
        i = i + 1;
    }
}

/// Whether `s` begins with `prefix`.
pub fn starts_with(s: &str, prefix: &str) -> (r: bool)
    ensures
        r == prefix@.is_prefix_of(s@),
{
    let v = chars_of(s);
    let p = chars_of(prefix);
    if p.len() > v.len() {
        return false;
    }
    let r = matches_at(&v, &p, 0);
    assert(v@.subrange(0, p.len() as int) == v@.take(p.len() as int));
    proof {
        if r {
            assert forall|k: int| 0 <= k < p@.len() implies p@[k] == v@[k] by {
                assert(v@.subrange(0, p.len() as int)[k] == v@[k]);
            }
        } else {
            if p@.is_prefix_of(v@) {
                assert(v@.subrange(0, p.len() as int) =~= p@);
            }
        }
    }
    r
}

/// What is left of `s` after `prefix`, when `s` begins with it.
pub open spec fn after_prefix(s: Seq<char>, prefix: Seq<char>) -> Option<Seq<char>> {
    if prefix.is_prefix_of(s) {
        Some(s.skip(prefix.len() as int))
    } else {
        None
    }
}

/// `s` without `prefix`, when `s` begins with it.
pub fn strip_prefix(s: &str, prefix: &str) -> (r: Option<String>)
    ensures
        r.deep_view() == after_prefix(s@, prefix@),
{
    if starts_with(s, prefix) {
        let v = chars_of(s);
        let p = chars_of(prefix);
        let rest = collect(&v, p.len(), v.len());
        assert(v@.subrange(p.len() as int, v.len() as int) =~= s@.skip(prefix@.len() as int));
        Some(rest)
    } else {
        None
    }
}

// ------------------------------------------------------------------------
// Joining
// ------------------------------------------------------------------------

/// `parts` joined by `sep`, as `[String]::join` joins them.
pub open spec fn join(parts: Seq<Seq<char>>, sep: Seq<char>) -> Seq<char>
    decreases parts.len(),
{
    if parts.len() == 0 {
        seq![]
    } else if parts.len() == 1 {
        parts[0]
    } else {
        join(parts.drop_last(), sep) + sep + parts.last()
    }
}

/// The first `n` of `parts` joined by `sep`.
pub fn join_first(parts: &Vec<String>, n: usize, sep: &str) -> (r: String)
    requires
        n <= parts.len(),
    ensures
        r@ == join(parts.deep_view().take(n as int), sep@),
{
    let mut r = String::new();
    let mut i: usize = 0;
    assert(parts.deep_view().take(0) =~= Seq::<Seq<char>>::empty());
    while i < n
        invariant
            i <= n <= parts.len(),
            r@ == join(parts.deep_view().take(i as int), sep@),
        decreases n - i,
    {
        let ghost next = parts.deep_view().take(i + 1);
        assert(next.drop_last() =~= parts.deep_view().take(i as int));
        assert(next.last() == parts[i as int]@);
        if i > 0 {
            r.append(sep);
        } else {
            assert(next =~= seq![parts[0]@]);
        }
        r.append(parts[i].as_str());
        i = i + 1;
    }
    r
}

// ------------------------------------------------------------------------
// Decimal numbers
// ------------------------------------------------------------------------

/// The decimal digit for `d`.
pub open spec fn digit(d: nat) -> char {
    if d == 0 {
        '0'
    } else if d == 1 {
        '1'
    } else if d == 2 {
        '2'
    } else if d == 3 {
        '3'
    } else if d == 4 {
        '4'
    } else if d == 5 {
        '5'
    } else if d == 6 {
        '6'
    } else if d == 7 {
        '7'
    } else if d == 8 {
        '8'
    } else {
        '9'
    }
}

/// `n` written in decimal, as `{}` formats an unsigned integer.
pub open spec fn decimal(n: nat) -> Seq<char>
    decreases n,
{
    if n < 10 {
        seq![digit(n)]
    } else {
        decimal(n / 10).push(digit(n % 10))
    }
}

fn digit_char(d: u64) -> (c: char)
    requires
        d < 10,
    ensures
        c == digit(d as nat),
{
    if d == 0 {
        '0'
    } else if d == 1 {
        '1'
    } else if d == 2 {
        '2'
    } else if d == 3 {
        '3'
    } else if d == 4 {
        '4'
    } else if d == 5 {
        '5'
    } else if d == 6 {
        '6'
    } else if d == 7 {
        '7'
    } else if d == 8 {
        '8'
    } else {
        '9'
    }
}

/// Appends `n` in decimal to `out`.
pub fn push_decimal(out: &mut String, n: u64)
    ensures
        final(out)@ == old(out)@ + decimal(n as nat),
    decreases n,
{
    if n >= 10 {
        push_decimal(out, n / 10);
    }
    push_char(out, digit_char(n % 10));
    proof {
        if n < 10 {
            assert(n % 10 == n);
        }
        assert(out@ =~= old(out)@ + decimal(n as nat));
    }
}


// ------------------------------------------------------------------------
// Facts about trimming
// ------------------------------------------------------------------------

/// Every character of `s` is white space.
pub open spec fn all_white(s: Seq<char>) -> bool {
    forall|i: int| 0 <= i < s.len() ==> white_space(#[trigger] s[i])
}

/// Trailing white space goes, and nothing before it.
pub proof fn lemma_trim_end_white_tail(x: Seq<char>, w: Seq<char>)
    requires
        all_white(w),
    ensures
        trim_end(x + w) == trim_end(x),
    decreases w.len(),
{
    if w.len() > 0 {
        assert((x + w).last() == w.last());
        assert((x + w).drop_last() =~= x + w.drop_last());
        lemma_trim_end_white_tail(x, w.drop_last());
    } else {
        assert(x + w =~= x);
    }
}

/// Leading white space goes, and nothing after it.
pub proof fn lemma_trim_start_white_head(w: Seq<char>, x: Seq<char>)
    requires
        all_white(w),
    ensures
        trim_start(w + x) == trim_start(x),
    decreases w.len(),
{
    if w.len() > 0 {
        assert((w + x)[0] == w[0]);
        assert((w + x).drop_first() =~= w.drop_first() + x);
        lemma_trim_start_white_head(w.drop_first(), x);
    } else {
        assert(w + x =~= x);
    }
}

/// Trimming white space around text that neither begins nor ends with any
/// gives back that text.
pub proof fn lemma_trim_around(w1: Seq<char>, u: Seq<char>, w2: Seq<char>)
    requires
        all_white(w1),
        all_white(w2),
        u.len() > 0,
        !white_space(u[0]),
        !white_space(u.last()),
    ensures
        trim(w1 + u + w2) == u,
{
    lemma_trim_end_white_tail(w1 + u, w2);
    assert((w1 + u).last() == u.last());
    assert(trim_end(w1 + u) == w1 + u);
    lemma_trim_start_white_head(w1, u);
}


/// A number is written in decimal: one digit character below ten, and above
/// that the digits of the tens followed by the digit of the units.
pub proof fn law_decimal_is_written_digit_by_digit(n: nat)
    ensures
        n < 10 ==> decimal(n).len() == 1 && decimal(n)[0] as u32 == '0' as u32 + n,
        n >= 10 ==> decimal(n) == decimal(n / 10) + decimal(n % 10),
{
    if n >= 10 {
        assert(decimal(n % 10) == seq![digit(n % 10)]);
        assert(decimal(n / 10).push(digit(n % 10)) =~= decimal(n / 10) + seq![digit(n % 10)]);
    }
}
} // verus!
