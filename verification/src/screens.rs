//! The desktop client's screen configuration: its data model and the rewriting of older KDL
//! booleans.
use vstd::prelude::*;
use vstd::string::{StrSliceExecFns, StringExecFns};

verus! {

/// The whole client configuration.
#[derive(Debug)]
pub struct AppConfig {
    pub server: ServerConfig,
    pub window: WindowConfig,
    pub screens: Vec<Screen>,
}

/// The window size.
#[derive(Clone, Copy, Debug, PartialEq, Eq, Structural)]
pub struct WindowConfig {
    pub width: i32,
    pub height: i32,
}

/// Where the server is.
#[derive(Debug)]
pub struct ServerConfig {
    pub host: String,
    pub port: u16,
}

/// One screen of the client.
#[derive(Debug)]
pub struct Screen {
    pub name: String,
    pub title: String,
    pub groups: Vec<Group>,
}

/// A group of elements on a screen.
#[derive(Debug)]
pub struct Group {
    pub elements: Vec<Element>,
}

/// One element on a screen.
#[derive(Debug)]
pub enum Element {
    Light { name: String, device_ref: DeviceRef, show_switch: bool, show_slider: bool },
    Outlet { name: String, device_ref: DeviceRef },
    Sensor { device_ref: DeviceRef, show_temp: bool, show_humidity: bool },
    Text { template: String },
    Block { elements: Vec<Element> },
}

/// How an element names its device.
#[derive(Debug)]
pub enum DeviceRef {
    ById(String),
    ByName(String),
}

/// Whether `c` ends a bare word: a space, a tab, a semicolon or a closing brace.
pub open spec fn word_end(c: char) -> bool {
    c == ' ' || c == '\t' || c == ';' || c == '}'
}

/// Whether `t` starts with the word `w` standing alone: `w` is followed by the end of `t` or by
/// a character that ends a word.
pub open spec fn starts_with_word(t: Seq<char>, w: Seq<char>) -> bool {
    t.len() >= w.len() && t.take(w.len() as int) == w && (t.len() == w.len() || word_end(t[w.len() as int]))
}

/// The length of the bare keyword `true`, `false` or `null` that starts `t` as a whole word, or
/// zero when none does.
pub open spec fn keyword_len(t: Seq<char>) -> int {
    if starts_with_word(t, seq!['t', 'r', 'u', 'e']) {
        4
    } else if starts_with_word(t, seq!['f', 'a', 'l', 's', 'e']) {
        5
    } else if starts_with_word(t, seq!['n', 'u', 'l', 'l']) {
        4
    } else {
        0
    }
}

/// `s` with a `#` put before every bare keyword `true`, `false` or `null` that follows a space
/// or a tab and stands as a whole word; everything else is kept.
pub open spec fn mark_keywords(s: Seq<char>) -> Seq<char>
    decreases s.len(),
{
    if s.len() == 0 {
        s
    } else if (s[0] == ' ' || s[0] == '\t') && keyword_len(s.skip(1)) > 0 {
        let w = keyword_len(s.skip(1));
        seq![s[0], '#'] + s.subrange(1, 1 + w) + mark_keywords(s.skip(1 + w))
    } else {
        seq![s[0]] + mark_keywords(s.skip(1))
    }
}

/// A line with its older bare booleans and nulls written the newer way: a whole-word `true`,
/// `false` or `null` after a space or a tab gains a `#`; lines holding a quote are left alone.
#[verifier::opaque]
pub open spec fn compat_line(l: Seq<char>) -> Seq<char> {
    if l.contains('"') {
        l
    } else {
        mark_keywords(l)
    }
}

/// The position of the first line feed in `s`.
pub open spec fn first_newline(s: Seq<char>) -> Option<int> {
    if exists|k: int| 0 <= k < s.len() && s[k] == '\n' {
        Some(choose|k: int| 0 <= k < s.len() && s[k] == '\n' && forall|j: int| 0 <= j < k ==> s[j] != '\n')
    } else {
        None
    }
}

/// A line without the carriage return that ended it.
pub open spec fn strip_cr(l: Seq<char>) -> Seq<char> {
    if l.len() > 0 && l.last() == '\r' { l.drop_last() } else { l }
}

/// The configuration text rewritten line by line: each line (split at line feeds, a carriage
/// return before a line feed dropped) rewritten by [`compat_line`] and ended with a line feed.
#[verifier::opaque]
pub open spec fn kdl_compat(s: Seq<char>) -> Seq<char>
    decreases s.len(),
{
    if s.len() == 0 {
        Seq::empty()
    } else {
        match first_newline(s) {
            None => compat_line(s).push('\n'),
            Some(k) => if 0 <= k < s.len() {
                compat_line(strip_cr(s.take(k))).push('\n') + kdl_compat(s.skip(k + 1))
            } else {
                Seq::empty()
            },
        }
    }
}

proof fn lemma_first_newline_at(s: Seq<char>, k: int)
    requires
        0 <= k < s.len(),
        s[k] == '\n',
        forall|j: int| 0 <= j < k ==> s[j] != '\n',
    ensures
        first_newline(s) == Some(k),
{
    let c = choose|c: int| 0 <= c < s.len() && s[c] == '\n' && forall|j: int| 0 <= j < c ==> s[j] != '\n';
    assert(0 <= c < s.len() && s[c] == '\n' && forall|j: int| 0 <= j < c ==> s[j] != '\n');
    if c < k {
        assert(s[c] != '\n');
    }
    if c > k {
        assert(s[k] != '\n');
    }
}

/// The characters of `s`.
fn chars_of(s: &str) -> (res: Vec<char>)
    ensures
        res@ == s@,
{
    let n = s.unicode_len();
    let mut out: Vec<char> = Vec::new();
    let mut i: usize = 0;
    while i < n
        invariant
            n == s@.len(),
            i <= n,
            out@ == s@.take(i as int),
        decreases n - i,
    {
        out.push(s.get_char(i));
        assert(s@.take(i as int + 1) =~= s@.take(i as int).push(s@[i as int]));
        i = i + 1;
    }
    assert(s@.take(n as int) =~= s@);
    out
}

/// Whether `pat` occurs in `s` at position `i`.
fn matches_at(s: &Vec<char>, i: usize, pat: &Vec<char>) -> (res: bool)
    requires
        i <= s@.len(),
    ensures
        res == (i + pat@.len() <= s@.len() && s@.subrange(i as int, i + pat@.len()) == pat@),
{
    if pat.len() > s.len() - i {
        return false;
    }
    let mut k: usize = 0;
    while k < pat.len()
        invariant
            i + pat@.len() <= s@.len(),
            s@.len() <= usize::MAX,
            k <= pat@.len(),
            forall|j: int| 0 <= j < k ==> s@[i + j] == pat@[j],
        decreases pat@.len() - k,
    {
        if s[i + k] != pat[k] {
            proof {
                assert(s@.subrange(i as int, i + pat@.len())[k as int] != pat@[k as int]);
            }
            return false;
        }
        k = k + 1;
    }
    assert(s@.subrange(i as int, i + pat@.len()) =~= pat@);
    true
}

/// The length of the bare keyword that starts at `i` as a whole word, or zero.
fn keyword_len_at(s: &Vec<char>, i: usize) -> (res: usize)
    requires
        i <= s@.len(),
    ensures
        res as int == keyword_len(s@.skip(i as int)),
{
    let ghost t = s@.skip(i as int);
    let tr = vec!['t', 'r', 'u', 'e'];
    let fa = vec!['f', 'a', 'l', 's', 'e'];
    let nu = vec!['n', 'u', 'l', 'l'];
    proof {
        assert(tr@ == seq!['t', 'r', 'u', 'e']);
        assert(fa@ == seq!['f', 'a', 'l', 's', 'e']);
        assert(nu@ == seq!['n', 'u', 'l', 'l']);
        assert forall|k: int| 0 <= k <= t.len() implies #[trigger] t.take(k) =~= s@.subrange(i as int, i + k) by {}
        assert forall|k: int| 0 <= k < t.len() implies #[trigger] t[k] == s@[i + k] by {}
    }
    let n = s.len();
    if matches_at(s, i, &tr) {
        assert(i + 4 <= n);
        if i + 4 == s.len() || is_word_end(s[i + 4]) {
            return 4;
        }
    }
    if matches_at(s, i, &fa) {
        assert(i + 5 <= n);
        if i + 5 == s.len() || is_word_end(s[i + 5]) {
            return 5;
        }
    }
    if matches_at(s, i, &nu) {
        assert(i + 4 <= n);
        if i + 4 == s.len() || is_word_end(s[i + 4]) {
            return 4;
        }
    }
    0
}

fn is_word_end(c: char) -> (res: bool)
    ensures
        res == word_end(c),
{
    c == ' ' || c == '\t' || c == ';' || c == '}'
}

/// `s` with a `#` before every bare whole-word keyword that follows a space or a tab.
fn mark_keywords_exec(s: &Vec<char>) -> (res: Vec<char>)
    ensures
        res@ == mark_keywords(s@),
{
    let mut out: Vec<char> = Vec::new();
    let mut i: usize = 0;
    assert(s@.skip(0) =~= s@);
    while i < s.len()
        invariant
            i <= s@.len(),
            out@ + mark_keywords(s@.skip(i as int)) == mark_keywords(s@),
        decreases s@.len() - i,
    {
        let ghost rest = s@.skip(i as int);
        assert(rest[0] == s@[i as int]);
        assert(rest.skip(1) =~= s@.skip(i + 1));
        let w: usize = if s[i] == ' ' || s[i] == '\t' { keyword_len_at(s, i + 1) } else { 0 };
        if w > 0 {
            let ghost before = out@;
            out.push(s[i]);
            out.push('#');
            let mut k: usize = 0;
            while k < w
                invariant
                    i + 1 + w <= s@.len(),
                    s@.len() == s.len(),
                    k <= w,
                    out@ == before + seq![s@[i as int], '#'] + s@.subrange(i + 1, i + 1 + k),
                decreases w - k,
            {
                out.push(s[i + 1 + k]);
                assert(s@.subrange(i + 1, i + 1 + k + 1) =~= s@.subrange(i + 1, i + 1 + k).push(s@[i + 1 + k]));
                k = k + 1;
            }
            proof {
                assert(rest.subrange(1, 1 + w) =~= s@.subrange(i + 1, i + 1 + w));
                assert(rest.skip(1 + w) =~= s@.skip(i + 1 + w));
                assert(out@ + mark_keywords(s@.skip(i + 1 + w)) =~= before + mark_keywords(rest));
            }
            i = i + 1 + w;
        } else {
            proof {
                assert(out@.push(s@[i as int]) + mark_keywords(s@.skip(i + 1)) =~= out@ + mark_keywords(rest));
            }
            out.push(s[i]);
            i = i + 1;
        }
    }
    assert(out@ + mark_keywords(s@.skip(s@.len() as int)) =~= out@);
    out
}

fn contains_quote(l: &Vec<char>) -> (res: bool)
    ensures
        res == l@.contains('"'),
{
    let mut i: usize = 0;
    while i < l.len()
        invariant
            i <= l@.len(),
            forall|j: int| 0 <= j < i ==> l@[j] != '"',
        decreases l@.len() - i,
    {
        if l[i] == '"' {
            return true;
        }
        i = i + 1;
    }
    false
}

fn compat_line_exec(l: &Vec<char>) -> (res: Vec<char>)
    ensures
        res@ == compat_line(l@),
{
    reveal(compat_line);
    if contains_quote(l) {
        return clone_chars(l);
    }
    mark_keywords_exec(l)
}

fn clone_chars(l: &Vec<char>) -> (res: Vec<char>)
    ensures
        res@ == l@,
{
    let mut out: Vec<char> = Vec::new();
    let mut i: usize = 0;
    while i < l.len()
        invariant
            i <= l@.len(),
            out@ == l@.take(i as int),
        decreases l@.len() - i,
    {
        out.push(l[i]);
        assert(l@.take(i as int + 1) =~= l@.take(i as int).push(l@[i as int]));
        i = i + 1;
    }
    assert(l@.take(l@.len() as int) =~= l@);
    out
}

/// The end of the line starting at `i`: the next line feed, or the end of the text.
fn line_end(s: &Vec<char>, i: usize) -> (j: usize)
    requires
        i <= s@.len(),
    ensures
        i <= j <= s@.len(),
        forall|k: int| i <= k < j ==> s@[k] != '\n',
        j < s@.len() ==> s@[j as int] == '\n',
{
    let mut j: usize = i;
    while j < s.len() && s[j] != '\n'
        invariant
            i <= j <= s@.len(),
            forall|k: int| i <= k < j ==> s@[k] != '\n',
        decreases s@.len() - j,
    {
        j = j + 1;
    }
    j
}

/// The characters from `i` to `j`, without a carriage return that ends them when a line feed follows.
fn take_line(s: &Vec<char>, i: usize, j: usize) -> (res: Vec<char>)
    requires
        i <= j <= s@.len(),
    ensures
        res@ == if j < s@.len() { strip_cr(s@.subrange(i as int, j as int)) } else { s@.subrange(i as int, j as int) },
{
    let mut line: Vec<char> = Vec::new();
    let mut k: usize = i;
    while k < j
        invariant
            i <= k <= j,
            j <= s@.len(),
            line@ == s@.subrange(i as int, k as int),
        decreases j - k,
    {
        line.push(s[k]);
        assert(s@.subrange(i as int, k as int + 1) =~= s@.subrange(i as int, k as int).push(s@[k as int]));
        k = k + 1;
    }
    if j < s.len() && line.len() > 0 && line[line.len() - 1] == '\r' {
        line.pop();
    }
    line
}

/// Appends the characters `chars` to `out`.
fn push_all(out: &mut String, chars: &Vec<char>)
    ensures
        final(out)@ == old(out)@ + chars@,
{
    let mut p: usize = 0;
    while p < chars.len()
        invariant
            p <= chars@.len(),
            out@ == old(out)@ + chars@.take(p as int),
        decreases chars@.len() - p,
    {
        out.push(chars[p]);
        assert(chars@.take(p as int + 1) =~= chars@.take(p as int).push(chars@[p as int]));
        p = p + 1;
    }
    assert(chars@.take(chars@.len() as int) =~= chars@);
}

/// A space or a tab.
pub open spec fn blank(c: char) -> bool {
    c == ' ' || c == '\t'
}

/// Marking never shortens a text.
proof fn lemma_mark_len(s: Seq<char>)
    ensures
        mark_keywords(s).len() >= s.len(),
    decreases s.len(),
{
    if s.len() > 0 {
        if blank(s[0]) && keyword_len(s.skip(1)) > 0 {
            lemma_mark_len(s.skip(1 + keyword_len(s.skip(1))));
        } else {
            lemma_mark_len(s.skip(1));
        }
    }
}

/// Every character other than `#` occurs in a marked text exactly when it occurs in the text.
proof fn lemma_mark_chars(s: Seq<char>, c: char)
    requires
        c != '#',
    ensures
        mark_keywords(s).contains(c) == s.contains(c),
    decreases s.len(),
{
    if s.len() > 0 {
        let m = mark_keywords(s);
        if blank(s[0]) && keyword_len(s.skip(1)) > 0 {
            let w = keyword_len(s.skip(1));
            let r = s.skip(1 + w);
            lemma_mark_chars(r, c);
            let head = seq![s[0], '#'] + s.subrange(1, 1 + w);
            assert(m == head + mark_keywords(r));
            assert(s =~= seq![s[0]] + s.subrange(1, 1 + w) + r);
            if m.contains(c) {
                let j = choose|j: int| 0 <= j < m.len() && m[j] == c;
                if j < head.len() {
                    if j == 0 {
                        assert(s[0] == c);
                    } else {
                        assert(s[j - 1] == c);
                    }
                } else {
                    assert(mark_keywords(r)[j - head.len()] == c);
                    let i = choose|i: int| 0 <= i < r.len() && r[i] == c;
                    assert(s[1 + w + i] == c);
                }
            }
            if s.contains(c) {
                let i = choose|i: int| 0 <= i < s.len() && s[i] == c;
                if i == 0 {
                    assert(m[0] == c);
                } else if i < 1 + w {
                    assert(m[i + 1] == c);
                } else {
                    assert(r[i - 1 - w] == c);
                    let j = choose|j: int| 0 <= j < mark_keywords(r).len() && mark_keywords(r)[j] == c;
                    assert(m[head.len() + j] == c);
                }
            }
        } else {
            let r = s.skip(1);
            lemma_mark_chars(r, c);
            assert(m == seq![s[0]] + mark_keywords(r));
            if m.contains(c) {
                let j = choose|j: int| 0 <= j < m.len() && m[j] == c;
                if j == 0 {
                    assert(s[0] == c);
                } else {
                    assert(mark_keywords(r)[j - 1] == c);
                    let i = choose|i: int| 0 <= i < r.len() && r[i] == c;
                    assert(s[1 + i] == c);
                }
            }
            if s.contains(c) {
                let i = choose|i: int| 0 <= i < s.len() && s[i] == c;
                if i == 0 {
                    assert(m[0] == c);
                } else {
                    assert(r[i - 1] == c);
                    let j = choose|j: int| 0 <= j < mark_keywords(r).len() && mark_keywords(r)[j] == c;
                    assert(m[1 + j] == c);
                }
            }
        }
    }
}

/// Marking keeps every character up to and including the first space or tab.
proof fn lemma_mark_prefix(s: Seq<char>, i: int)
    requires
        0 <= i < s.len(),
        forall|j: int| 0 <= j < i ==> !blank(#[trigger] s[j]),
    ensures
        mark_keywords(s).len() > i,
        mark_keywords(s)[i] == s[i],
    decreases i,
{
    lemma_mark_len(s);
    if i > 0 {
        assert(!blank(s[0]));
        let r = s.skip(1);
        assert forall|j: int| 0 <= j < i - 1 implies !blank(#[trigger] r[j]) by {
            assert(r[j] == s[j + 1]);
        }
        lemma_mark_prefix(r, i - 1);
        assert(mark_keywords(s) == seq![s[0]] + mark_keywords(r));
    }
}

/// A text without spaces or tabs is left as it is.
proof fn lemma_mark_no_blank(s: Seq<char>)
    requires
        forall|j: int| 0 <= j < s.len() ==> !blank(#[trigger] s[j]),
    ensures
        mark_keywords(s) == s,
    decreases s.len(),
{
    if s.len() > 0 {
        let r = s.skip(1);
        assert forall|j: int| 0 <= j < r.len() implies !blank(#[trigger] r[j]) by {
            assert(r[j] == s[j + 1]);
        }
        lemma_mark_no_blank(r);
        assert(seq![s[0]] + r =~= s);
    }
}

/// A text without spaces or tabs in front passes unchanged ahead of what follows.
proof fn lemma_mark_concat(a: Seq<char>, x: Seq<char>)
    requires
        forall|j: int| 0 <= j < a.len() ==> !blank(#[trigger] a[j]),
    ensures
        mark_keywords(a + x) == a + mark_keywords(x),
    decreases a.len(),
{
    if a.len() > 0 {
        let r = a.skip(1);
        assert forall|j: int| 0 <= j < r.len() implies !blank(#[trigger] r[j]) by {
            assert(r[j] == a[j + 1]);
        }
        lemma_mark_concat(r, x);
        assert((a + x)[0] == a[0]);
        assert((a + x).skip(1) =~= r + x);
        assert(seq![a[0]] + (r + mark_keywords(x)) =~= a + mark_keywords(x));
    }
}

/// Whether `t` starts with `w` as a whole word is the same after marking, for a word without
/// spaces or tabs.
proof fn lemma_mark_word(t: Seq<char>, w: Seq<char>)
    requires
        w.len() > 0,
        forall|j: int| 0 <= j < w.len() ==> !blank(#[trigger] w[j]),
    ensures
        starts_with_word(mark_keywords(t), w) == starts_with_word(t, w),
{
    let m = mark_keywords(t);
    lemma_mark_len(t);
    if exists|i: int| 0 <= i < t.len() && blank(t[i]) {
        let i = choose|i: int| 0 <= i < t.len() && blank(t[i]) && forall|j: int| 0 <= j < i ==> !blank(#[trigger] t[j]);
        assert(exists|i: int| 0 <= i < t.len() && blank(t[i]) && forall|j: int| 0 <= j < i ==> !blank(#[trigger] t[j])) by {
            lemma_first_blank(t);
        }
        assert forall|k: int| 0 <= k <= i implies m[k] == t[k] by {
            assert forall|j: int| 0 <= j < k implies !blank(#[trigger] t[j]) by {}
            lemma_mark_prefix(t, k);
        }
        if i < w.len() {
            if starts_with_word(t, w) {
                assert(t.take(w.len() as int)[i] == w[i]);
            }
            if starts_with_word(m, w) {
                assert(m.take(w.len() as int)[i] == w[i]);
            }
        } else {
            if starts_with_word(t, w) {
                assert(m.take(w.len() as int) =~= t.take(w.len() as int));
            }
            if starts_with_word(m, w) {
                assert(m.take(w.len() as int) =~= t.take(w.len() as int));
            }
        }
    } else {
        lemma_mark_no_blank(t);
    }
}

/// A text with a space or a tab has a first one.
proof fn lemma_first_blank(t: Seq<char>)
    requires
        exists|i: int| 0 <= i < t.len() && blank(t[i]),
    ensures
        exists|i: int| 0 <= i < t.len() && blank(t[i]) && forall|j: int| 0 <= j < i ==> !blank(#[trigger] t[j]),
    decreases t.len(),
{
    if blank(t[0]) {
        assert(forall|j: int| 0 <= j < 0 ==> !blank(#[trigger] t[j]));
    } else {
        let r = t.skip(1);
        let i0 = choose|i: int| 0 <= i < t.len() && blank(t[i]);
        assert(r[i0 - 1] == t[i0]);
        lemma_first_blank(r);
        let i = choose|i: int| 0 <= i < r.len() && blank(r[i]) && forall|j: int| 0 <= j < i ==> !blank(#[trigger] r[j]);
        assert(t[i + 1] == r[i]);
        assert forall|j: int| 0 <= j < i + 1 implies !blank(#[trigger] t[j]) by {
            if j > 0 {
                assert(t[j] == r[j - 1]);
            }
        }
    }
}

/// The keyword that starts a text is the same after marking.
proof fn lemma_mark_keyword_len(t: Seq<char>)
    ensures
        keyword_len(mark_keywords(t)) == keyword_len(t),
{
    let tr = seq!['t', 'r', 'u', 'e'];
    let fa = seq!['f', 'a', 'l', 's', 'e'];
    let nu = seq!['n', 'u', 'l', 'l'];
    lemma_mark_word(t, tr);
    lemma_mark_word(t, fa);
    lemma_mark_word(t, nu);
}

/// Marking a marked text changes nothing more.
proof fn lemma_mark_idempotent(s: Seq<char>)
    ensures
        mark_keywords(mark_keywords(s)) == mark_keywords(s),
    decreases s.len(),
{
    if s.len() > 0 {
        let m = mark_keywords(s);
        if blank(s[0]) && keyword_len(s.skip(1)) > 0 {
            let w = keyword_len(s.skip(1));
            let k = s.subrange(1, 1 + w);
            let r = s.skip(1 + w);
            lemma_mark_idempotent(r);
            assert(s.skip(1).take(w) =~= k);
            assert(forall|j: int| 0 <= j < k.len() ==> !blank(#[trigger] k[j]));
            let t1 = seq!['#'] + k + mark_keywords(r);
            assert(m =~= seq![s[0]] + t1);
            assert(m.skip(1) =~= t1);
            assert(keyword_len(t1) == 0);
            assert(mark_keywords(m) == seq![s[0]] + mark_keywords(t1));
            assert(t1.skip(1) =~= k + mark_keywords(r));
            assert(mark_keywords(t1) == seq!['#'] + mark_keywords(k + mark_keywords(r)));
            lemma_mark_concat(k, mark_keywords(r));
            assert(mark_keywords(m) =~= m);
        } else {
            let r = s.skip(1);
            lemma_mark_idempotent(r);
            assert(m =~= seq![s[0]] + mark_keywords(r));
            assert(m.skip(1) =~= mark_keywords(r));
            lemma_mark_keyword_len(r);
            assert(mark_keywords(m) == seq![s[0]] + mark_keywords(mark_keywords(r)));
        }
    }
}

/// Rewriting a rewritten line changes nothing more.
proof fn lemma_compat_line_idempotent(l: Seq<char>)
    ensures
        compat_line(compat_line(l)) == compat_line(l),
{
    reveal(compat_line);
    if !l.contains('"') {
        lemma_mark_chars(l, '"');
        lemma_mark_idempotent(l);
    }
}

/// A rewritten line holds a character other than `#` exactly when the line does.
proof fn lemma_compat_line_chars(l: Seq<char>, c: char)
    requires
        c != '#',
    ensures
        compat_line(l).contains(c) == l.contains(c),
{
    reveal(compat_line);
    if !l.contains('"') {
        lemma_mark_chars(l, c);
    }
}

/// The rewrite of a text that starts with a line free of line feeds and carriage returns.
#[verifier::spinoff_prover]
#[verifier::rlimit(40)]
proof fn lemma_compat_first_line(l: Seq<char>, tail: Seq<char>)
    requires
        !l.contains('\n'),
        !l.contains('\r'),
    ensures
        kdl_compat(l.push('\n') + tail) == compat_line(l).push('\n') + kdl_compat(tail),
{
    reveal(kdl_compat);
    let out = l.push('\n') + tail;
    assert forall|j: int| 0 <= j < l.len() implies out[j] != '\n' by {
        assert(out[j] == l[j]);
        if l[j] == '\n' {
            assert(l.contains('\n'));
        }
    }
    lemma_first_newline_at(out, l.len() as int);
    assert(out.take(l.len() as int) =~= l);
    assert(out.skip(l.len() as int + 1) =~= tail);
    assert(strip_cr(l) == l) by {
        if l.len() > 0 && l[l.len() - 1] == '\r' {
            assert(l.contains('\r'));
        }
    }
}

/// A text with a line feed has a first one.
proof fn lemma_first_newline_exists(t: Seq<char>)
    requires
        exists|i: int| 0 <= i < t.len() && t[i] == '\n',
    ensures
        exists|i: int| 0 <= i < t.len() && t[i] == '\n' && forall|j: int| 0 <= j < i ==> t[j] != '\n',
    decreases t.len(),
{
    if t[0] != '\n' {
        let r = t.skip(1);
        let i0 = choose|i: int| 0 <= i < t.len() && t[i] == '\n';
        assert(r[i0 - 1] == t[i0]);
        lemma_first_newline_exists(r);
        let i = choose|i: int| 0 <= i < r.len() && r[i] == '\n' && forall|j: int| 0 <= j < i ==> r[j] != '\n';
        assert(t[i + 1] == r[i]);
        assert forall|j: int| 0 <= j < i + 1 implies t[j] != '\n' by {
            if j > 0 {
                assert(t[j] == r[j - 1]);
            }
        }
    }
}

/// A text without `c` has no `c` in any part of it.
proof fn lemma_part_lacks(s: Seq<char>, a: int, b: int, c: char)
    requires
        0 <= a <= b <= s.len(),
        !s.contains(c),
    ensures
        !s.subrange(a, b).contains(c),
{
    if s.subrange(a, b).contains(c) {
        let j = choose|j: int| 0 <= j < b - a && s.subrange(a, b)[j] == c;
        assert(s[a + j] == c);
    }
}

/// Rewriting older KDL values is idempotent: rewriting the rewritten text of a configuration
/// without carriage returns gives the same text again.
pub proof fn law_kdl_compat_idempotent(s: Seq<char>)
    requires
        !s.contains('\r'),
    ensures
        kdl_compat(kdl_compat(s)) == kdl_compat(s),
    decreases s.len(),
{
    reveal(kdl_compat);
    if s.len() > 0 {
        match first_newline(s) {
            Some(k) => {
                assert(exists|i: int| 0 <= i < s.len() && s[i] == '\n');
                lemma_first_newline_exists(s);
                assert(0 <= k < s.len() && s[k] == '\n' && forall|j: int| 0 <= j < k ==> s[j] != '\n');
                let line = s.take(k);
                let rest = s.skip(k + 1);
                assert(line =~= s.subrange(0, k));
                assert(rest =~= s.subrange(k + 1, s.len() as int));
                lemma_part_lacks(s, 0, k, '\r');
                lemma_part_lacks(s, k + 1, s.len() as int, '\r');
                assert(!line.contains('\n')) by {
                    if line.contains('\n') {
                        let j = choose|j: int| 0 <= j < line.len() && line[j] == '\n';
                        assert(s[j] == '\n');
                    }
                }
                assert(strip_cr(line) == line) by {
                    if line.len() > 0 && line[line.len() - 1] == '\r' {
                        assert(line.contains('\r'));
                    }
                }
                let l2 = compat_line(line);
                lemma_compat_line_chars(line, '\n');
                lemma_compat_line_chars(line, '\r');
                lemma_compat_line_idempotent(line);
                law_kdl_compat_idempotent(rest);
                assert(kdl_compat(s) == l2.push('\n') + kdl_compat(rest));
                lemma_compat_first_line(l2, kdl_compat(rest));
            },
            None => {
                assert(!s.contains('\n'));
                let l2 = compat_line(s);
                lemma_compat_line_chars(s, '\n');
                lemma_compat_line_chars(s, '\r');
                lemma_compat_line_idempotent(s);
                assert(kdl_compat(s) == l2.push('\n'));
                assert(l2.push('\n') + Seq::<char>::empty() =~= l2.push('\n'));
                lemma_compat_first_line(l2, Seq::<char>::empty());
                assert(kdl_compat(Seq::<char>::empty()) == Seq::<char>::empty());
                assert(compat_line(l2).push('\n') + Seq::<char>::empty() =~= compat_line(l2).push('\n'));
            },
        }
    }
}

proof fn lemma_compat_step(s: Seq<char>, i: int, j: int)
    requires
        0 <= i < s.len(),
        i <= j <= s.len(),
        forall|k: int| i <= k < j ==> s[k] != '\n',
        j < s.len() ==> s[j] == '\n',
    ensures
        kdl_compat(s.skip(i)) == compat_line(if j < s.len() { strip_cr(s.subrange(i, j)) } else { s.subrange(i, j) }).push('\n')
            + if j < s.len() { kdl_compat(s.skip(j + 1)) } else { Seq::empty() },
{
    reveal(kdl_compat);
    let rest = s.skip(i);
    if j < s.len() {
        lemma_first_newline_at(rest, j - i);
        assert(rest.take(j - i) =~= s.subrange(i, j));
        assert(rest.skip(j - i + 1) =~= s.skip(j + 1));
    } else {
        assert(rest =~= s.subrange(i, j));
        assert forall|k: int| 0 <= k < rest.len() implies rest[k] != '\n' by {
            assert(rest[k] == s[i + k]);
        }
        assert(first_newline(rest) is None);
        assert(compat_line(rest).push('\n') + Seq::<char>::empty() =~= compat_line(rest).push('\n'));
    }
}

/// Rewrites older KDL bare `true`, `false` and `null` values as `#true`, `#false` and `#null`,
/// line by line, on lines that hold no quoted string; only whole words after a space or a tab are
/// rewritten (`truecolor` stays). Every line comes out ended by a line feed.
#[verifier::spinoff_prover]
pub fn preprocess_kdl_v1_compat(content: &str) -> (res: String)
    ensures
        res@ == kdl_compat(content@),
{
    let s = chars_of(content);
    let n = s.len();
    let mut result = String::new();
    let mut i: usize = 0;
    assert(s@.skip(0) =~= s@);
    while i < n
        invariant
            n == s@.len(),
            s@ == content@,
            i <= n,
            result@ + kdl_compat(s@.skip(i as int)) == kdl_compat(s@),
        decreases n - i,
    {
        let j = line_end(&s, i);
        let line = take_line(&s, i, j);
        let processed = compat_line_exec(&line);
        let ghost before = result@;
        push_all(&mut result, &processed);
        result.push('\n');
        proof {
            lemma_compat_step(s@, i as int, j as int);
            if j < n {
                assert(result@ + kdl_compat(s@.skip(j + 1)) =~= before + kdl_compat(s@.skip(i as int)));
            } else {
                assert(s@.skip(n as int) =~= Seq::<char>::empty());
                assert(kdl_compat(Seq::<char>::empty()) == Seq::<char>::empty()) by { reveal(kdl_compat); }
                assert(result@ + kdl_compat(s@.skip(n as int)) =~= before + kdl_compat(s@.skip(i as int)));
            }
        }
        i = if j < n { j + 1 } else { n };
    }
    assert(s@.skip(n as int) =~= Seq::<char>::empty());
    assert(kdl_compat(Seq::<char>::empty()) == Seq::<char>::empty()) by { reveal(kdl_compat); }
    assert(result@ + Seq::<char>::empty() =~= result@);
    result
}

} // verus!
