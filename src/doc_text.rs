//! Package metadata, module lists and usage examples read out of source
//! text, for generated documentation: the value of a `key = "value"` line of
//! a `Cargo.toml`, the names that `pub mod name;` lines declare, and the
//! usage HTML of an example program.
//!
//! Text is taken line by line (a line ends at `\n`); each line is trimmed of
//! Unicode white space before it is looked at.
use vstd::prelude::*;
use vstd::string::{StrSliceExecFns, StringExecFns};

verus! {

/// `c` is Unicode white space (what `char::is_whitespace` accepts).
pub open spec fn is_space(c: char) -> bool {
    let u = c as u32;
    (0x9 <= u && u <= 0xd) || u == 0x20 || u == 0x85 || u == 0xa0 || u == 0x1680 || (0x2000 <= u
        && u <= 0x200a) || u == 0x2028 || u == 0x2029 || u == 0x202f || u == 0x205f || u == 0x3000
}

/// The characters that trimming removes: white space, or the double quote.
pub open spec fn strip_pred(quotes: bool) -> spec_fn(char) -> bool {
    if quotes {
        |c: char| c == '"'
    } else {
        |c: char| is_space(c)
    }
}

/// `s` without its leading characters that satisfy `p`.
pub open spec fn strip_start(s: Seq<char>, p: spec_fn(char) -> bool) -> Seq<char>
    decreases s.len(),
{
    if s.len() > 0 && p(s[0]) {
        strip_start(s.drop_first(), p)
    } else {
        s
    }
}

/// `s` without its trailing characters that satisfy `p`.
pub open spec fn strip_end(s: Seq<char>, p: spec_fn(char) -> bool) -> Seq<char>
    decreases s.len(),
{
    if s.len() > 0 && p(s.last()) {
        strip_end(s.drop_last(), p)
    } else {
        s
    }
}

/// `s` without the characters that satisfy `p` at either end.
pub open spec fn strip(s: Seq<char>, p: spec_fn(char) -> bool) -> Seq<char> {
    strip_end(strip_start(s, p), p)
}

/// `s` trimmed of white space.
pub open spec fn trim(s: Seq<char>) -> Seq<char> {
    strip(s, strip_pred(false))
}

/// The index of the first `c` in `s`, or the length of `s` where there is none.
pub open spec fn find_char(s: Seq<char>, c: char) -> nat
    decreases s.len(),
{
    if s.len() == 0 {
        0
    } else if s[0] == c {
        0
    } else {
        1 + find_char(s.drop_first(), c)
    }
}

/// The value a trimmed line gives for `key`: when the line starts with `key`
/// and holds an `=`, the text between the first `=` and the next one (or the
/// end), trimmed, and stripped of double quotes at both ends.
pub open spec fn toml_line_value(line: Seq<char>, key: Seq<char>) -> Option<Seq<char>> {
    let t = trim(line);
    if key.is_prefix_of(t) && t.contains('=') {
        let rest = t.subrange(find_char(t, '=') as int + 1, t.len() as int);
        Some(strip(trim(rest.take(find_char(rest, '=') as int)), strip_pred(true)))
    } else {
        None
    }
}

/// The value of the first line of `s` that gives one for `key`, or the
/// empty text.
pub open spec fn toml_value(s: Seq<char>, key: Seq<char>) -> Seq<char>
    decreases s.len(),
{
    let e = find_char(s, '\n');
    match toml_line_value(s.take(e as int), key) {
        Some(v) => v,
        None => if e < s.len() {
            toml_value(s.skip(e as int + 1), key)
        } else {
            Seq::empty()
        },
    }
}

/// The module a trimmed line declares: the line starts with `pub mod ` and
/// ends with `;`, and the name is what stands between, trimmed.
pub open spec fn module_line(line: Seq<char>) -> Option<Seq<char>> {
    let t = trim(line);
    if "pub mod "@.is_prefix_of(t) && t.len() > 0 && t.last() == ';' {
        Some(trim(t.subrange(8, t.len() - 1)))
    } else {
        None
    }
}

/// The modules the lines of `s` declare, in order.
pub open spec fn module_names(s: Seq<char>) -> Seq<Seq<char>>
    decreases s.len(),
{
    let e = find_char(s, '\n');
    let here = match module_line(s.take(e as int)) {
        Some(m) => seq![m],
        None => Seq::empty(),
    };
    if e < s.len() {
        here + module_names(s.skip(e as int + 1))
    } else {
        here
    }
}

proof fn lemma_find_char(s: Seq<char>, c: char, k: int)
    requires
        0 <= k <= s.len(),
        forall|j: int| 0 <= j < k ==> s[j] != c,
        k == s.len() || s[k] == c,
    ensures
        find_char(s, c) == k,
    decreases k,
{
    if k > 0 {
        lemma_find_char(s.drop_first(), c, k - 1);
    }
}

proof fn lemma_strip_start(s: Seq<char>, p: spec_fn(char) -> bool, a: int)
    requires
        0 <= a <= s.len(),
        forall|j: int| 0 <= j < a ==> p(s[j]),
        a == s.len() || !p(s[a]),
    ensures
        strip_start(s, p) == s.subrange(a, s.len() as int),
    decreases a,
{
    if a > 0 {
        lemma_strip_start(s.drop_first(), p, a - 1);
        assert(s.drop_first().subrange(a - 1, s.len() - 1) =~= s.subrange(a, s.len() as int));
    } else {
        assert(s.subrange(0, s.len() as int) =~= s);
    }
}

proof fn lemma_strip_end(s: Seq<char>, p: spec_fn(char) -> bool, b: int)
    requires
        0 <= b <= s.len(),
        forall|j: int| b <= j < s.len() ==> p(s[j]),
        b == 0 || !p(s[b - 1]),
    ensures
        strip_end(s, p) == s.subrange(0, b),
    decreases s.len() - b,
{
    if b < s.len() {
        lemma_strip_end(s.drop_last(), p, b);
        assert(s.drop_last().subrange(0, b) =~= s.subrange(0, b));
    } else {
        assert(s.subrange(0, s.len() as int) =~= s);
    }
}

/// Whether trimming of the given kind removes `c`.
fn strips(c: char, quotes: bool) -> (r: bool)
    ensures
        r == (strip_pred(quotes))(c),
{
    if quotes {
        c == '"'
    } else {
        let u = c as u32;
        (0x9 <= u && u <= 0xd) || u == 0x20 || u == 0x85 || u == 0xa0 || u == 0x1680 || (0x2000
            <= u && u <= 0x200a) || u == 0x2028 || u == 0x2029 || u == 0x202f || u == 0x205f || u
            == 0x3000
    }
}

/// The bounds, within `from..to`, of that range of `s` stripped at both ends.
fn strip_bounds(s: &Vec<char>, from: usize, to: usize, quotes: bool) -> (r: (usize, usize))
    requires
        from <= to <= s@.len(),
    ensures
        from <= r.0 <= r.1 <= to,
        s@.subrange(r.0 as int, r.1 as int) == strip(
            s@.subrange(from as int, to as int),
            strip_pred(quotes),
        ),
        s@.subrange(r.0 as int, to as int) == strip_start(
            s@.subrange(from as int, to as int),
            strip_pred(quotes),
        ),
{
    let ghost p = strip_pred(quotes);
    let ghost sub = s@.subrange(from as int, to as int);
    let mut a = from;
    while a < to && strips(s[a], quotes)
        invariant
            from <= a <= to,
            to <= s@.len(),
            p == strip_pred(quotes),
            forall|j: int| from <= j < a ==> p(s@[j]),
        decreases to - a,
    {
        a = a + 1;
    }
    proof {
        assert forall|j: int| 0 <= j < a - from implies p(sub[j]) by {
            assert(sub[j] == s@[from + j]);
        }
        lemma_strip_start(sub, p, a - from);
        assert(sub.subrange(a - from, sub.len() as int) =~= s@.subrange(a as int, to as int));
    }
    let ghost mid = s@.subrange(a as int, to as int);
    let mut b = to;
    while b > a && strips(s[b - 1], quotes)
        invariant
            a <= b <= to,
            to <= s@.len(),
            p == strip_pred(quotes),
            forall|j: int| b <= j < to ==> p(s@[j]),
        decreases b - a,
    {
        b = b - 1;
    }
    proof {
        assert forall|j: int| b - a <= j < mid.len() implies p(mid[j]) by {
            assert(mid[j] == s@[a + j]);
        }
        lemma_strip_end(mid, p, b - a);
        assert(mid.subrange(0, b - a) =~= s@.subrange(a as int, b as int));
    }
    (a, b)
}

/// The index of the first `c` in `from..to` of `s`, or `to`.
fn find_from(s: &Vec<char>, from: usize, to: usize, c: char) -> (r: usize)
    requires
        from <= to <= s@.len(),
    ensures
        from <= r <= to,
        find_char(s@.subrange(from as int, to as int), c) == r - from,
        forall|j: int| from <= j < r ==> s@[j] != c,
        r < to ==> s@[r as int] == c,
{
    let mut i = from;
    while i < to && s[i] != c
        invariant
            from <= i <= to,
            to <= s@.len(),
            forall|j: int| from <= j < i ==> s@[j] != c,
        decreases to - i,
    {
        i = i + 1;
    }
    proof {
        let sub = s@.subrange(from as int, to as int);
        lemma_find_char(sub, c, i - from);
    }
    i
}

/// The characters of `s`, in order.
fn chars_of(s: &str) -> (r: Vec<char>)
    ensures
        r@ == s@,
{
    let n = s.unicode_len();
    let mut r: Vec<char> = Vec::new();
    let mut i: usize = 0;
    while i < n
        invariant
            n == s@.len(),
            i <= n,
            r@ == s@.take(i as int),
        decreases n - i,
    {
        r.push(s.get_char(i));
        assert(r@ =~= s@.take(i + 1));
        i = i + 1;
    }
    assert(r@ =~= s@);
    r
}

/// Whether `k` is a prefix of the range `from..to` of `s`.
fn has_prefix(s: &Vec<char>, from: usize, to: usize, k: &Vec<char>) -> (r: bool)
    requires
        from <= to <= s@.len(),
    ensures
        r == k@.is_prefix_of(s@.subrange(from as int, to as int)),
{
    let ghost t = s@.subrange(from as int, to as int);
    if k.len() > to - from {
        return false;
    }
    let mut j: usize = 0;
    while j < k.len()
        invariant
            from <= to <= s@.len(),
            k@.len() <= to - from,
            j <= k@.len(),
            t == s@.subrange(from as int, to as int),
            forall|i: int| 0 <= i < j ==> s@[from + i] == k@[i],
        decreases k@.len() - j,
    {
        if s[from + j] != k[j] {
            assert(t[j as int] != k@[j as int]);
            assert(!(k@ =~= t.subrange(0, k@.len() as int)));
            return false;
        }
        j = j + 1;
    }
    assert(k@ =~= t.subrange(0, k@.len() as int));
    true
}

/// The bounds in `s` of the value the line `from..to` gives for `k`, if any.
fn line_value(s: &Vec<char>, k: &Vec<char>, from: usize, to: usize) -> (r: Option<(usize, usize)>)
    requires
        from <= to <= s@.len(),
    ensures
        match toml_line_value(s@.subrange(from as int, to as int), k@) {
            None => r is None,
            Some(v) => r is Some && r->Some_0.0 <= r->Some_0.1 <= s@.len() && s@.subrange(
                r->Some_0.0 as int,
                r->Some_0.1 as int,
            ) == v,
        },
{
    let (a, b) = strip_bounds(s, from, to, false);
    let ghost t = s@.subrange(a as int, b as int);
    assert(t == trim(s@.subrange(from as int, to as int)));
    if !has_prefix(s, a, b, k) {
        return None;
    }
    let p = find_from(s, a, b, '=');
    if p == b {
        assert forall|j: int| 0 <= j < t.len() implies t[j] != '=' by {
            assert(t[j] == s@[a + j]);
        }
        return None;
    }
    assert(t[p - a] == '=');
    assert(t.contains('='));
    assert(find_char(t, '=') == p - a);
    let ghost rest = t.subrange(p - a + 1, t.len() as int);
    assert(rest =~= s@.subrange(p + 1, b as int));
    let q = find_from(s, p + 1, b, '=');
    assert(rest.take(q - p - 1) =~= s@.subrange(p + 1, q as int));
    let (x, y) = strip_bounds(s, p + 1, q, false);
    let (x2, y2) = strip_bounds(s, x, y, true);
    Some((x2, y2))
}

/// The value of `key` in the text of a `Cargo.toml`: the first line that,
/// trimmed, starts with `key` and holds an `=` gives the text after that `=`
/// (up to a further `=`), trimmed and stripped of double quotes; where no
/// line does, the empty string.
pub fn extract_toml_value(content: &str, key: &str) -> (r: String)
    ensures
        r@ == toml_value(content@, key@),
{
    let s = chars_of(content);
    let k = chars_of(key);
    let n = s.len();
    let mut start: usize = 0;
    assert(s@.skip(0) =~= s@);
    loop
        invariant
            s@ == content@,
            k@ == key@,
            n == s@.len(),
            start <= n,
            toml_value(s@, k@) == toml_value(s@.skip(start as int), k@),
        decreases n - start,
    {
        let ghost rest = s@.skip(start as int);
        assert(s@.subrange(start as int, n as int) =~= rest);
        let e = find_from(&s, start, n, '\n');
        assert(rest.take(e - start) =~= s@.subrange(start as int, e as int));
        match line_value(&s, &k, start, e) {
            Some(bounds) => {
                let (x, y) = bounds;
                return String::from_str(content.substring_char(x, y));
            },
            None => {},
        }
        if e < n {
            assert(rest.skip(e - start + 1) =~= s@.skip(e + 1));
            start = e + 1;
        } else {
            return String::new();
        }
    }
}

/// The package name a `Cargo.toml` gives.
pub fn extract_package_name(cargo_toml: &str) -> (r: String)
    ensures
        r@ == toml_value(cargo_toml@, "name"@),
{
    extract_toml_value(cargo_toml, "name")
}

/// The package version a `Cargo.toml` gives.
pub fn extract_package_version(cargo_toml: &str) -> (r: String)
    ensures
        r@ == toml_value(cargo_toml@, "version"@),
{
    extract_toml_value(cargo_toml, "version")
}

/// The package description a `Cargo.toml` gives.
pub fn extract_package_description(cargo_toml: &str) -> (r: String)
    ensures
        r@ == toml_value(cargo_toml@, "description"@),
{
    extract_toml_value(cargo_toml, "description")
}

/// The bounds in `s` of the name the line `from..to` declares, if any.
fn module_bounds(s: &Vec<char>, prefix: &Vec<char>, from: usize, to: usize) -> (r: Option<
    (usize, usize),
>)
    requires
        from <= to <= s@.len(),
        prefix@ == "pub mod "@,
    ensures
        match module_line(s@.subrange(from as int, to as int)) {
            None => r is None,
            Some(m) => r is Some && r->Some_0.0 <= r->Some_0.1 <= s@.len() && s@.subrange(
                r->Some_0.0 as int,
                r->Some_0.1 as int,
            ) == m,
        },
{
    proof {
        reveal_strlit("pub mod ");
    }
    let (a, b) = strip_bounds(s, from, to, false);
    let ghost t = s@.subrange(a as int, b as int);
    assert(t == trim(s@.subrange(from as int, to as int)));
    if !has_prefix(s, a, b, prefix) || b == a || s[b - 1] != ';' {
        return None;
    }
    assert(t.last() == ';');
    assert(t.subrange(0, 8)[7] == ' ');
    assert(b - a >= 9);
    let (x, y) = strip_bounds(s, a + 8, b - 1, false);
    assert(t.subrange(8, t.len() - 1) =~= s@.subrange(a + 8, b - 1));
    Some((x, y))
}

/// The names that the `pub mod name;` lines of `content` declare, in order.
pub fn extract_modules(content: &str) -> (r: Vec<String>)
    ensures
        r@.map_values(|m: String| m@) == module_names(content@),
{
    let s = chars_of(content);
    let prefix = chars_of("pub mod ");
    let n = s.len();
    let mut out: Vec<String> = Vec::new();
    let mut start: usize = 0;
    assert(s@.skip(0) =~= s@);
    assert(out@.map_values(|m: String| m@) + module_names(s@) =~= module_names(s@));
    loop
        invariant
            s@ == content@,
            prefix@ == "pub mod "@,
            n == s@.len(),
            start <= n,
            out@.map_values(|m: String| m@) + module_names(s@.skip(start as int)) == module_names(
                s@,
            ),
        decreases n - start,
    {
        let ghost rest = s@.skip(start as int);
        let ghost before = out@.map_values(|m: String| m@);
        assert(s@.subrange(start as int, n as int) =~= rest);
        let e = find_from(&s, start, n, '\n');
        assert(rest.take(e - start) =~= s@.subrange(start as int, e as int));
        let ghost here = match module_line(rest.take(e - start)) {
            Some(m) => seq![m],
            None => Seq::<Seq<char>>::empty(),
        };
        match module_bounds(&s, &prefix, start, e) {
            Some(bounds) => {
                let (x, y) = bounds;
                out.push(String::from_str(content.substring_char(x, y)));
            },
            None => {},
        }
        assert(out@.map_values(|m: String| m@) =~= before + here);
        if e < n {
            assert(rest.skip(e - start + 1) =~= s@.skip(e + 1));
            assert(module_names(rest) == here + module_names(s@.skip(e + 1)));
            assert(before + here + module_names(s@.skip(e + 1)) =~= before + (here + module_names(
                s@.skip(e + 1),
            )));
            start = e + 1;
        } else {
            assert(module_names(rest) == here);
            return out;
        }
    }
}

/// A line without the `\r` of a `\r\n` ending.
pub open spec fn strip_cr(l: Seq<char>) -> Seq<char> {
    if l.len() > 0 && l.last() == '\r' {
        l.drop_last()
    } else {
        l
    }
}

/// The lines of `s` as `str::lines` gives them: split at `\n`, a `\r` before
/// the `\n` dropped, and no empty line after a final `\n`.
pub open spec fn split_lines(s: Seq<char>) -> Seq<Seq<char>>
    decreases s.len(),
{
    if s.len() == 0 {
        Seq::empty()
    } else {
        let e = find_char(s, '\n');
        if e < s.len() {
            seq![strip_cr(s.take(e as int))] + split_lines(s.skip(e as int + 1))
        } else {
            seq![s]
        }
    }
}

/// The line that starts at `start`: it runs to `end`, and the next line
/// starts at `next`.
fn next_line(s: &Vec<char>, start: usize) -> (r: (usize, usize))
    requires
        start < s@.len(),
    ensures
        start <= r.0 <= r.1 <= s@.len(),
        start < r.1,
        split_lines(s@.skip(start as int)) == seq![s@.subrange(start as int, r.0 as int)]
            + split_lines(s@.skip(r.1 as int)),
{
    let n = s.len();
    let ghost rest = s@.skip(start as int);
    assert(s@.subrange(start as int, n as int) =~= rest);
    let e = find_from(s, start, n, '\n');
    if e < n {
        let end = if e > start && s[e - 1] == '\r' {
            e - 1
        } else {
            e
        };
        assert(rest.take(e - start) =~= s@.subrange(start as int, e as int));
        assert(strip_cr(rest.take(e - start)) =~= s@.subrange(start as int, end as int));
        assert(rest.skip(e - start + 1) =~= s@.skip(e + 1));
        (end, e + 1)
    } else {
        assert(s@.skip(n as int) =~= Seq::<char>::empty());
        assert(split_lines(s@.skip(n as int)) =~= Seq::<Seq<char>>::empty());
        assert(rest =~= s@.subrange(start as int, n as int));
        assert(seq![rest] + Seq::<Seq<char>>::empty() =~= seq![rest]);
        (n, n)
    }
}

/// `l` without its first `c` characters, where it is longer than that.
pub open spec fn dedent(l: Seq<char>, c: Option<nat>) -> Seq<char> {
    match c {
        Some(c) => if l.len() > c {
            l.skip(c as int)
        } else {
            l
        },
        None => l,
    }
}

/// The lines joined with `\n` between them.
pub open spec fn join_lines(ls: Seq<Seq<char>>) -> Seq<char>
    decreases ls.len(),
{
    if ls.len() == 0 {
        Seq::empty()
    } else if ls.len() == 1 {
        ls[0]
    } else {
        join_lines(ls.drop_last()) + "\n"@ + ls.last()
    }
}

/// The least of an indentation seen so far and `v`.
pub open spec fn min_indent(o: Option<nat>, v: nat) -> Option<nat> {
    match o {
        None => Some(v),
        Some(c) => Some(if v < c {
            v
        } else {
            c
        }),
    }
}

/// How many white-space characters `s` starts with.
pub open spec fn leading_spaces(s: Seq<char>) -> nat {
    (s.len() - strip_start(s, strip_pred(false)).len()) as nat
}

/// A collected usage text: as it stands where no indentation was seen, else
/// each of its lines with the common indentation removed, joined again.
pub open spec fn normalized(buffer: Seq<char>, indent: Option<nat>) -> Seq<char> {
    match indent {
        None => buffer,
        Some(_) => join_lines(split_lines(buffer).map_values(|l: Seq<char>| dedent(l, indent))),
    }
}

/// `body` as a block of Rust code in HTML.
pub open spec fn code_block(body: Seq<char>) -> Seq<char> {
    "<pre><code class=\"language-rust\">\n"@ + body + "</code></pre>\n"@
}

/// A trimmed line opens a usage section.
pub open spec fn is_usage_marker(t: Seq<char>) -> bool {
    "// USAGE:"@.is_prefix_of(t) || "//! USAGE:"@.is_prefix_of(t)
}

/// The text of a comment line after its `//` (or `//!`).
pub open spec fn comment_text(line: Seq<char>) -> Seq<char> {
    let t = strip_start(line, strip_pred(false));
    let cs: int = if "//!"@.is_prefix_of(trim(line)) {
        3
    } else {
        2
    };
    if cs <= t.len() {
        t.skip(cs)
    } else {
        Seq::empty()
    }
}

/// The scan for usage sections: the HTML so far, whether a section is open,
/// the comment text collected in it, and the least indentation of its
/// non-blank comment lines.
pub type UsageScan = (Seq<char>, bool, Seq<char>, Option<nat>);

/// One line of the scan for usage sections. A `// USAGE:` (or `//! USAGE:`)
/// line opens a section with a heading; in a section, each comment line adds
/// its text, and a blank one closes the section and emits what was collected
/// as a code block.
pub open spec fn usage_step(st: UsageScan, line: Seq<char>) -> UsageScan {
    let (info, open, buf, indent) = st;
    let t = trim(line);
    if is_usage_marker(t) {
        (info + "<h4>Usage</h4>\n"@, true, buf, None)
    } else if open && "//"@.is_prefix_of(t) {
        let c = comment_text(line);
        let blank = trim(c).len() == 0;
        let indent2 = if blank {
            indent
        } else {
            min_indent(indent, leading_spaces(c))
        };
        let buf2 = buf + c + "\n"@;
        if blank {
            (info + code_block(normalized(buf2, indent2)), false, Seq::empty(), indent2)
        } else {
            (info, true, buf2, indent2)
        }
    } else {
        st
    }
}

/// The scan for usage sections over `lines`.
pub open spec fn usage_scan(lines: Seq<Seq<char>>) -> UsageScan
    decreases lines.len(),
{
    if lines.len() == 0 {
        (Seq::empty(), false, Seq::empty(), None)
    } else {
        usage_step(usage_scan(lines.drop_last()), lines.last())
    }
}

/// The usage sections of `lines` in HTML, a section still open at the end
/// emitted as it stands.
pub open spec fn usage_sections(lines: Seq<Seq<char>>) -> Seq<char> {
    let (info, open, buf, indent) = usage_scan(lines);
    if open && buf.len() > 0 {
        info + code_block(normalized(buf, indent))
    } else {
        info
    }
}

/// An indentation as a count of characters.
pub open spec fn indent_view(o: Option<usize>) -> Option<nat> {
    match o {
        Some(c) => Some(c as nat),
        None => None,
    }
}

/// `buf` with the common indentation `indent` removed from each line.
fn normalize_text(buf: &String, indent: Option<usize>) -> (r: String)
    ensures
        r@ == normalized(buf@, indent_view(indent)),
{
    match indent {
        None => buf.clone(),
        Some(c) => {
            let bs = buf.as_str();
            let cs = chars_of(bs);
            let n = cs.len();
            let ghost all = split_lines(cs@);
            let ghost ls = all.map_values(|l: Seq<char>| dedent(l, indent_view(indent)));
            let mut out = String::new();
            let mut start: usize = 0;
            let ghost mut k: int = 0;
            let mut first = true;
            assert(cs@.skip(0) =~= cs@);
            assert(all.skip(0) =~= all);
            while start < n
                invariant
                    cs@ == bs@,
                    bs@ == buf@,
                    n == cs@.len(),
                    start <= n,
                    0 <= k <= all.len(),
                    indent == Some(c),
                    all == split_lines(cs@),
                    ls == all.map_values(|l: Seq<char>| dedent(l, indent_view(indent))),
                    split_lines(cs@.skip(start as int)) == all.skip(k),
                    out@ == join_lines(ls.take(k)),
                    first == (k == 0),
                decreases n - start,
            {
                let (end, next) = next_line(&cs, start);
                let ghost line = cs@.subrange(start as int, end as int);
                assert(all.skip(k)[0] == line);
                assert(all.skip(k).len() == all.len() - k);
                assert(k < all.len());
                assert(all.skip(k)[0] == all[k]);
                assert(all.skip(k + 1) =~= all.skip(k).skip(1));
                assert((seq![line] + split_lines(cs@.skip(next as int))).skip(1) =~= split_lines(
                    cs@.skip(next as int),
                ));
                let x = if end - start > c {
                    start + c
                } else {
                    start
                };
                assert(cs@.subrange(x as int, end as int) == dedent(line, indent_view(indent)));
                let ghost before = out@;
                if !first {
                    out.append("\n");
                }
                first = false;
                out.append(bs.substring_char(x, end));
                proof {
                    assert(ls.take(k + 1).drop_last() =~= ls.take(k));
                    assert(ls[k] == cs@.subrange(x as int, end as int));
                    if k == 0 {
                        assert(out@ =~= join_lines(ls.take(k + 1)));
                    } else {
                        assert(out@ =~= before + "\n"@ + ls[k]);
                    }
                    k = k + 1;
                }
                start = next;
            }
            assert(cs@.skip(n as int) =~= Seq::<char>::empty());
            assert(ls.take(k) =~= ls);
            out
        },
    }
}

/// Appends `body` to `info` as a block of Rust code.
fn push_code_block(info: &mut String, body: &str)
    ensures
        final(info)@ == old(info)@ + code_block(body@),
{
    info.append("<pre><code class=\"language-rust\">\n");
    info.append(body);
    info.append("</code></pre>\n");
    assert(info@ =~= old(info)@ + code_block(body@));
}

/// The usage sections of the lines of `src` (whose characters are `s`) in
/// HTML, as `usage_sections` gives them.
fn usage_html(src: &str, s: &Vec<char>) -> (r: String)
    requires
        s@ == src@,
    ensures
        r@ == usage_sections(split_lines(s@)),
{
    let marker = chars_of("// USAGE:");
    let inner_marker = chars_of("//! USAGE:");
    let slashes = chars_of("//");
    let bang = chars_of("//!");
    let n = s.len();
    let ghost all = split_lines(s@);
    let mut info = String::new();
    let mut open = false;
    let mut buf = String::new();
    let mut indent: Option<usize> = None;
    let mut start: usize = 0;
    let ghost mut k: int = 0;
    assert(s@.skip(0) =~= s@);
    assert(all.skip(0) =~= all);
    assert(all.take(0) =~= Seq::<Seq<char>>::empty());
    while start < n
        invariant
            s@ == src@,
            marker@ == "// USAGE:"@,
            inner_marker@ == "//! USAGE:"@,
            slashes@ == "//"@,
            bang@ == "//!"@,
            n == s@.len(),
            start <= n,
            0 <= k <= all.len(),
            all == split_lines(s@),
            split_lines(s@.skip(start as int)) == all.skip(k),
            usage_scan(all.take(k)) == (info@, open, buf@, indent_view(indent)),
        decreases n - start,
    {
        let (end, next) = next_line(s, start);
        let ghost line = s@.subrange(start as int, end as int);
        assert(all.skip(k)[0] == line);
        assert(all.skip(k).len() == all.len() - k);
        assert(all.skip(k)[0] == all[k]);
        assert(all.skip(k + 1) =~= all.skip(k).skip(1));
        assert((seq![line] + split_lines(s@.skip(next as int))).skip(1) =~= split_lines(
            s@.skip(next as int),
        ));
        assert(all.take(k + 1).drop_last() =~= all.take(k));
        let ghost st = (info@, open, buf@, indent_view(indent));
        let (a, b) = strip_bounds(s, start, end, false);
        let ghost t = s@.subrange(a as int, b as int);
        if has_prefix(s, a, b, &marker) || has_prefix(s, a, b, &inner_marker) {
            info.append("<h4>Usage</h4>\n");
            open = true;
            indent = None;
        } else if open && has_prefix(s, a, b, &slashes) {
            let cs: usize = if has_prefix(s, a, b, &bang) {
                3
            } else {
                2
            };
            let cstart = if cs <= end - a {
                a + cs
            } else {
                end
            };
            let ghost c = s@.subrange(cstart as int, end as int);
            if cs <= end - a {
                assert(s@.subrange(a as int, end as int).skip(cs as int) =~= c);
            }
            assert(c == comment_text(line));
            let (x, y) = strip_bounds(s, cstart, end, false);
            let blank = x == y;
            assert(blank == (trim(c).len() == 0));
            if !blank {
                let lead = x - cstart;
                assert(lead == leading_spaces(c));
                indent = match indent {
                    None => Some(lead),
                    Some(i) => Some(if lead < i {
                        lead
                    } else {
                        i
                    }),
                };
            }
            buf.append(src.substring_char(cstart, end));
            buf.append("\n");
            if blank {
                let body = normalize_text(&buf, indent);
                push_code_block(&mut info, body.as_str());
                open = false;
                buf = String::new();
            }
        }
        proof {
            assert(usage_step(st, line) == (info@, open, buf@, indent_view(indent)));
            k = k + 1;
        }
        start = next;
    }
    assert(s@.skip(n as int) =~= Seq::<char>::empty());
    assert(all.take(k) =~= all);
    if open && buf.as_str().unicode_len() > 0 {
        let body = normalize_text(&buf, indent);
        push_code_block(&mut info, body.as_str());
    }
    info
}

/// How many times `c` occurs in `s`.
pub open spec fn count_char(s: Seq<char>, c: char) -> nat
    decreases s.len(),
{
    if s.len() == 0 {
        0
    } else {
        count_char(s.drop_last(), c) + if s.last() == c {
            1nat
        } else {
            0nat
        }
    }
}

/// `pat` occurs in `s`.
pub open spec fn has_sub(s: Seq<char>, pat: Seq<char>) -> bool {
    exists|i: int| 0 <= i <= s.len() && pat.is_prefix_of(#[trigger] s.skip(i))
}

/// A trimmed line of `main` worth showing: not a comment, a call, and not a
/// `println!` or an assertion.
pub open spec fn is_call_line(t: Seq<char>) -> bool {
    !"//"@.is_prefix_of(t) && t.contains('(') && !has_sub(t, "println!"@) && !has_sub(
        t,
        "assert"@,
    )
}

/// The scan for `fn main`: whether it was seen, whether the scan is inside
/// it, the brace depth, the lines kept, and the least positive indentation
/// of those lines.
pub type MainScan = (bool, bool, int, Seq<Seq<char>>, Option<nat>);

/// One line of the scan for `fn main`. A line naming `fn main` enters it
/// (counting one brace if it holds any); inside, braces are counted, a line
/// with a `}` that brings the depth to zero or below leaves, and call lines
/// are kept.
pub open spec fn main_step(st: MainScan, line: Seq<char>) -> MainScan {
    let (found, in_main, depth, code, indent) = st;
    if has_sub(line, "fn main"@) {
        (true, true, depth + if line.contains('{') {
            1int
        } else {
            0int
        }, code, indent)
    } else if in_main {
        let d = depth + count_char(line, '{') - count_char(line, '}');
        let still = !(line.contains('}') && d <= 0);
        let lead = leading_spaces(line);
        if is_call_line(trim(line)) {
            (found, still, d, code.push(line), if lead > 0 {
                min_indent(indent, lead)
            } else {
                indent
            })
        } else {
            (found, still, d, code, indent)
        }
    } else {
        st
    }
}

/// The scan for `fn main` over `lines`.
pub open spec fn main_scan(lines: Seq<Seq<char>>) -> MainScan
    decreases lines.len(),
{
    if lines.len() == 0 {
        (false, false, 0, Seq::empty(), None)
    } else {
        main_step(main_scan(lines.drop_last()), lines.last())
    }
}

/// The kept lines, each without the common indentation and ended by `\n`.
pub open spec fn code_text(code: Seq<Seq<char>>, indent: Option<nat>) -> Seq<char>
    decreases code.len(),
{
    if code.len() == 0 {
        Seq::empty()
    } else {
        code_text(code.drop_last(), indent) + dedent(code.last(), indent) + "\n"@
    }
}

/// The example drawn from `fn main` in HTML, or nothing where no line was kept.
pub open spec fn main_example(lines: Seq<Seq<char>>) -> Seq<char> {
    let (found, _in_main, _depth, code, indent) = main_scan(lines);
    if found && code.len() > 0 {
        "<h4>Example Usage</h4>\n"@ + code_block(code_text(code, indent))
    } else {
        Seq::empty()
    }
}

/// The usage HTML of a source text: its usage sections, else the example
/// drawn from its `fn main`, else a note that there is none.
pub open spec fn example_usage(s: Seq<char>) -> Seq<char> {
    let lines = split_lines(s);
    let sections = usage_sections(lines);
    let found = if sections.len() == 0 {
        main_example(lines)
    } else {
        sections
    };
    if found.len() == 0 {
        "<p>No usage information available.</p>"@
    } else {
        found
    }
}

proof fn lemma_count_le(s: Seq<char>, c: char)
    ensures
        count_char(s, c) <= s.len(),
    decreases s.len(),
{
    if s.len() > 0 {
        lemma_count_le(s.drop_last(), c);
    }
}

/// How many times `c` occurs in `from..to` of `s`.
fn count_in(s: &Vec<char>, from: usize, to: usize, c: char) -> (r: usize)
    requires
        from <= to <= s@.len(),
    ensures
        r == count_char(s@.subrange(from as int, to as int), c),
        r <= to - from,
{
    let mut r: usize = 0;
    let mut i = from;
    assert(s@.subrange(from as int, from as int) =~= Seq::<char>::empty());
    while i < to
        invariant
            from <= i <= to <= s@.len(),
            r == count_char(s@.subrange(from as int, i as int), c),
            r <= i - from,
        decreases to - i,
    {
        assert(s@.subrange(from as int, i + 1).drop_last() =~= s@.subrange(from as int, i as int));
        if s[i] == c {
            r = r + 1;
        }
        i = i + 1;
    }
    r
}

/// Whether `c` occurs in `from..to` of `s`.
fn contains_char(s: &Vec<char>, from: usize, to: usize, c: char) -> (r: bool)
    requires
        from <= to <= s@.len(),
    ensures
        r == s@.subrange(from as int, to as int).contains(c),
{
    let p = find_from(s, from, to, c);
    let ghost sub = s@.subrange(from as int, to as int);
    if p < to {
        assert(sub[p - from] == c);
        true
    } else {
        assert forall|j: int| 0 <= j < sub.len() implies sub[j] != c by {
            assert(sub[j] == s@[from + j]);
        }
        false
    }
}

/// Whether `pat` occurs in `from..to` of `s`.
fn contains_sub(s: &Vec<char>, from: usize, to: usize, pat: &Vec<char>) -> (r: bool)
    requires
        from <= to <= s@.len(),
    ensures
        r == has_sub(s@.subrange(from as int, to as int), pat@),
{
    let ghost sub = s@.subrange(from as int, to as int);
    let len = to - from;
    let mut i: usize = 0;
    loop
        invariant
            from <= to <= s@.len(),
            len == to - from,
            sub == s@.subrange(from as int, to as int),
            i <= len,
            forall|j: int| 0 <= j < i ==> !pat@.is_prefix_of(#[trigger] sub.skip(j)),
        decreases len - i,
    {
        assert(sub.skip(i as int) =~= s@.subrange(from + i, to as int));
        if has_prefix(s, from + i, to, pat) {
            return true;
        }
        if i == len {
            return false;
        }
        i = i + 1;
    }
}

/// The example drawn from the `fn main` of the lines of `src` (whose
/// characters are `s`) in HTML, as `main_example` gives it.
fn main_html(src: &str, s: &Vec<char>) -> (r: String)
    requires
        s@ == src@,
    ensures
        r@ == main_example(split_lines(s@)),
{
    let fn_main = chars_of("fn main");
    let slashes = chars_of("//");
    let print = chars_of("println!");
    let assertion = chars_of("assert");
    let n = s.len();
    let ghost all = split_lines(s@);
    let mut found = false;
    let mut in_main = false;
    let mut depth: i128 = 0;
    let mut code: Vec<(usize, usize)> = Vec::new();
    let ghost mut code_view: Seq<Seq<char>> = Seq::empty();
    let mut indent: Option<usize> = None;
    let mut start: usize = 0;
    let ghost mut k: int = 0;
    assert(s@.skip(0) =~= s@);
    assert(all.skip(0) =~= all);
    assert(all.take(0) =~= Seq::<Seq<char>>::empty());
    while start < n
        invariant
            s@ == src@,
            fn_main@ == "fn main"@,
            slashes@ == "//"@,
            print@ == "println!"@,
            assertion@ == "assert"@,
            n == s@.len(),
            start <= n,
            0 <= k <= all.len(),
            all == split_lines(s@),
            split_lines(s@.skip(start as int)) == all.skip(k),
            -(start as int) <= depth <= start as int,
            code@.len() == code_view.len(),
            forall|j: int|
                0 <= j < code@.len() ==> (#[trigger] code@[j]).0 <= code@[j].1 <= n && s@.subrange(
                    code@[j].0 as int,
                    code@[j].1 as int,
                ) == code_view[j],
            main_scan(all.take(k)) == (found, in_main, depth as int, code_view, indent_view(indent)),
        decreases n - start,
    {
        let (end, next) = next_line(s, start);
        let ghost line = s@.subrange(start as int, end as int);
        assert(all.skip(k)[0] == line);
        assert(all.skip(k).len() == all.len() - k);
        assert(all.skip(k)[0] == all[k]);
        assert(all.skip(k + 1) =~= all.skip(k).skip(1));
        assert((seq![line] + split_lines(s@.skip(next as int))).skip(1) =~= split_lines(
            s@.skip(next as int),
        ));
        assert(all.take(k + 1).drop_last() =~= all.take(k));
        let ghost st = (found, in_main, depth as int, code_view, indent_view(indent));
        if contains_sub(s, start, end, &fn_main) {
            found = true;
            in_main = true;
            if contains_char(s, start, end, '{') {
                depth = depth + 1;
            }
        } else if in_main {
            let opens = count_in(s, start, end, '{');
            let closes = count_in(s, start, end, '}');
            depth = depth + opens as i128 - closes as i128;
            if contains_char(s, start, end, '}') && depth <= 0 {
                in_main = false;
            }
            let (a, b) = strip_bounds(s, start, end, false);
            if !has_prefix(s, a, b, &slashes) && contains_char(s, a, b, '(') && !contains_sub(
                s,
                a,
                b,
                &print,
            ) && !contains_sub(s, a, b, &assertion) {
                let lead = a - start;
                assert(lead == leading_spaces(line));
                code.push((start, end));
                proof {
                    code_view = code_view.push(line);
                }
                if lead > 0 {
                    indent = match indent {
                        None => Some(lead),
                        Some(i) => Some(if lead < i {
                            lead
                        } else {
                            i
                        }),
                    };
                }
            }
        }
        proof {
            assert(main_step(st, line) == (found, in_main, depth as int, code_view, indent_view(indent)));
            k = k + 1;
        }
        start = next;
    }
    assert(s@.skip(n as int) =~= Seq::<char>::empty());
    assert(all.take(k) =~= all);
    let mut out = String::new();
    if found && code.len() > 0 {
        let mut body = String::new();
        let mut j: usize = 0;
        assert(code_view.take(0) =~= Seq::<Seq<char>>::empty());
        while j < code.len()
            invariant
                s@ == src@,
                n == s@.len(),
                j <= code@.len(),
                code@.len() == code_view.len(),
                forall|i: int|
                    0 <= i < code@.len() ==> (#[trigger] code@[i]).0 <= code@[i].1 <= n
                        && s@.subrange(code@[i].0 as int, code@[i].1 as int) == code_view[i],
                body@ == code_text(code_view.take(j as int), indent_view(indent)),
            decreases code@.len() - j,
        {
            let (x, y) = code[j];
            let from = match indent {
                Some(c) => if y - x > c {
                    x + c
                } else {
                    x
                },
                None => x,
            };
            assert(s@.subrange(from as int, y as int) == dedent(code_view[j as int], indent_view(indent)));
            let ghost before = body@;
            body.append(src.substring_char(from, y));
            body.append("\n");
            assert(code_view.take(j + 1).drop_last() =~= code_view.take(j as int));
            assert(body@ =~= before + dedent(code_view[j as int], indent_view(indent)) + "\n"@);
            j = j + 1;
        }
        assert(code_view.take(code@.len() as int) =~= code_view);
        out.append("<h4>Example Usage</h4>\n");
        push_code_block(&mut out, body.as_str());
        assert(out@ =~= "<h4>Example Usage</h4>\n"@ + code_block(body@));
    } else {
        assert(out@ =~= Seq::<char>::empty());
    }
    out
}

/// The usage HTML of a source file: its `// USAGE:` comment sections, each
/// as a code block with the common indentation (in characters) removed; where
/// there is none, the calls in its `fn main` under an "Example Usage"
/// heading; where there are none either, a note saying so.
pub fn extract_example_usage(source: &str) -> (r: String)
    ensures
        r@ == example_usage(source@),
{
    let s = chars_of(source);
    let sections = usage_html(source, &s);
    let found = if sections.as_str().unicode_len() == 0 {
        main_html(source, &s)
    } else {
        sections
    };
    if found.as_str().unicode_len() == 0 {
        String::from_str("<p>No usage information available.</p>")
    } else {
        found
    }
}

} // verus!
